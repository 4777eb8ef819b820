//! The interfaces of the machine.
pub mod consts;
pub mod lua_state;
pub mod lua_vm;
pub mod op;
pub mod types;

pub use self::lua_state::LuaState as LuaAPI;
pub use self::lua_vm::LuaVM;
