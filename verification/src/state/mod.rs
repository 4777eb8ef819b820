//! The state of the machine and what it is made of.
use vstd::prelude::*;
use std::rc::Rc;
use crate::binary::chunk::Prototype;
pub use self::lua_state::LuaState;

pub mod arith_ops;
pub mod closure;
pub mod compare_ops;
pub mod lua_stack;
pub mod lua_state;
pub mod lua_table;
pub mod lua_value;

verus! {

/// A new state with a registry, a table of globals in it, and one empty frame.
pub fn new_lua_state() -> (r: LuaState)
    ensures
        r.wf(),
        r@ == crate::state::lua_state::StateView::fresh(r@.frame().closure),
        r@.frame().closure.rust_fn.is_none(),
        r@.frame().closure.proto.view() == crate::binary::chunk::PrototypeView::empty(),
{
    LuaState::new()
}

/// A new state whose one frame runs `proto`.
pub fn new_lua_state_with_proto(proto: Rc<Prototype>) -> (r: LuaState)
    ensures
        r.wf(),
        r@ == crate::state::lua_state::StateView::fresh_for(r@.frame().closure),
        r@.frame().closure.proto == proto,
        r@.frame().closure.rust_fn.is_none(),
{
    LuaState::new_with_proto(proto)
}

} // verus!
