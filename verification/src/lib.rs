//! A virtual machine for precompiled Lua 5.4 chunks.
//!
//! The crate loads a binary chunk into a tree of function prototypes
//! ([`binary`]) and executes it on a register machine ([`vm`]) whose state
//! ([`state`]) holds the frames of the calls that are under way. Values are
//! a tagged union; tables are hybrid array and hash containers that live in
//! an arena owned by the state and are named by handles, so that sharing is
//! by reference and identity is the handle. What a host can do with the
//! machine is the trait [`api::LuaAPI`]; the instructions are written
//! against the trait [`api::LuaVM`]; the state implements both.
//!
//! # Doubles
//!
//! The library holds no floating-point code. A double is carried as the
//! bit pattern of an IEEE-754 binary64 ([`number::float`]). Comparisons,
//! conversions to and from integers and negation are computed on the bits,
//! and are proved to be those of the numbers that the bits stand for
//! ([`number::float_value`]). Every other operation on doubles is handed to
//! the caller as a [`state::arith_ops::FloatRequest`]: the caller computes
//! it and makes the same call again with a
//! [`state::arith_ops::FloatAnswer`].
//!
//! # Running
//!
//! The machine never runs away with control. A call makes a frame
//! ([`api::LuaAPI::call`]); [`vm::instruction::step`]
//! executes one instruction and says what is to happen next, and
//! [`vm::instruction::run`] takes a bounded number of steps. A function of
//! the host is known to the machine by a name; when one is called the
//! machine hands over, the host runs the function on the state and reports
//! the number of its results
//! ([`api::LuaVM::return_from`]).
//!
//! # Errors
//!
//! An operation on the state that fails returns a [`error::LuaError`] and
//! leaves the state as it was. A run stops before the step that fails.
pub mod api;
pub mod binary;
pub mod error;
pub mod number;
pub mod state;
pub mod vm;
