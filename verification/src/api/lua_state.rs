//! What a host can do with the machine.
use vstd::prelude::*;
use vstd::utf8::encode_utf8;
use crate::api::consts::{
    LUAI_MAXSTACK, LUA_TNIL, LUA_TNONE, LUA_TNUMBER, LUA_TOLALTYPES, LUA_TSTRING,
};
use crate::binary::chunk::PrototypeView;
use crate::binary::reader::spec_undump;
use crate::error::LuaError;
use crate::state::arith_ops::{spec_to_text, view_answer, FloatAnswer, FloatRequest, Outcome};
use crate::state::closure::RustFn;
use crate::state::lua_stack::{abs_of, top_of};
use crate::state::lua_state::{
    admits_binary, agrees, agrees_with, spec_name_of_type, view_request, StateView, Step,
};
use crate::state::lua_value::{spec_to_boolean, spec_type_id, Val};

verus! {

/// The operations that a host has on the machine: on the stack of the
/// frame that runs, on tables and globals, and for loading and calling
/// functions. The state of the machine stands for a `StateView`, and what
/// the operations do is said of that view.
pub trait LuaState {
    /// The state of the machine.
    spec fn state(&self) -> StateView;

    /// Is the machine in a state that its operations can work on?
    spec fn valid(&self) -> bool;

    /// The state of a machine that is valid is well formed.
    proof fn lemma_valid(&self)
        requires
            self.valid(),
        ensures
            self.state().wf(),
    ;

    /// The index of the top of the stack: the number of its values.
    fn get_top(&self) -> (r: isize)
        requires
            self.valid(),
        ensures
            r == top_of(self.state().stack()),
    ;

    /// The index counted from the bottom, for an index that may count from
    /// the top: for `k` from 1 to the top, minus `k` is the top minus `k`
    /// plus 1.
    fn abs_index(&self, idx: isize) -> (r: isize)
        requires
            self.valid(),
        ensures
            r == abs_of(self.state().stack(), idx as int),
            idx < 0 ==> r == top_of(self.state().stack()) + idx + 1,
            idx >= 0 ==> r == idx,
    ;

    /// Can the stack take `n` more values? Where it can, room is made.
    fn check_stack(&mut self, n: usize) -> (r: bool)
        requires
            old(self).valid(),
        ensures
            final(self).valid(),
            final(self).state() == old(self).state(),
            r == (old(self).state().stack().len() + n <= LUAI_MAXSTACK),
    ;

    /// Takes the top `n` values off the stack.
    fn pop(&mut self, n: usize) -> (r: Result<(), LuaError>)
        requires
            old(self).valid(),
        ensures
            final(self).valid(),
            agrees(r, old(self).state(), final(self).state(), old(self).state().popped(n as int)),
    ;

    /// Puts the value at `from_idx` at `to_idx` as well.
    fn copy(&mut self, from_idx: isize, to_idx: isize) -> (r: Result<(), LuaError>)
        requires
            old(self).valid(),
        ensures
            final(self).valid(),
            agrees(r, old(self).state(), final(self).state(), old(self).state().copied(from_idx as int, to_idx as int)),
    ;

    /// Puts the value at `idx` on top of the stack as well.
    fn push_value(&mut self, idx: isize)
        requires
            old(self).valid(),
        ensures
            final(self).valid(),
            final(self).state() == old(self).state().push(old(self).state().get(idx as int)),
    ;

    /// Takes the top value off and puts it at `idx`.
    fn replace(&mut self, idx: isize) -> (r: Result<(), LuaError>)
        requires
            old(self).valid(),
        ensures
            final(self).valid(),
            agrees(r, old(self).state(), final(self).state(), old(self).state().replaced(idx as int)),
    ;

    /// Puts the top value at `idx`; the values from there up move up.
    fn insert(&mut self, idx: isize) -> (r: Result<(), LuaError>)
        requires
            old(self).valid(),
        ensures
            final(self).valid(),
            agrees(r, old(self).state(), final(self).state(), old(self).state().rotated(idx as int, 1)),
    ;

    /// Takes the value at `idx` out; the values above it move down.
    fn remove(&mut self, idx: isize) -> (r: Result<(), LuaError>)
        requires
            old(self).valid(),
        ensures
            final(self).valid(),
            agrees(r, old(self).state(), final(self).state(), old(self).state().removed(idx as int)),
    ;

    /// Moves the values from `idx` up to the top `n` places towards the top,
    /// those that leave at the top coming back in at `idx`; the other way
    /// where `n` is below zero.
    fn rotate(&mut self, idx: isize, n: isize) -> (r: Result<(), LuaError>)
        requires
            old(self).valid(),
        ensures
            final(self).valid(),
            agrees(r, old(self).state(), final(self).state(), old(self).state().rotated(idx as int, n as int)),
    ;

    /// Sets the height of the stack: values above `idx` are taken off, and
    /// nils fill what is missing below it.
    fn set_top(&mut self, idx: isize) -> (r: Result<(), LuaError>)
        requires
            old(self).valid(),
        ensures
            final(self).valid(),
            agrees(r, old(self).state(), final(self).state(), old(self).state().with_top(idx as int)),
    ;

    /// The name of the type with the identifier `tp`.
    fn name_of_type(&self, tp: i8) -> (r: &'static str)
        requires
            LUA_TNONE <= tp <= LUA_TOLALTYPES,
        ensures
            r == spec_name_of_type(tp),
    ;

    /// The type of the value at `idx`: that of no value where the index
    /// names none, which is so for every index that is not, counted from the
    /// bottom, from 1 to the top.
    fn type_id(&self, idx: isize) -> (r: i8)
        requires
            self.valid(),
        ensures
            r == self.state().type_id(idx as int),
            self.state().valid(idx as int) ==> r == spec_type_id(self.state().get(idx as int)) && r != LUA_TNONE,
            !self.state().valid(idx as int) ==> r == LUA_TNONE,
    ;

    /// Does the index name no value?
    fn is_none(&self, idx: isize) -> (r: bool)
        requires
            self.valid(),
        ensures
            r == !self.state().valid(idx as int),
    ;

    /// Is the value at `idx` nil?
    fn is_nil(&self, idx: isize) -> (r: bool)
        requires
            self.valid(),
        ensures
            r == (self.state().type_id(idx as int) == LUA_TNIL),
    ;

    /// Does the index name no value, or a nil?
    fn is_none_or_nil(&self, idx: isize) -> (r: bool)
        requires
            self.valid(),
        ensures
            r == (self.state().get(idx as int) == Val::Nil),
    ;

    /// Is the value at `idx` a boolean?
    fn is_boolean(&self, idx: isize) -> (r: bool)
        requires
            self.valid(),
        ensures
            r == (self.state().get(idx as int) is Boolean),
    ;

    /// Is the value at `idx` an integer?
    fn is_integer(&self, idx: isize) -> (r: bool)
        requires
            self.valid(),
        ensures
            r == (self.state().get(idx as int) is Integer),
    ;

    /// Is the value at `idx` a number: an integer or a double?
    fn is_number(&self, idx: isize) -> (r: bool)
        requires
            self.valid(),
        ensures
            r == (self.state().get(idx as int) is Integer || self.state().get(idx as int) is Number),
    ;

    /// Is the value at `idx` a string, or a number, which converts to one?
    fn is_string(&self, idx: isize) -> (r: bool)
        requires
            self.valid(),
        ensures
            r == (self.state().type_id(idx as int) == LUA_TSTRING || self.state().type_id(idx as int)
                == LUA_TNUMBER),
    ;

    /// Is the value at `idx` a table?
    fn is_table(&self, idx: isize) -> (r: bool)
        requires
            self.valid(),
        ensures
            r == (self.state().get(idx as int) is Table),
    ;

    /// Is the value at `idx` a thread? No value is.
    fn is_thread(&self, idx: isize) -> (r: bool)
        requires
            self.valid(),
        ensures
            !r,
    ;

    /// Is the value at `idx` a function?
    fn is_function(&self, idx: isize) -> (r: bool)
        requires
            self.valid(),
        ensures
            r == (self.state().get(idx as int) is Function),
    ;

    /// Is the value at `idx` a function of the host?
    fn is_rust_function(&self, idx: isize) -> (r: bool)
        requires
            self.valid(),
        ensures
            r == self.state().rust_function(idx as int).is_some(),
    ;

    /// The truth of the value at `idx`.
    fn to_boolean(&self, idx: isize) -> (r: bool)
        requires
            self.valid(),
        ensures
            r == spec_to_boolean(self.state().get(idx as int)),
    ;

    /// The integer at `idx`.
    fn to_integer(&self, idx: isize) -> (r: Result<i64, LuaError>)
        requires
            self.valid(),
        ensures
            match r {
                Ok(i) => self.state().get(idx as int) == Val::Integer(i),
                Err(e) => e == LuaError::TypeError && !(self.state().get(idx as int) is Integer),
            },
    ;

    /// The integer at `idx`, if the value there is one.
    fn to_integerx(&self, idx: isize) -> (r: Option<i64>)
        requires
            self.valid(),
        ensures
            match r {
                Some(i) => self.state().get(idx as int) == Val::Integer(i),
                None => !(self.state().get(idx as int) is Integer),
            },
    ;

    /// The number at `idx`, as a double.
    fn to_number(&self, idx: isize) -> (r: Result<u64, LuaError>)
        requires
            self.valid(),
        ensures
            match r {
                Ok(x) => self.state().number_at(idx as int) == Some(x),
                Err(e) => e == LuaError::TypeError && self.state().number_at(idx as int).is_none(),
            },
    ;

    /// The number at `idx`, as a double, if the value there is a number.
    fn to_numberx(&self, idx: isize) -> (r: Option<u64>)
        requires
            self.valid(),
        ensures
            r == self.state().number_at(idx as int),
    ;

    /// The value at `idx` as a string value, which it must have.
    fn to_string(&self, idx: isize, answer: Option<&FloatAnswer>) -> (r: Result<
        Outcome,
        LuaError,
    >)
        requires
            self.valid(),
        ensures
            match r {
                Ok(o) => o@ == spec_to_text(self.state().get(idx as int), view_answer(answer)) && !(o@
                    is Fail),
                Err(e) => e == LuaError::TypeError && spec_to_text(
                    self.state().get(idx as int),
                    view_answer(answer),
                ) is Fail,
            },
    ;

    /// The value at `idx` as a string value: a string is itself, an integer
    /// is written in decimal, a double is written by the caller, who is
    /// asked for it and calls again with the answer; other values fail.
    fn to_stringx(&self, idx: isize, answer: Option<&FloatAnswer>) -> (r: Outcome)
        requires
            self.valid(),
        ensures
            r@ == spec_to_text(self.state().get(idx as int), view_answer(answer)),
    ;

    /// The name of the host function at `idx`, if the value there is one.
    fn to_rust_function(&self, idx: isize) -> (r: Option<RustFn>)
        requires
            self.valid(),
        ensures
            r == self.state().rust_function(idx as int),
    ;

    /// Puts nil on top of the stack.
    fn push_nil(&mut self)
        requires
            old(self).valid(),
        ensures
            final(self).valid(),
            final(self).state() == old(self).state().push(Val::Nil),
    ;

    /// Puts a boolean on top of the stack.
    fn push_boolean(&mut self, b: bool)
        requires
            old(self).valid(),
        ensures
            final(self).valid(),
            final(self).state() == old(self).state().push(Val::Boolean(b)),
    ;

    /// Puts an integer on top of the stack.
    fn push_integer(&mut self, n: i64)
        requires
            old(self).valid(),
        ensures
            final(self).valid(),
            final(self).state() == old(self).state().push(Val::Integer(n)),
    ;

    /// Puts a double on top of the stack.
    fn push_number(&mut self, n: u64)
        requires
            old(self).valid(),
        ensures
            final(self).valid(),
            final(self).state() == old(self).state().push(Val::Number(n)),
    ;

    /// Puts a string on top of the stack.
    fn push_string(&mut self, s: String)
        requires
            old(self).valid(),
        ensures
            final(self).valid(),
            final(self).state() == old(self).state().push(Val::Str(s@)),
    ;

    /// Makes a function that calls the host function `f`, and puts it on
    /// top of the stack.
    fn push_rust_function(&mut self, f: RustFn)
        requires
            old(self).valid(),
        ensures
            final(self).valid(),
            final(self).state().closures.len() == old(self).state().closures.len() + 1,
            final(self).state().closures.last().rust_fn == Some(f),
            final(self).state().closures.last().proto.view() == PrototypeView::empty(),
            final(self).state() == old(self).state().add_closure(final(self).state().closures.last()).push(
                Val::Function(old(self).state().closures.len() as usize),
            ),
    ;

    /// Puts the table of globals, which the registry holds, on top of the stack.
    fn push_global_table(&mut self)
        requires
            old(self).valid(),
        ensures
            final(self).valid(),
            final(self).state() == old(self).state().push(old(self).state().globals()),
    ;

    /// Applies the arithmetic operator `op` to the top values of the stack,
    /// two of them or, for a unary operator, one; the result takes their
    /// place. Where doubles have to be computed, the request to do so is
    /// returned, and the call is to be made again with the answer.
    fn arith(&mut self, op: u8, answer: Option<&FloatAnswer>) -> (r: Result<
        Option<FloatRequest>,
        LuaError,
    >)
        requires
            old(self).valid(),
        ensures
            final(self).valid(),
            match old(self).state().arith(op, view_answer(answer)) {
                Ok((req, s)) => r.is_ok() && view_request(r.unwrap()) == req && final(self).state() == s,
                Err(e) => r.is_err() && r.unwrap_err() == e && final(self).state() == old(self).state(),
            },
    ;

    /// Compares the values at two indices by the operator `op`.
    fn compare(&mut self, idx1: isize, idx2: isize, op: u8) -> (r: Result<bool, LuaError>)
        requires
            old(self).valid(),
        ensures
            final(self).valid(),
            final(self).state() == old(self).state(),
            r == old(self).state().compare(idx1 as int, idx2 as int, op),
    ;

    /// Puts the length of the value at `idx` on top of the stack: the
    /// number of bytes of a string, the length of the array part of a table.
    fn len(&mut self, idx: isize) -> (r: Result<(), LuaError>)
        requires
            old(self).valid(),
        ensures
            final(self).valid(),
            agrees(r, old(self).state(), final(self).state(), old(self).state().with_len(idx as int)),
    ;

    /// Joins the top `n` values of the stack to one string, which takes
    /// their place. None joins to the empty string; one value stays as it
    /// is. Where a double is among them, the request to write it is
    /// returned, and the call is to be made again with the answer.
    fn concat(&mut self, n: isize, answer: Option<&FloatAnswer>) -> (r: Result<
        Option<FloatRequest>,
        LuaError,
    >)
        requires
            old(self).valid(),
        ensures
            final(self).valid(),
            match old(self).state().concat(n as int, view_answer(answer)) {
                Ok((req, s)) => r.is_ok() && view_request(r.unwrap()) == req && final(self).state() == s,
                Err(e) => r.is_err() && r.unwrap_err() == e && final(self).state() == old(self).state(),
            },
    ;

    /// Makes a new, empty table and puts it on top of the stack.
    fn new_table(&mut self)
        requires
            old(self).valid(),
        ensures
            final(self).valid(),
            final(self).state() == old(self).state().add_table().push(
                Val::Table(old(self).state().tables.len() as usize),
            ),
    ;

    /// Makes a new, empty table, which expects `narr` values in its array
    /// part and `nrec` in its hash part, and puts it on top of the stack.
    fn create_table(&mut self, narr: usize, nrec: usize)
        requires
            old(self).valid(),
        ensures
            final(self).valid(),
            final(self).state() == old(self).state().add_table().push(
                Val::Table(old(self).state().tables.len() as usize),
            ),
    ;

    /// Takes the key off the top of the stack and puts the value that the
    /// table at `idx` holds under it in its place. Returns the type of the value.
    fn get_table(&mut self, idx: isize) -> (r: Result<i8, LuaError>)
        requires
            old(self).valid(),
        ensures
            final(self).valid(),
            agrees_with(
                r,
                old(self).state(),
                final(self).state(),
                old(self).state().fetched(old(self).state().get(idx as int), old(self).state().get(-1), 1),
            ),
    ;

    /// Puts the value that the table at `idx` holds under the string `k` on
    /// top of the stack. Returns the type of the value.
    fn get_field(&mut self, idx: isize, k: &str) -> (r: Result<i8, LuaError>)
        requires
            old(self).valid(),
        ensures
            final(self).valid(),
            agrees_with(
                r,
                old(self).state(),
                final(self).state(),
                old(self).state().fetched(old(self).state().get(idx as int), Val::Str(k@), 0),
            ),
    ;

    /// Puts the value that the table at `idx` holds under the integer `i` on
    /// top of the stack. Returns the type of the value.
    fn get_i(&mut self, idx: isize, i: i64) -> (r: Result<i8, LuaError>)
        requires
            old(self).valid(),
        ensures
            final(self).valid(),
            agrees_with(
                r,
                old(self).state(),
                final(self).state(),
                old(self).state().fetched(old(self).state().get(idx as int), Val::Integer(i), 0),
            ),
    ;

    /// Puts the value under `name` in the table of globals on top of the
    /// stack. Returns the type of the value.
    fn get_global(&mut self, name: &str) -> (r: Result<i8, LuaError>)
        requires
            old(self).valid(),
        ensures
            final(self).valid(),
            agrees_with(
                r,
                old(self).state(),
                final(self).state(),
                old(self).state().fetched(old(self).state().globals(), Val::Str(name@), 0),
            ),
    ;

    /// Takes a value and, below it, a key off the top of the stack, and puts
    /// the value under the key in the table at `idx`.
    fn set_table(&mut self, idx: isize) -> (r: Result<(), LuaError>)
        requires
            old(self).valid(),
        ensures
            final(self).valid(),
            agrees(
                r,
                old(self).state(),
                final(self).state(),
                old(self).state().stored(
                    old(self).state().get(idx as int),
                    old(self).state().get(-2),
                    old(self).state().get(-1),
                    2,
                ),
            ),
    ;

    /// Takes a value off the top of the stack and puts it under the string
    /// `k` in the table at `idx`.
    fn set_field(&mut self, idx: isize, k: &str) -> (r: Result<(), LuaError>)
        requires
            old(self).valid(),
        ensures
            final(self).valid(),
            agrees(
                r,
                old(self).state(),
                final(self).state(),
                old(self).state().stored(old(self).state().get(idx as int), Val::Str(k@), old(self).state().get(-1), 1),
            ),
    ;

    /// Takes a value off the top of the stack and puts it under the integer
    /// `i` in the table at `idx`.
    fn set_i(&mut self, idx: isize, i: i64) -> (r: Result<(), LuaError>)
        requires
            old(self).valid(),
        ensures
            final(self).valid(),
            agrees(
                r,
                old(self).state(),
                final(self).state(),
                old(self).state().stored(
                    old(self).state().get(idx as int),
                    Val::Integer(i),
                    old(self).state().get(-1),
                    1,
                ),
            ),
    ;

    /// Takes a value off the top of the stack and puts it under `name` in
    /// the table of globals.
    fn set_global(&mut self, name: &str) -> (r: Result<(), LuaError>)
        requires
            old(self).valid(),
        ensures
            final(self).valid(),
            agrees(
                r,
                old(self).state(),
                final(self).state(),
                old(self).state().stored(old(self).state().globals(), Val::Str(name@), old(self).state().get(-1), 1),
            ),
    ;

    /// Makes a function that calls the host function `f` and puts it under
    /// `name` in the table of globals, which must be a table.
    fn register(&mut self, name: &str, f: RustFn) -> (r: Result<(), LuaError>)
        requires
            old(self).valid(),
        ensures
            final(self).valid(),
            match r {
                Ok(_) => old(self).state().table_of(old(self).state().globals()).is_some() && final(self).state().closures.len() == old(self).state().closures.len() + 1 && final(self).state().closures.last().rust_fn == Some(f) && final(self).state().closures.last().proto.view()
                    == PrototypeView::empty() && Some(final(self).state()) == old(self).state().add_closure(
                    final(self).state().closures.last(),
                ).table_put(
                    old(self).state().globals(),
                    Val::Str(name@),
                    Val::Function(old(self).state().closures.len() as usize),
                ),
                Err(e) => e == LuaError::TableError && old(self).state().table_of(
                    old(self).state().globals(),
                ).is_none() && final(self).state() == old(self).state(),
            },
    ;

    /// Loads a precompiled chunk and puts its main function on top of the
    /// stack. The mode says what may be loaded: it must hold the letter `b`.
    /// The name of the chunk is not used.
    fn load(&mut self, chunk: Vec<u8>, chunk_name: &str, mode: &str) -> (r: Result<
        (),
        LuaError,
    >)
        requires
            old(self).valid(),
        ensures
            final(self).valid(),
            match r {
                Ok(_) => admits_binary(encode_utf8(mode@)) && final(self).state().closures.len() == old(self).state().closures.len() + 1 && final(self).state().closures.last().rust_fn.is_none()
                    && spec_undump(chunk@) == Ok::<_, LuaError>(
                    final(self).state().closures.last().proto.view(),
                ) && final(self).state() == old(self).state().add_closure(final(self).state().closures.last()).push(
                    Val::Function(old(self).state().closures.len() as usize),
                ),
                Err(e) => e == LuaError::LoadError && (!admits_binary(encode_utf8(mode@))
                    || spec_undump(chunk@).is_err()) && final(self).state() == old(self).state(),
            },
    ;

    /// Begins a call of the function that lies on the stack below its
    /// `nargs` arguments, from which `nresults` results are expected, or
    /// all of them where `nresults` is below zero. A frame is made for the
    /// function. Where it is a function of the host, the host is to run
    /// it; else the machine is to be stepped until the call returns.
    fn call(&mut self, nargs: usize, nresults: isize) -> (r: Result<Step, LuaError>)
        requires
            old(self).valid(),
        ensures
            final(self).valid(),
            match old(self).state().called(nargs as int, nresults as int, 0) {
                Ok((step, s)) => r.is_ok() && r.unwrap()@ == step && final(self).state() == s,
                Err(e) => r.is_err() && r.unwrap_err() == e && final(self).state() == old(self).state(),
            },
    ;
}

} // verus!
