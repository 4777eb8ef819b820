//! What the instructions need of the machine.
use vstd::prelude::*;
use std::rc::Rc;
use crate::api::consts::LUAI_MAXSTACK;
use crate::api::lua_state::LuaState;
use crate::error::LuaError;
use crate::state::closure::Closure;
use crate::state::lua_stack::fit;
use crate::binary::chunk::Prototype;
use crate::state::lua_state::{
    agrees, agrees_with, script_closure, view_value, Step,
};
use crate::state::lua_value::{vals, LuaValue, Val};

verus! {

/// A machine that instructions can be executed on: beside what a host can
/// do with it, what the instructions need.
pub trait LuaVM: LuaState {
    /// The index of the next instruction.
    fn pc(&self) -> (r: isize)
        requires
            self.valid(),
        ensures
            r == self.state().frame().pc,
    ;

    /// Moves the program counter by `n`.
    fn add_pc(&mut self, n: isize) -> (r: Result<(), LuaError>)
        requires
            old(self).valid(),
        ensures
            final(self).valid(),
            agrees(r, old(self).state(), final(self).state(), old(self).state().jumped(n as int)),
    ;

    /// Sets the program counter.
    fn set_pc(&mut self, pc: isize)
        requires
            old(self).valid(),
        ensures
            final(self).valid(),
            final(self).state() == old(self).state().with_pc(pc as int),
    ;

    /// The instruction at the program counter, which moves behind it.
    fn fetch(&mut self) -> (r: Result<u32, LuaError>)
        requires
            old(self).valid(),
        ensures
            final(self).valid(),
            agrees_with(
                r,
                old(self).state(),
                final(self).state(),
                old(self).state().fetched_word(),
            ),
    ;

    /// Puts the constant with the index `idx` on top of the stack.
    fn get_const(&mut self, idx: isize) -> (r: Result<(), LuaError>)
        requires
            old(self).valid(),
        ensures
            final(self).valid(),
            agrees(
                r,
                old(self).state(),
                final(self).state(),
                old(self).state().with_const(idx as int),
            ),
    ;

    /// Puts the value of a register-or-constant operand on top of the stack.
    fn get_rk(&mut self, rk: isize) -> (r: Result<(), LuaError>)
        requires
            old(self).valid(),
        ensures
            final(self).valid(),
            agrees(r, old(self).state(), final(self).state(), old(self).state().with_rk(rk as int)),
    ;

    /// Makes a function from the nested prototype with the index `idx` and
    /// puts it on top of the stack.
    fn load_proto(&mut self, idx: usize) -> (r: Result<(), LuaError>)
        requires
            old(self).valid(),
        ensures
            final(self).valid(),
            agrees(
                r,
                old(self).state(),
                final(self).state(),
                old(self).state().with_proto(idx as int),
            ),
    ;

    /// Puts the first `n` extra arguments of the frame on top of the stack,
    /// and nils for those that are missing; all of them where `n` is below zero.
    fn load_vararg(&mut self, n: isize)
        requires
            old(self).valid(),
        ensures
            final(self).valid(),
            final(self).state() == old(self).state().with_varargs(n as int),
    ;

    /// The number of registers of the function that runs.
    fn register_count(&self) -> (r: usize)
        requires
            self.valid(),
        ensures
            r == self.state().proto().max_stack_size,
    ;

    /// The value at a stack index; nil where the index names none.
    fn get_val(&self, idx: isize) -> (r: LuaValue)
        requires
            self.valid(),
        ensures
            r@ == self.state().get(idx as int),
    ;

    /// Puts a value at a stack index, which must name a value of the stack.
    fn set_val(&mut self, idx: isize, v: LuaValue) -> (r: Result<(), LuaError>)
        requires
            old(self).valid(),
        ensures
            final(self).valid(),
            agrees(
                r,
                old(self).state(),
                final(self).state(),
                old(self).state().with_reg(idx as int, v@),
            ),
    ;

    /// Does the index name a value of the stack?
    fn is_valid(&self, idx: isize) -> (r: bool)
        requires
            self.valid(),
        ensures
            r == self.state().valid(idx as int),
    ;

    /// The constant with the index `idx`.
    fn konst(&self, idx: isize) -> (r: Option<LuaValue>)
        requires
            self.valid(),
        ensures
            view_value(r) == self.state().konst(idx as int),
    ;

    /// The value that a register-or-constant operand names.
    fn rk(&self, n: isize) -> (r: Option<LuaValue>)
        requires
            self.valid(),
        ensures
            view_value(r) == self.state().rk(n as int),
    ;

    /// The number of values on the stack.
    fn height(&self) -> (r: usize)
        requires
            self.valid(),
        ensures
            r == self.state().stack().len(),
    ;

    /// The number of frames.
    fn depth(&self) -> (r: usize)
        ensures
            r == self.state().frames.len(),
    ;

    /// The values of the registers from `a` up to, but without, `b`; nil for
    /// a register that does not exist.
    fn regs(&self, a: isize, b: isize) -> (r: Vec<LuaValue>)
        requires
            self.valid(),
            b - a <= LUAI_MAXSTACK,
        ensures
            vals(r@) == self.state().regs(a as int, b as int),
    ;

    /// Puts the values in the registers from `a` on, all of which must exist.
    fn set_regs(&mut self, a: isize, values: Vec<LuaValue>) -> (r: Result<(), LuaError>)
        requires
            old(self).valid(),
        ensures
            final(self).valid(),
            agrees(
                r,
                old(self).state(),
                final(self).state(),
                old(self).state().with_regs(a as int, vals(values@)),
            ),
    ;

    /// The value under `k` in the table that `t` names.
    fn table_get(&self, t: &LuaValue, k: &LuaValue) -> (r: Option<LuaValue>)
        requires
            self.valid(),
        ensures
            view_value(r) == self.state().table_get(t@, k@),
    ;

    /// Puts `v` under `k` in the table that `t` names.
    fn table_put(&mut self, t: &LuaValue, k: LuaValue, v: LuaValue) -> (r: bool)
        requires
            old(self).valid(),
        ensures
            final(self).valid(),
            match old(self).state().table_put(t@, k@, v@) {
                Some(s) => r && final(self).state() == s,
                None => !r && final(self).state() == old(self).state(),
            },
    ;

    /// The number of tables that the state holds.
    fn table_count(&self) -> (r: usize)
        ensures
            r == self.state().tables.len(),
    ;

    /// The length of a value: the number of bytes of a string, the length of
    /// the array part of a table; none for other values.
    fn length_of(&self, v: &LuaValue) -> (r: Option<i64>)
        requires
            self.valid(),
        ensures
            r == self.state().length_of(v@),
    ;

    /// The table of globals: what the registry holds under its key.
    fn globals(&self) -> (r: LuaValue)
        requires
            self.valid(),
        ensures
            r@ == self.state().globals(),
    ;

    /// Puts the values on top of the stack, in their order.
    fn push_all(&mut self, values: Vec<LuaValue>)
        requires
            old(self).valid(),
        ensures
            final(self).valid(),
            final(self).state() == old(self).state().with_stack(old(self).state().stack() + vals(values@)),
    ;

    /// The first `n` extra arguments of the frame that runs, and nils for
    /// those that are missing; all of them where `n` is below zero.
    fn copy_varargs(&self, n: isize) -> (r: Vec<LuaValue>)
        requires
            self.valid(),
        ensures
            vals(r@) == fit(self.state().frame().varargs, n as int),
    ;

    /// The function that a value names, if it names one.
    fn closure_at(&self, v: &LuaValue) -> (r: Option<Rc<Closure>>)
        ensures
            r == self.state().closure_of(v@),
    ;

    /// The number of prototypes that are nested in the one that runs.
    fn proto_count(&self) -> (r: usize)
        requires
            self.valid(),
        ensures
            r == self.state().proto().protos.len(),
    ;

    /// Makes a frame that runs the function `c` on the arguments `args`,
    /// and says what the machine is to do next.
    fn enter(&mut self, c: Rc<Closure>, args: Vec<LuaValue>, nresults: isize, dest: isize) -> (r:
        Step)
        requires
            old(self).valid(),
        ensures
            final(self).valid(),
            r@ == old(self).state().entered(c, vals(args@), nresults as int, dest as int).0,
            final(self).state() == old(self).state().entered(c, vals(args@), nresults as int, dest as int).1,
    ;

    /// Ends the call that the frame that runs was made for: its top `nret`
    /// values go back to the frame below, as many of them as that frame
    /// expects, nils standing in for those that are missing, and the frame
    /// that runs is taken off.
    fn return_from(&mut self, nret: usize) -> (r: Result<(), LuaError>)
        requires
            old(self).valid(),
        ensures
            final(self).valid(),
            agrees(
                r,
                old(self).state(),
                final(self).state(),
                old(self).state().returned(nret as int),
            ),
    ;

    /// Can the frame below the one that runs take the results that it expects?
    fn results_fit(&self) -> (r: bool)
        requires
            self.valid(),
        ensures
            r == self.state().results_fit(),
    ;

    /// The prototype with the index `idx` among those that are nested in the
    /// one that runs.
    fn proto_at(&self, idx: usize) -> (r: Rc<Prototype>)
        requires
            self.valid(),
            idx < self.state().proto().protos.len(),
        ensures
            r == self.state().proto().protos[idx as int],
    ;

    /// Makes a new, empty table, which expects `narr` values in its array
    /// part and `nrec` in its hash part, and gives the value that names it.
    fn new_lua_table(&mut self, narr: usize, nrec: usize) -> (r: LuaValue)
        requires
            old(self).valid(),
        ensures
            final(self).valid(),
            final(self).state() == old(self).state().add_table(),
            r@ == Val::Table(old(self).state().tables.len() as usize),
    ;

    /// Makes a function that runs `proto`, and gives the value that names it.
    fn new_lua_closure(&mut self, proto: Rc<Prototype>) -> (r: LuaValue)
        requires
            old(self).valid(),
        ensures
            final(self).valid(),
            final(self).state() == old(self).state().add_closure(script_closure(proto)),
            r@ == Val::Function(old(self).state().closures.len() as usize),
    ;

    /// Takes the values above the height `height` off the stack.
    fn cut_to(&mut self, height: usize)
        requires
            old(self).valid(),
            height <= old(self).state().stack().len(),
        ensures
            final(self).valid(),
            final(self).state() == old(self).state().with_stack(
                old(self).state().stack().subrange(0, height as int),
            ),
    ;
}

} // verus!
