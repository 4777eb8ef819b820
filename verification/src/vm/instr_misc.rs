//! Moves and jumps.
use vstd::prelude::*;
use crate::api::lua_vm::LuaVM;
use crate::error::LuaError;
use crate::state::lua_state::{agrees};
use crate::vm::instruction::{spec_arg_a, spec_arg_b, spec_arg_sj, Instruction};

verus! {

/// `MOVE A B`: R[A] := R[B].
pub fn _move<V: LuaVM>(i: u32, vm: &mut V) -> (r: Result<(), LuaError>)
    requires
        old(vm).valid(),
    ensures
        final(vm).valid(),
        agrees(
            r,
            old(vm).state(),
            final(vm).state(),
            old(vm).state().with_reg(spec_arg_a(i) + 1, old(vm).state().get(spec_arg_b(i) + 1)),
        ),
{
    let (a, b) = (i.get_arg_a() + 1, i.get_arg_b() + 1);
    let v = vm.get_val(b);
    vm.set_val(a, v)
}

/// `JMP sJ`: pc += sJ.
pub fn jmp<V: LuaVM>(i: u32, vm: &mut V) -> (r: Result<(), LuaError>)
    requires
        old(vm).valid(),
    ensures
        final(vm).valid(),
        agrees(r, old(vm).state(), final(vm).state(), old(vm).state().jumped(spec_arg_sj(i))),
{
    let sj = i.get_arg_sj();
    vm.add_pc(sj)
}

} // verus!
