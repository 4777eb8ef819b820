//! The instructions that reach the table of globals, which is the one
//! upvalue that the machine knows.
use vstd::prelude::*;
use crate::api::lua_vm::LuaVM;
use crate::error::LuaError;
use crate::state::lua_state::{agrees};
use crate::vm::instr_table::{read_table, rkc, spec_rkc, table_read, table_write, write_table};
use crate::vm::instruction::{spec_arg_a, spec_arg_b, spec_arg_c, Instruction};

verus! {

/// `GETTABUP A B C`: R[A] := UpValue[B][K[C]:string], the upvalue being
/// the table of globals.
pub fn get_tab_up<V: LuaVM>(i: u32, vm: &mut V) -> (r: Result<(), LuaError>)
    requires
        old(vm).valid(),
    ensures
        final(vm).valid(),
        agrees(
            r,
            old(vm).state(),
            final(vm).state(),
            table_read(
                old(vm).state(),
                spec_arg_a(i) + 1,
                old(vm).state().globals(),
                old(vm).state().konst(spec_arg_c(i)),
            ),
        ),
{
    let (a, c) = (i.get_arg_a() + 1, i.get_arg_c());
    let t = vm.globals();
    let k = vm.konst(c);
    read_table(vm, a, &t, k)
}

/// `SETTABUP A B C`: UpValue[A][K[B]:string] := RK(C), the upvalue being
/// the table of globals.
pub fn set_tab_up<V: LuaVM>(i: u32, vm: &mut V) -> (r: Result<(), LuaError>)
    requires
        old(vm).valid(),
    ensures
        final(vm).valid(),
        agrees(
            r,
            old(vm).state(),
            final(vm).state(),
            table_write(
                old(vm).state(),
                old(vm).state().globals(),
                old(vm).state().konst(spec_arg_b(i)),
                spec_rkc(old(vm).state(), i),
            ),
        ),
{
    let b = i.get_arg_b();
    let t = vm.globals();
    let k = vm.konst(b);
    let v = rkc(i, vm);
    write_table(vm, &t, k, v)
}

} // verus!
