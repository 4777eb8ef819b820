//! The instructions that load a value into a register.
use vstd::prelude::*;
use crate::api::lua_vm::LuaVM;
use crate::error::LuaError;
use crate::number::float::{int_to_float, spec_int_to_float};
use crate::state::lua_stack::nils;
use crate::state::lua_state::{agrees, lemma_with_pc, StateView};
use crate::state::lua_value::{vals, LuaValue, Val};
use crate::vm::instruction::{
    spec_arg_a, spec_arg_ax, spec_arg_b, spec_arg_bx, spec_arg_sbx, Instruction,
};

verus! {

/// The state with the constant `k` in the register `a`.
pub open spec fn with_const_in(s: StateView, a: int, k: int) -> Result<StateView, LuaError> {
    match s.konst(k) {
        Some(v) => s.with_reg(a, v),
        None => Err(LuaError::CorruptChunk),
    }
}

/// The state after `LOADKX`: the next word is an extra argument, which is
/// passed over; its field Ax names the constant.
pub open spec fn spec_load_kx(s: StateView, i: u32) -> Result<StateView, LuaError> {
    match s.fetched_word() {
        Ok((w, sa)) => with_const_in(sa, spec_arg_a(i) + 1, spec_arg_ax(w)),
        Err(e) => Err(e),
    }
}

/// The state with `v` in the register `a` and the next instruction passed over.
pub open spec fn with_reg_skip(s: StateView, a: int, v: Val) -> Result<StateView, LuaError> {
    match s.with_reg(a, v) {
        Ok(sa) => sa.jumped(1),
        Err(e) => Err(e),
    }
}

/// `LOADI A sBx`: R[A] := sBx.
pub fn load_i<V: LuaVM>(i: u32, vm: &mut V) -> (r: Result<(), LuaError>)
    requires
        old(vm).valid(),
    ensures
        final(vm).valid(),
        agrees(
            r,
            old(vm).state(),
            final(vm).state(),
            old(vm).state().with_reg(spec_arg_a(i) + 1, Val::Integer(spec_arg_sbx(i) as i64)),
        ),
{
    let (a, sbx) = (i.get_arg_a() + 1, i.get_arg_sbx());
    vm.set_val(a, LuaValue::Integer(sbx as i64))
}

/// `LOADF A sBx`: R[A] := sBx as a double.
pub fn load_f<V: LuaVM>(i: u32, vm: &mut V) -> (r: Result<(), LuaError>)
    requires
        old(vm).valid(),
    ensures
        final(vm).valid(),
        agrees(
            r,
            old(vm).state(),
            final(vm).state(),
            old(vm).state().with_reg(
                spec_arg_a(i) + 1,
                Val::Number(spec_int_to_float(spec_arg_sbx(i) as i64)),
            ),
        ),
{
    let (a, sbx) = (i.get_arg_a() + 1, i.get_arg_sbx());
    vm.set_val(a, LuaValue::Number(int_to_float(sbx as i64)))
}

/// `LOADK A Bx`: R[A] := K[Bx].
pub fn load_k<V: LuaVM>(i: u32, vm: &mut V) -> (r: Result<(), LuaError>)
    requires
        old(vm).valid(),
    ensures
        final(vm).valid(),
        agrees(
            r,
            old(vm).state(),
            final(vm).state(),
            with_const_in(old(vm).state(), spec_arg_a(i) + 1, spec_arg_bx(i)),
        ),
{
    let (a, bx) = (i.get_arg_a() + 1, i.get_arg_bx());
    match vm.konst(bx) {
        Some(v) => vm.set_val(a, v),
        None => Err(LuaError::CorruptChunk),
    }
}

/// `LOADKX A`: R[A] := K[extra argument].
pub fn load_kx<V: LuaVM>(i: u32, vm: &mut V) -> (r: Result<(), LuaError>)
    requires
        old(vm).valid(),
    ensures
        final(vm).valid(),
        agrees(r, old(vm).state(), final(vm).state(), spec_load_kx(old(vm).state(), i)),
{
    proof {
        vm.lemma_valid();
    }
    let a = i.get_arg_a() + 1;
    let pc = vm.pc();
    let w = match vm.fetch() {
        Ok(w) => w,
        Err(e) => {
            return Err(e);
        },
    };
    let ax = w.get_arg_ax();
    let r = match vm.konst(ax) {
        Some(v) => vm.set_val(a, v),
        None => Err(LuaError::CorruptChunk),
    };
    if r.is_err() {
        vm.set_pc(pc);
        proof {
            lemma_with_pc(old(vm).state(), pc + 1, pc as int);
        }
    }
    r
}

/// `LOADFALSE A`: R[A] := false.
pub fn load_false<V: LuaVM>(i: u32, vm: &mut V) -> (r: Result<(), LuaError>)
    requires
        old(vm).valid(),
    ensures
        final(vm).valid(),
        agrees(
            r,
            old(vm).state(),
            final(vm).state(),
            old(vm).state().with_reg(spec_arg_a(i) + 1, Val::Boolean(false)),
        ),
{
    let a = i.get_arg_a() + 1;
    vm.set_val(a, LuaValue::Boolean(false))
}

/// `LFALSESKIP A`: R[A] := false; pc++.
pub fn load_l_false_skip<V: LuaVM>(i: u32, vm: &mut V) -> (r: Result<(), LuaError>)
    requires
        old(vm).valid(),
    ensures
        final(vm).valid(),
        agrees(
            r,
            old(vm).state(),
            final(vm).state(),
            with_reg_skip(old(vm).state(), spec_arg_a(i) + 1, Val::Boolean(false)),
        ),
{
    proof {
        vm.lemma_valid();
    }
    let a = i.get_arg_a() + 1;
    if vm.pc() == isize::MAX {
        return Err(LuaError::IndexError);
    }
    match vm.set_val(a, LuaValue::Boolean(false)) {
        Ok(_) => vm.add_pc(1),
        Err(e) => Err(e),
    }
}

/// `LOADTRUE A`: R[A] := true.
pub fn load_true<V: LuaVM>(i: u32, vm: &mut V) -> (r: Result<(), LuaError>)
    requires
        old(vm).valid(),
    ensures
        final(vm).valid(),
        agrees(
            r,
            old(vm).state(),
            final(vm).state(),
            old(vm).state().with_reg(spec_arg_a(i) + 1, Val::Boolean(true)),
        ),
{
    let a = i.get_arg_a() + 1;
    vm.set_val(a, LuaValue::Boolean(true))
}

/// `LOADNIL A B`: R[A], R[A+1], ..., R[A+B] := nil.
pub fn load_nil<V: LuaVM>(i: u32, vm: &mut V) -> (r: Result<(), LuaError>)
    requires
        old(vm).valid(),
    ensures
        final(vm).valid(),
        agrees(
            r,
            old(vm).state(),
            final(vm).state(),
            old(vm).state().with_regs(spec_arg_a(i) + 1, nils(spec_arg_b(i) + 1)),
        ),
{
    let (a, b) = (i.get_arg_a() + 1, i.get_arg_b());
    let mut values: Vec<LuaValue> = Vec::new();
    let mut j: isize = 0;
    while j <= b
        invariant
            0 <= j <= b + 1,
            b <= 255,
            vals(values@) == nils(j as int),
        decreases b + 1 - j,
    {
        let ghost before = vals(values@);
        values.push(LuaValue::Nil);
        j += 1;
        assert(vals(values@) =~= before.push(Val::Nil));
        assert(vals(values@) =~= nils(j as int));
    }
    vm.set_regs(a, values)
}

} // verus!
