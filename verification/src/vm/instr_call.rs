//! The instructions that call, return, and make functions.
use vstd::prelude::*;
use std::rc::Rc;
use crate::api::consts::LUAI_MAXSTACK;
use crate::api::lua_vm::LuaVM;
use crate::error::LuaError;
use crate::state::closure::Closure;
use crate::state::lua_stack::fit;
use crate::state::lua_state::{
    agrees, lemma_with_stack, proceeds, script_closure, StateView,
    Step, StepView,
};
use crate::state::lua_value::{vals, LuaValue, Val};
use crate::vm::instr_table::{rkc, spec_rkc};
use crate::vm::instruction::{spec_arg_a, spec_arg_b, spec_arg_bx, spec_arg_c, Instruction};

verus! {

/// The values that a call or a return takes, and the stack that it leaves.
///
/// Where `all` is not set these are `count` registers from `a` on, and the
/// stack stays as it is. Where it is set, an instruction before has left
/// all its results above the registers and, on top of them, the number of
/// the register where they begin, as an integer. The values are then the
/// registers from `a` up to that one, and the results; the stack that is
/// left holds the registers alone.
pub open spec fn gathered(s: StateView, a: int, count: int, all: bool) -> Result<
    (Seq<Val>, Seq<Val>),
    LuaError,
> {
    if !all {
        Ok((s.regs(a, a + count), s.stack()))
    } else {
        let n = s.stack().len() as int;
        let nregs = s.proto().max_stack_size as int;
        if n < 1 || n - 1 < nregs || n > LUAI_MAXSTACK {
            Err(LuaError::IndexError)
        } else {
            match s.stack()[n - 1] {
                Val::Integer(x) => if a <= x <= nregs + 1 {
                    Ok(
                        (
                            s.regs(a, x as int) + s.stack().subrange(nregs, n - 1),
                            s.stack().subrange(0, nregs),
                        ),
                    )
                } else {
                    Err(LuaError::IndexError)
                },
                _ => Err(LuaError::TypeError),
            }
        }
    }
}

/// `CALL A B C`: R[A], ..., R[A+C-2] := R[A](R[A+1], ..., R[A+B-1]). With
/// B zero the arguments reach up to the top; with C zero all results are
/// kept. A frame is made for the function; the results reach the caller
/// when the frame returns.
pub open spec fn spec_call(s: StateView, i: u32, nresults: int) -> Result<
    (StepView, StateView),
    LuaError,
> {
    let a = spec_arg_a(i) + 1;
    let b = spec_arg_b(i);
    match gathered(s, a, b, b == 0) {
        Ok((values, stack)) => if values.len() == 0 {
            Err(LuaError::TypeError)
        } else {
            match s.closure_of(values[0]) {
                Some(c) => Ok(
                    s.with_stack(stack).entered(
                        c,
                        values.subrange(1, values.len() as int),
                        nresults,
                        a,
                    ),
                ),
                None => Err(LuaError::TypeError),
            }
        },
        Err(e) => Err(e),
    }
}

/// `RETURN A B`: return R[A], ..., R[A+B-2]; with B zero, the values up to
/// the top. The values are put on top of the stack. They and what lay
/// above the registers are the results: they go to the frame below, and
/// the frame that runs is taken off. A frame that has none below it stays,
/// with the results on its stack.
pub open spec fn spec_return(s: StateView, a: int, b: int) -> Result<(StepView, StateView), LuaError> {
    match gathered(s, a, b - 1, b == 0) {
        Ok((values, stack)) => {
            let nregs = s.proto().max_stack_size as int;
            let sa = s.with_stack(stack + values);
            if s.frames.len() < 2 {
                Ok((StepView::Return, sa))
            } else if stack.len() < nregs {
                Err(LuaError::IndexError)
            } else {
                match sa.returned(stack.len() + values.len() - nregs) {
                    Ok(sz) => Ok((StepView::Return, sz)),
                    Err(e) => Err(e),
                }
            }
        },
        Err(e) => Err(e),
    }
}

/// `CLOSURE A Bx`: R[A] := a function that runs the nested prototype Bx.
pub open spec fn spec_closure(s: StateView, i: u32) -> Result<StateView, LuaError> {
    let a = spec_arg_a(i) + 1;
    let bx = spec_arg_bx(i);
    if bx >= s.proto().protos.len() {
        Err(LuaError::CorruptChunk)
    } else {
        s.add_closure(script_closure(s.proto().protos[bx])).with_reg(
            a,
            Val::Function(s.closures.len() as usize),
        )
    }
}

/// `VARARG A C`: R[A], R[A+1], ..., R[A+C-2] := the extra arguments; with
/// C zero, all of them are put on top of the stack, and on top of them the
/// number of the register A.
pub open spec fn spec_vararg(s: StateView, i: u32) -> Result<StateView, LuaError> {
    let a = spec_arg_a(i) + 1;
    let c = spec_arg_c(i);
    if c == 1 {
        Ok(s)
    } else if c > 1 {
        s.with_regs(a, fit(s.frame().varargs, c - 1))
    } else {
        Ok(s.with_varargs(-1).push(Val::Integer(a as i64)))
    }
}

/// `SELF A B C`: R[A+1] := R[B]; R[A] := R[B][RK(C)].
pub open spec fn spec_self(s: StateView, i: u32) -> Result<StateView, LuaError> {
    let t = s.get(spec_arg_b(i) + 1);
    match spec_rkc(s, i) {
        Some(k) => match s.table_get(t, k) {
            Some(v) => s.with_regs(spec_arg_a(i) + 1, seq![v, t]),
            None => Err(LuaError::TableError),
        },
        None => Err(LuaError::CorruptChunk),
    }
}

/// The values that a call or a return takes, and the height of the stack
/// that it leaves; see `gathered`.
fn gather<V: LuaVM>(vm: &V, a: isize, count: isize, all: bool) -> (r: Result<
    (Vec<LuaValue>, usize),
    LuaError,
>)
    requires
        vm.valid(),
        1 <= a <= 256,
        -1 <= count <= 256,
    ensures
        match gathered(vm.state(), a as int, count as int, all) {
            Ok((values, stack)) => r.is_ok() && vals(r.unwrap().0@) == values && r.unwrap().1
                <= vm.state().stack().len() && vm.state().stack().subrange(0, r.unwrap().1 as int) == stack,
            Err(e) => r.is_err() && r.unwrap_err() == e,
        },
{
    let n = vm.height();
    if !all {
        let values = vm.regs(a, a + count);
        assert(vm.state().stack().subrange(0, n as int) =~= vm.state().stack());
        return Ok((values, n));
    }
    let nregs = vm.register_count();
    if n < 1 || n - 1 < nregs || n > LUAI_MAXSTACK {
        return Err(LuaError::IndexError);
    }
    let x: i64 = match vm.get_val(-1) {
        LuaValue::Integer(x) => x,
        _ => {
            return Err(LuaError::TypeError);
        },
    };
    if x < a as i64 || x > nregs as i64 + 1 {
        return Err(LuaError::IndexError);
    }
    let mut values = vm.regs(a, x as isize);
    let ghost first = vals(values@);
    let mut rest = vm.regs(nregs as isize + 1, n as isize);
    assert(vals(rest@) =~= vm.state().stack().subrange(nregs as int, n - 1));
    values.append(&mut rest);
    assert(vals(values@) =~= first + vm.state().stack().subrange(nregs as int, n - 1));
    Ok((values, nregs))
}

/// Begins the call that the instruction asks for, of which `nresults`
/// results are expected.
fn call_with<V: LuaVM>(i: u32, vm: &mut V, nresults: isize) -> (r: Result<Step, LuaError>)
    requires
        old(vm).valid(),
    ensures
        final(vm).valid(),
        proceeds(
            r,
            old(vm).state(),
            final(vm).state(),
            spec_call(old(vm).state(), i, nresults as int),
        ),
{
    proof {
        vm.lemma_valid();
    }
    let (a, b) = (i.get_arg_a() + 1, i.get_arg_b());
    let (mut values, height) = match gather(vm, a, b, b == 0) {
        Ok(g) => g,
        Err(e) => {
            return Err(e);
        },
    };
    if values.len() == 0 {
        return Err(LuaError::TypeError);
    }
    let c: Rc<Closure> = match vm.closure_at(&values[0]) {
        Some(c) => c,
        None => {
            return Err(LuaError::TypeError);
        },
    };
    let ghost given = vals(values@);
    // the first of them is the function
    values.remove(0);
    assert(vals(values@) =~= given.subrange(1, given.len() as int));
    vm.cut_to(height);
    Ok(vm.enter(c, values, nresults, a))
}

/// `CALL A B C`: R[A], ..., R[A+C-2] := R[A](R[A+1], ..., R[A+B-1]).
pub fn call<V: LuaVM>(i: u32, vm: &mut V) -> (r: Result<Step, LuaError>)
    requires
        old(vm).valid(),
    ensures
        final(vm).valid(),
        proceeds(
            r,
            old(vm).state(),
            final(vm).state(),
            spec_call(old(vm).state(), i, spec_arg_c(i) - 1),
        ),
{
    let c = i.get_arg_c();
    call_with(i, vm, c - 1)
}

/// `TAILCALL A B C`: return R[A](R[A+1], ..., R[A+B-1]). It is executed as
/// a call that keeps all results; the return that follows it returns them.
pub fn tail_call<V: LuaVM>(i: u32, vm: &mut V) -> (r: Result<Step, LuaError>)
    requires
        old(vm).valid(),
    ensures
        final(vm).valid(),
        proceeds(r, old(vm).state(), final(vm).state(), spec_call(old(vm).state(), i, -1)),
{
    call_with(i, vm, -1)
}

/// Returns `b - 1` values from the register `a` on; with `b` zero, the
/// values up to the top.
fn return_values<V: LuaVM>(vm: &mut V, a: isize, b: isize) -> (r: Result<Step, LuaError>)
    requires
        old(vm).valid(),
        1 <= a <= 256,
        0 <= b <= 256,
    ensures
        final(vm).valid(),
        proceeds(
            r,
            old(vm).state(),
            final(vm).state(),
            spec_return(old(vm).state(), a as int, b as int),
        ),
{
    proof {
        vm.lemma_valid();
    }
    let (values, height) = match gather(vm, a, b - 1, b == 0) {
        Ok(g) => g,
        Err(e) => {
            return Err(e);
        },
    };
    let nregs = vm.register_count();
    let depth = vm.depth();
    let ghost given = vals(values@);
    let ghost stack = old(vm).state().stack().subrange(0, height as int);
    if depth >= 2 {
        if height < nregs {
            return Err(LuaError::IndexError);
        }
        // the registers of the caller that are to take the results must exist
        if !vm.results_fit() {
            proof {
                let sa = old(vm).state().with_stack(stack + given);
                assert(sa.returned(stack.len() + given.len() - nregs).is_err());
            }
            return Err(LuaError::IndexError);
        }
    }
    vm.cut_to(height);
    vm.push_all(values);
    proof {
        lemma_with_stack(old(vm).state(), stack, stack + given);
    }
    if depth >= 2 {
        let nret = vm.height() - nregs;
        let back = vm.return_from(nret);
        assert(back.is_ok());
    }
    Ok(Step::Return)
}

/// `RETURN A B`: return R[A], ..., R[A+B-2].
pub fn _return<V: LuaVM>(i: u32, vm: &mut V) -> (r: Result<Step, LuaError>)
    requires
        old(vm).valid(),
    ensures
        final(vm).valid(),
        proceeds(
            r,
            old(vm).state(),
            final(vm).state(),
            spec_return(old(vm).state(), spec_arg_a(i) + 1, spec_arg_b(i)),
        ),
{
    let (a, b) = (i.get_arg_a() + 1, i.get_arg_b());
    return_values(vm, a, b)
}

/// `RETURN0`: return.
pub fn return0<V: LuaVM>(_i: u32, vm: &mut V) -> (r: Result<Step, LuaError>)
    requires
        old(vm).valid(),
    ensures
        final(vm).valid(),
        proceeds(r, old(vm).state(), final(vm).state(), spec_return(old(vm).state(), 1, 1)),
{
    return_values(vm, 1, 1)
}

/// `RETURN1 A`: return R[A].
pub fn return1<V: LuaVM>(i: u32, vm: &mut V) -> (r: Result<Step, LuaError>)
    requires
        old(vm).valid(),
    ensures
        final(vm).valid(),
        proceeds(
            r,
            old(vm).state(),
            final(vm).state(),
            spec_return(old(vm).state(), spec_arg_a(i) + 1, 2),
        ),
{
    let a = i.get_arg_a() + 1;
    return_values(vm, a, 2)
}

/// `CLOSURE A Bx`: R[A] := closure(KPROTO[Bx]).
pub fn closure<V: LuaVM>(i: u32, vm: &mut V) -> (r: Result<(), LuaError>)
    requires
        old(vm).valid(),
    ensures
        final(vm).valid(),
        agrees(r, old(vm).state(), final(vm).state(), spec_closure(old(vm).state(), i)),
{
    proof {
        vm.lemma_valid();
    }
    let (a, bx) = (i.get_arg_a() + 1, i.get_arg_bx());
    if bx as usize >= vm.proto_count() {
        return Err(LuaError::CorruptChunk);
    }
    if !vm.is_valid(a) {
        return Err(LuaError::IndexError);
    }
    let proto = vm.proto_at(bx as usize);
    let c = vm.new_lua_closure(proto);
    vm.set_val(a, c)
}

/// `VARARG A C`: R[A], R[A+1], ..., R[A+C-2] := the extra arguments.
pub fn vararg<V: LuaVM>(i: u32, vm: &mut V) -> (r: Result<(), LuaError>)
    requires
        old(vm).valid(),
    ensures
        final(vm).valid(),
        agrees(r, old(vm).state(), final(vm).state(), spec_vararg(old(vm).state(), i)),
{
    proof {
        vm.lemma_valid();
    }
    let (a, c) = (i.get_arg_a() + 1, i.get_arg_c());
    if c == 1 {
        Ok(())
    } else if c > 1 {
        let values = vm.copy_varargs(c - 1);
        vm.set_regs(a, values)
    } else {
        // all of them, and above them the number of the register
        vm.load_vararg(-1);
        let mut mark: Vec<LuaValue> = Vec::new();
        mark.push(LuaValue::Integer(a as i64));
        assert(vals(mark@) =~= seq![Val::Integer(a as i64)]);
        vm.push_all(mark);
        proof {
            let sa = old(vm).state().with_varargs(-1);
            lemma_with_stack(
                old(vm).state(),
                sa.stack(),
                sa.stack() + seq![Val::Integer(a as i64)],
            );
            assert(sa.stack() + seq![Val::Integer(a as i64)] =~= sa.stack().push(
                Val::Integer(a as i64),
            ));
        }
        Ok(())
    }
}

/// `SELF A B C`: R[A+1] := R[B]; R[A] := R[B][RK(C)].
pub fn _self<V: LuaVM>(i: u32, vm: &mut V) -> (r: Result<(), LuaError>)
    requires
        old(vm).valid(),
    ensures
        final(vm).valid(),
        agrees(r, old(vm).state(), final(vm).state(), spec_self(old(vm).state(), i)),
{
    let (a, b) = (i.get_arg_a() + 1, i.get_arg_b() + 1);
    let t = vm.get_val(b);
    let k = match rkc(i, vm) {
        Some(k) => k,
        None => {
            return Err(LuaError::CorruptChunk);
        },
    };
    let v = match vm.table_get(&t, &k) {
        Some(v) => v,
        None => {
            return Err(LuaError::TableError);
        },
    };
    let mut values: Vec<LuaValue> = Vec::new();
    values.push(v);
    values.push(t);
    assert(vals(values@) =~= seq![v@, t@]);
    vm.set_regs(a, values)
}

} // verus!
