//! The numeric `for` loop.
//!
//! The loop keeps four registers from R[A] on: the index, the limit or, in
//! a loop over integers, the number of iterations that are left, the step,
//! and the variable that the body sees.
use vstd::prelude::*;
use crate::api::consts::LUA_OPADD;
use crate::api::lua_vm::LuaVM;
use crate::error::LuaError;
use crate::number::float::{
    float_le, float_lt, int_to_float, is_zero, spec_float_le, spec_float_lt, spec_int_to_float,
    spec_is_zero,
};
use crate::state::arith_ops::{
    view_answer, FloatAnswer, FloatAnswerView, FloatRequest, FloatRequestView, Operand,
    OperandView,
};
use crate::state::lua_state::{agrees, answers, StateView};
use crate::state::lua_value::{vals, LuaValue, Val};
use crate::vm::instruction::{spec_arg_a, spec_arg_bx, Instruction};

verus! {

/// The quotient of two integers, rounded towards zero; zero where there is none.
pub open spec fn trunc_div(a: i64, b: i64) -> i64 {
    match a.checked_div(b) {
        Some(q) => q,
        None => 0,
    }
}

/// The number of iterations of a loop over integers after the first: the
/// distance from the first index to the limit, in two's complement, by the
/// magnitude of the step.
pub open spec fn for_count(init: i64, limit: i64, step: i64) -> i64 {
    if step > 0 {
        if step != 1 {
            trunc_div(limit.wrapping_sub(init), step)
        } else {
            limit.wrapping_sub(init)
        }
    } else {
        trunc_div(init.wrapping_sub(limit), 0i64.wrapping_sub(step))
    }
}

/// A number as a double.
pub open spec fn number_of(v: Val) -> Option<u64> {
    match v {
        Val::Integer(i) => Some(spec_int_to_float(i)),
        Val::Number(n) => Some(n),
        _ => None,
    }
}

/// Does a loop over doubles with these values never enter its body?
pub open spec fn float_loop_is_empty(init: u64, limit: u64, step: u64) -> bool {
    (spec_float_lt(0, step) && spec_float_lt(limit, init)) || (spec_float_lt(step, 0)
        && spec_float_lt(init, limit))
}

/// Does a loop over doubles go on with the index `idx`?
pub open spec fn float_loop_goes_on(idx: u64, limit: u64, step: u64) -> bool {
    if spec_float_lt(0, step) {
        spec_float_le(idx, limit)
    } else {
        spec_float_le(limit, idx)
    }
}

/// `FORPREP A Bx`: prepare the loop. Where the first index and the limit
/// are integers the step must be an integer too, and not zero: the number
/// of iterations after the first takes the place of the limit, and the
/// variable gets the first index. Else all three must be numbers, and the
/// step not zero: they are made doubles, and the variable gets the first
/// index; but where the body is never to be entered, the loop is passed
/// over: pc += Bx + 1.
pub open spec fn spec_for_prep(s: StateView, i: u32) -> Result<StateView, LuaError> {
    let a = spec_arg_a(i) + 1;
    let init = s.get(a);
    let limit = s.get(a + 1);
    let step = s.get(a + 2);
    match (init, limit) {
        (Val::Integer(i0), Val::Integer(l)) => match step {
            Val::Integer(st) => if st == 0 {
                Err(LuaError::ArithError)
            } else {
                s.with_regs(a, seq![init, Val::Integer(for_count(i0, l, st)), step, init])
            },
            _ => Err(LuaError::TypeError),
        },
        _ => match (number_of(init), number_of(limit), number_of(step)) {
            (Some(fi), Some(fl), Some(fs)) => if spec_is_zero(fs) {
                Err(LuaError::ArithError)
            } else if float_loop_is_empty(fi, fl, fs) {
                s.jumped(spec_arg_bx(i) + 1)
            } else {
                s.with_regs(
                    a,
                    seq![Val::Number(fi), Val::Number(fl), Val::Number(fs), Val::Number(fi)],
                )
            },
            _ => Err(LuaError::TypeError),
        },
    }
}

/// The state with new values in the four registers of a loop, and the
/// program counter moved back by `bx`.
pub open spec fn loop_back(s: StateView, a: int, regs: Seq<Val>, bx: int) -> Result<
    (Option<FloatRequestView>, StateView),
    LuaError,
> {
    match s.with_regs(a, regs) {
        Ok(sa) => match sa.jumped(-bx) {
            Ok(sz) => Ok((None, sz)),
            Err(e) => Err(e),
        },
        Err(e) => Err(e),
    }
}

/// `FORLOOP A Bx`: update the loop; if it goes on then pc -= Bx. A loop
/// over integers goes on while iterations are left: one is taken off, the
/// step is added to the index in two's complement, and the variable gets
/// the index. A loop over doubles asks for the sum of the index and the
/// step; it goes on while the sum has not passed the limit, and then the
/// index and the variable get the sum.
pub open spec fn spec_for_loop(s: StateView, i: u32, ans: Option<FloatAnswerView>) -> Result<
    (Option<FloatRequestView>, StateView),
    LuaError,
> {
    let a = spec_arg_a(i) + 1;
    let bx = spec_arg_bx(i);
    match s.get(a) {
        Val::Integer(idx) => match s.get(a + 1) {
            Val::Integer(count) => if count > 0 {
                match s.get(a + 2) {
                    Val::Integer(st) => loop_back(
                        s,
                        a,
                        seq![
                            Val::Integer(idx.wrapping_add(st)),
                            Val::Integer((count - 1) as i64),
                            Val::Integer(st),
                            Val::Integer(idx.wrapping_add(st)),
                        ],
                        bx,
                    ),
                    _ => Err(LuaError::TypeError),
                }
            } else {
                Ok((None, s))
            },
            _ => Err(LuaError::TypeError),
        },
        Val::Number(idx) => match (s.get(a + 1), s.get(a + 2)) {
            (Val::Number(limit), Val::Number(st)) => match ans {
                None => Ok(
                    (
                        Some(
                            FloatRequestView::Arith {
                                op: LUA_OPADD,
                                x: OperandView::Float(idx),
                                y: OperandView::Float(st),
                            },
                        ),
                        s,
                    ),
                ),
                Some(ans) => if float_loop_goes_on(ans.value, limit, st) {
                    loop_back(
                        s,
                        a,
                        seq![
                            Val::Number(ans.value),
                            Val::Number(limit),
                            Val::Number(st),
                            Val::Number(ans.value),
                        ],
                        bx,
                    )
                } else {
                    Ok((None, s))
                },
            },
            _ => Err(LuaError::TypeError),
        },
        _ => Err(LuaError::TypeError),
    }
}

/// The quotient of two integers, rounded towards zero; zero where there is none.
fn div_or_zero(a: i64, b: i64) -> (r: i64)
    ensures
        r == trunc_div(a, b),
{
    match a.checked_div(b) {
        Some(q) => q,
        None => 0,
    }
}

/// A number as a double.
fn to_float(v: &LuaValue) -> (r: Option<u64>)
    ensures
        r == number_of(v@),
{
    match v {
        LuaValue::Integer(i) => Some(int_to_float(*i)),
        LuaValue::Number(n) => Some(*n),
        _ => None,
    }
}

/// Four values for the registers of a loop.
fn four(a: LuaValue, b: LuaValue, c: LuaValue, d: LuaValue) -> (r: Vec<LuaValue>)
    ensures
        vals(r@) == seq![a@, b@, c@, d@],
{
    let mut v: Vec<LuaValue> = Vec::new();
    v.push(a);
    v.push(b);
    v.push(c);
    v.push(d);
    assert(vals(v@) =~= seq![a@, b@, c@, d@]);
    v
}

/// Puts new values in the four registers of a loop and moves the program
/// counter back by `bx`.
fn go_back<V: LuaVM>(vm: &mut V, a: isize, regs: Vec<LuaValue>, bx: isize) -> (r: Result<
    Option<FloatRequest>,
    LuaError,
>)
    requires
        old(vm).valid(),
        0 <= bx <= 131071,
    ensures
        final(vm).valid(),
        answers(
            r,
            old(vm).state(),
            final(vm).state(),
            loop_back(old(vm).state(), a as int, vals(regs@), bx as int),
        ),
{
    proof {
        vm.lemma_valid();
    }
    let pc = vm.pc();
    if pc < isize::MIN + bx {
        // the jump would leave the range of the counter
        let height = vm.height();
        if a < 1 || regs.len() > height || (a - 1) as usize > height - regs.len() {
            return Err(LuaError::IndexError);
        }
        return Err(LuaError::IndexError);
    }
    match vm.set_regs(a, regs) {
        Ok(_) => {
            let moved = vm.add_pc(-bx);
            assert(moved.is_ok());
            Ok(None)
        },
        Err(e) => Err(e),
    }
}

/// `FORPREP A Bx`: prepare the loop; if it is not to run then pc += Bx + 1.
pub fn for_prep<V: LuaVM>(i: u32, vm: &mut V) -> (r: Result<(), LuaError>)
    requires
        old(vm).valid(),
    ensures
        final(vm).valid(),
        agrees(r, old(vm).state(), final(vm).state(), spec_for_prep(old(vm).state(), i)),
{
    let (a, bx) = (i.get_arg_a() + 1, i.get_arg_bx());
    let init = vm.get_val(a);
    let limit = vm.get_val(a + 1);
    let step = vm.get_val(a + 2);
    match (&init, &limit) {
        (LuaValue::Integer(i0), LuaValue::Integer(l)) => {
            let st = match &step {
                LuaValue::Integer(st) => *st,
                _ => {
                    return Err(LuaError::TypeError);
                },
            };
            if st == 0 {
                return Err(LuaError::ArithError);
            }
            let count = if st > 0 {
                if st != 1 {
                    div_or_zero(l.wrapping_sub(*i0), st)
                } else {
                    l.wrapping_sub(*i0)
                }
            } else {
                div_or_zero(i0.wrapping_sub(*l), 0i64.wrapping_sub(st))
            };
            let regs = four(
                LuaValue::Integer(*i0),
                LuaValue::Integer(count),
                LuaValue::Integer(st),
                LuaValue::Integer(*i0),
            );
            vm.set_regs(a, regs)
        },
        _ => {
            match (to_float(&init), to_float(&limit), to_float(&step)) {
                (Some(fi), Some(fl), Some(fs)) => {
                    if is_zero(fs) {
                        Err(LuaError::ArithError)
                    } else if (float_lt(0, fs) && float_lt(fl, fi)) || (float_lt(fs, 0) && float_lt(
                        fi,
                        fl,
                    )) {
                        vm.add_pc(bx + 1)
                    } else {
                        let regs = four(
                            LuaValue::Number(fi),
                            LuaValue::Number(fl),
                            LuaValue::Number(fs),
                            LuaValue::Number(fi),
                        );
                        vm.set_regs(a, regs)
                    }
                },
                _ => Err(LuaError::TypeError),
            }
        },
    }
}

/// `FORLOOP A Bx`: update the loop; if it goes on then pc -= Bx.
pub fn for_loop<V: LuaVM>(i: u32, vm: &mut V, answer: Option<&FloatAnswer>) -> (r: Result<
    Option<FloatRequest>,
    LuaError,
>)
    requires
        old(vm).valid(),
    ensures
        final(vm).valid(),
        answers(
            r,
            old(vm).state(),
            final(vm).state(),
            spec_for_loop(old(vm).state(), i, view_answer(answer)),
        ),
{
    let (a, bx) = (i.get_arg_a() + 1, i.get_arg_bx());
    match vm.get_val(a) {
        LuaValue::Integer(idx) => {
            let count = match vm.get_val(a + 1) {
                LuaValue::Integer(count) => count,
                _ => {
                    return Err(LuaError::TypeError);
                },
            };
            if count <= 0 {
                return Ok(None);
            }
            let st = match vm.get_val(a + 2) {
                LuaValue::Integer(st) => st,
                _ => {
                    return Err(LuaError::TypeError);
                },
            };
            let next = idx.wrapping_add(st);
            let regs = four(
                LuaValue::Integer(next),
                LuaValue::Integer(count - 1),
                LuaValue::Integer(st),
                LuaValue::Integer(next),
            );
            go_back(vm, a, regs, bx)
        },
        LuaValue::Number(idx) => {
            let (limit, st) = match (vm.get_val(a + 1), vm.get_val(a + 2)) {
                (LuaValue::Number(limit), LuaValue::Number(st)) => (limit, st),
                _ => {
                    return Err(LuaError::TypeError);
                },
            };
            match answer {
                None => Ok(
                    Some(
                        FloatRequest::Arith {
                            op: LUA_OPADD,
                            x: Operand::Float(idx),
                            y: Operand::Float(st),
                        },
                    ),
                ),
                Some(ans) => {
                    let next = ans.value;
                    let goes_on = if float_lt(0, st) {
                        float_le(next, limit)
                    } else {
                        float_le(limit, next)
                    };
                    if goes_on {
                        let regs = four(
                            LuaValue::Number(next),
                            LuaValue::Number(limit),
                            LuaValue::Number(st),
                            LuaValue::Number(next),
                        );
                        go_back(vm, a, regs, bx)
                    } else {
                        Ok(None)
                    }
                },
            }
        },
        _ => Err(LuaError::TypeError),
    }
}

} // verus!
