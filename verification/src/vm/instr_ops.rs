//! The instructions that compute and compare.
use vstd::prelude::*;
use crate::api::consts::{
    LUA_OPADD, LUA_OPBAND, LUA_OPBNOT, LUA_OPBOR, LUA_OPBXOR, LUA_OPDIV, LUA_OPEQ, LUA_OPGE,
    LUA_OPGT, LUA_OPIDIV, LUA_OPLE, LUA_OPLT, LUA_OPMOD, LUA_OPMUL, LUA_OPPOW, LUA_OPSHL,
    LUA_OPSHR, LUA_OPSUB, LUA_OPUNM,
};
use crate::api::lua_vm::LuaVM;
use crate::error::LuaError;
use crate::state::arith_ops::{
    concat_values, spec_arith, spec_concat, view_answer, with_answer, FloatAnswer,
    FloatAnswerView, FloatRequest, FloatRequestView, Outcome, OutcomeView,
};
use crate::state::compare_ops::spec_compare;
use crate::state::lua_state::{agrees, answers, view_value, StateView};
use crate::state::lua_value::{spec_to_boolean, LuaValue, Val};
use crate::vm::instruction::{
    spec_arg_a, spec_arg_b, spec_arg_c, spec_arg_k, spec_arg_sb, spec_arg_sc, Instruction,
};

verus! {

/// The state after the operator `op` was applied to `x` and `y` and the
/// result was put in the register `a`; or the request to compute it. An
/// operand is missing where the chunk does not hold the constant that was
/// to be it.
pub open spec fn arith_step(
    s: StateView,
    a: int,
    x: Option<Val>,
    y: Option<Val>,
    op: u8,
    ans: Option<FloatAnswerView>,
) -> Result<(Option<FloatRequestView>, StateView), LuaError> {
    match (x, y) {
        (Some(x), Some(y)) => match spec_arith(x, y, op, ans) {
            OutcomeView::Value(v) => match s.with_reg(a, v) {
                Ok(sa) => Ok((None, sa)),
                Err(e) => Err(e),
            },
            OutcomeView::Request(r) => Ok((Some(r), s)),
            OutcomeView::Fail => Err(LuaError::ArithError),
        },
        _ => Err(LuaError::CorruptChunk),
    }
}

/// R[A] := R[B] op R[C].
pub open spec fn spec_arith_rr(s: StateView, i: u32, op: u8, ans: Option<FloatAnswerView>) -> Result<
    (Option<FloatRequestView>, StateView),
    LuaError,
> {
    arith_step(
        s,
        spec_arg_a(i) + 1,
        Some(s.get(spec_arg_b(i) + 1)),
        Some(s.get(spec_arg_c(i) + 1)),
        op,
        ans,
    )
}

/// R[A] := R[B] op sC.
pub open spec fn spec_arith_i(s: StateView, i: u32, op: u8, ans: Option<FloatAnswerView>) -> Result<
    (Option<FloatRequestView>, StateView),
    LuaError,
> {
    arith_step(
        s,
        spec_arg_a(i) + 1,
        Some(s.get(spec_arg_b(i) + 1)),
        Some(Val::Integer(spec_arg_sc(i) as i64)),
        op,
        ans,
    )
}

/// R[A] := R[B] op K[C].
pub open spec fn spec_arith_k(s: StateView, i: u32, op: u8, ans: Option<FloatAnswerView>) -> Result<
    (Option<FloatRequestView>, StateView),
    LuaError,
> {
    arith_step(s, spec_arg_a(i) + 1, Some(s.get(spec_arg_b(i) + 1)), s.konst(spec_arg_c(i)), op, ans)
}

/// R[A] := op R[B].
pub open spec fn spec_unary_arith(s: StateView, i: u32, op: u8, ans: Option<FloatAnswerView>) -> Result<
    (Option<FloatRequestView>, StateView),
    LuaError,
> {
    arith_step(
        s,
        spec_arg_a(i) + 1,
        Some(s.get(spec_arg_b(i) + 1)),
        Some(s.get(spec_arg_b(i) + 1)),
        op,
        ans,
    )
}

/// The state after `x` was compared with `y`: the next instruction is
/// passed over where the result differs from the flag `k`.
pub open spec fn compare_step(s: StateView, x: Option<Val>, y: Option<Val>, op: u8, k: int) -> Result<
    StateView,
    LuaError,
> {
    match (x, y) {
        (Some(x), Some(y)) => match spec_compare(x, y, op) {
            Some(r) => if r != (k != 0) {
                s.jumped(1)
            } else {
                Ok(s)
            },
            None => Err(LuaError::CompareError),
        },
        _ => Err(LuaError::CorruptChunk),
    }
}

/// if ((R[A] op R[B]) ~= k) then pc++.
pub open spec fn spec_compare_rr(s: StateView, i: u32, op: u8) -> Result<StateView, LuaError> {
    compare_step(
        s,
        Some(s.get(spec_arg_a(i) + 1)),
        Some(s.get(spec_arg_b(i) + 1)),
        op,
        spec_arg_k(i),
    )
}

/// if ((R[A] op sB) ~= k) then pc++.
pub open spec fn spec_compare_i(s: StateView, i: u32, op: u8) -> Result<StateView, LuaError> {
    compare_step(
        s,
        Some(s.get(spec_arg_a(i) + 1)),
        Some(Val::Integer(spec_arg_sb(i) as i64)),
        op,
        spec_arg_k(i),
    )
}

/// if ((R[A] op K[B]) ~= k) then pc++.
pub open spec fn spec_compare_k(s: StateView, i: u32, op: u8) -> Result<StateView, LuaError> {
    compare_step(s, Some(s.get(spec_arg_a(i) + 1)), s.konst(spec_arg_b(i)), op, spec_arg_k(i))
}

/// The state after a test of the truth of `v` against the flag `k`: the
/// next instruction is passed over where they differ.
pub open spec fn truth_step(s: StateView, v: Val, k: int) -> Result<StateView, LuaError> {
    if spec_to_boolean(v) != (k != 0) {
        s.jumped(1)
    } else {
        Ok(s)
    }
}

/// `TESTSET A B k`: if (truth of R[B] ~= k) then pc++ else R[A] := R[B].
pub open spec fn spec_test_set(s: StateView, i: u32) -> Result<StateView, LuaError> {
    let v = s.get(spec_arg_b(i) + 1);
    if spec_to_boolean(v) != (spec_arg_k(i) != 0) {
        s.jumped(1)
    } else {
        s.with_reg(spec_arg_a(i) + 1, v)
    }
}

/// `LEN A B`: R[A] := the length of R[B].
pub open spec fn spec_len(s: StateView, i: u32) -> Result<StateView, LuaError> {
    match s.length_of(s.get(spec_arg_b(i) + 1)) {
        Some(n) => s.with_reg(spec_arg_a(i) + 1, Val::Integer(n)),
        None => Err(LuaError::TypeError),
    }
}

/// `CONCAT A B`: R[A] := R[A] .. ... .. R[A + B - 1]. The registers must
/// exist. Where a double is among the values, the request to write it is
/// made; the text of an answer takes the place of the double in its register.
pub open spec fn spec_concat_regs(s: StateView, i: u32, ans: Option<FloatAnswerView>) -> Result<
    (Option<FloatRequestView>, StateView),
    LuaError,
> {
    let a = spec_arg_a(i) + 1;
    let b = spec_arg_b(i);
    if a - 1 + b > s.stack().len() {
        Err(LuaError::IndexError)
    } else {
        let ops = s.regs(a, a + b);
        match spec_concat(ops, ans) {
            OutcomeView::Value(v) => match s.with_reg(a, v) {
                Ok(sa) => Ok((None, sa)),
                Err(e) => Err(e),
            },
            OutcomeView::Request(r) => match s.with_regs(a, with_answer(ops, ans)) {
                Ok(sa) => Ok((Some(r), sa)),
                Err(e) => Err(e),
            },
            OutcomeView::Fail => Err(LuaError::TypeError),
        }
    }
}

/// Applies `op` to `x` and `y` and puts the result in the register `a`.
fn arith_values<V: LuaVM>(
    vm: &mut V,
    a: isize,
    x: Option<LuaValue>,
    y: Option<LuaValue>,
    op: u8,
    answer: Option<&FloatAnswer>,
) -> (r: Result<Option<FloatRequest>, LuaError>)
    requires
        old(vm).valid(),
    ensures
        final(vm).valid(),
        answers(
            r,
            old(vm).state(),
            final(vm).state(),
            arith_step(
                old(vm).state(),
                a as int,
                view_value(x),
                view_value(y),
                op,
                view_answer(answer),
            ),
        ),
{
    match (x, y) {
        (Some(x), Some(y)) => match crate::state::arith_ops::arith(&x, &y, op, answer) {
            Outcome::Value(v) => match vm.set_val(a, v) {
                Ok(_) => Ok(None),
                Err(e) => Err(e),
            },
            Outcome::Request(req) => Ok(Some(req)),
            Outcome::Fail => Err(LuaError::ArithError),
        },
        _ => Err(LuaError::CorruptChunk),
    }
}

/// R[A] := R[B] op R[C].
pub fn arith<V: LuaVM>(i: u32, vm: &mut V, op: u8, answer: Option<&FloatAnswer>) -> (r: Result<
    Option<FloatRequest>,
    LuaError,
>)
    requires
        old(vm).valid(),
    ensures
        final(vm).valid(),
        answers(
            r,
            old(vm).state(),
            final(vm).state(),
            spec_arith_rr(old(vm).state(), i, op, view_answer(answer)),
        ),
{
    let (a, b, c) = (i.get_arg_a() + 1, i.get_arg_b(), i.get_arg_c());
    let x = vm.get_val(b + 1);
    let y = vm.get_val(c + 1);
    arith_values(vm, a, Some(x), Some(y), op, answer)
}

/// R[A] := R[B] op sC.
pub fn arith_i<V: LuaVM>(i: u32, vm: &mut V, op: u8, answer: Option<&FloatAnswer>) -> (r: Result<
    Option<FloatRequest>,
    LuaError,
>)
    requires
        old(vm).valid(),
    ensures
        final(vm).valid(),
        answers(
            r,
            old(vm).state(),
            final(vm).state(),
            spec_arith_i(old(vm).state(), i, op, view_answer(answer)),
        ),
{
    let (a, b, sc) = (i.get_arg_a() + 1, i.get_arg_b(), i.get_arg_sc());
    let x = vm.get_val(b + 1);
    arith_values(vm, a, Some(x), Some(LuaValue::Integer(sc as i64)), op, answer)
}

/// R[A] := R[B] op K[C].
pub fn arith_k<V: LuaVM>(i: u32, vm: &mut V, op: u8, answer: Option<&FloatAnswer>) -> (r: Result<
    Option<FloatRequest>,
    LuaError,
>)
    requires
        old(vm).valid(),
    ensures
        final(vm).valid(),
        answers(
            r,
            old(vm).state(),
            final(vm).state(),
            spec_arith_k(old(vm).state(), i, op, view_answer(answer)),
        ),
{
    let (a, b, c) = (i.get_arg_a() + 1, i.get_arg_b(), i.get_arg_c());
    let x = vm.get_val(b + 1);
    let y = vm.konst(c);
    arith_values(vm, a, Some(x), y, op, answer)
}

/// R[A] := op R[B].
pub fn unary_arith<V: LuaVM>(i: u32, vm: &mut V, op: u8, answer: Option<&FloatAnswer>) -> (r: Result<
    Option<FloatRequest>,
    LuaError,
>)
    requires
        old(vm).valid(),
    ensures
        final(vm).valid(),
        answers(
            r,
            old(vm).state(),
            final(vm).state(),
            spec_unary_arith(old(vm).state(), i, op, view_answer(answer)),
        ),
{
    let (a, b) = (i.get_arg_a() + 1, i.get_arg_b() + 1);
    let x = vm.get_val(b);
    let y = vm.get_val(b);
    arith_values(vm, a, Some(x), Some(y), op, answer)
}

/// Compares `x` with `y` and passes over the next instruction where the
/// result differs from the flag `k`.
fn compare_values<V: LuaVM>(vm: &mut V, x: Option<LuaValue>, y: Option<LuaValue>, op: u8, k: isize) -> (r:
    Result<(), LuaError>)
    requires
        old(vm).valid(),
    ensures
        final(vm).valid(),
        agrees(
            r,
            old(vm).state(),
            final(vm).state(),
            compare_step(old(vm).state(), view_value(x), view_value(y), op, k as int),
        ),
{
    match (x, y) {
        (Some(x), Some(y)) => match crate::state::compare_ops::compare(&x, &y, op) {
            Some(r) => if r != (k != 0) {
                vm.add_pc(1)
            } else {
                Ok(())
            },
            None => Err(LuaError::CompareError),
        },
        _ => Err(LuaError::CorruptChunk),
    }
}

/// if ((R[A] op R[B]) ~= k) then pc++.
pub fn compare<V: LuaVM>(i: u32, vm: &mut V, op: u8) -> (r: Result<(), LuaError>)
    requires
        old(vm).valid(),
    ensures
        final(vm).valid(),
        agrees(r, old(vm).state(), final(vm).state(), spec_compare_rr(old(vm).state(), i, op)),
{
    let (a, b, k) = (i.get_arg_a() + 1, i.get_arg_b() + 1, i.get_arg_k());
    let x = vm.get_val(a);
    let y = vm.get_val(b);
    compare_values(vm, Some(x), Some(y), op, k)
}

/// if ((R[A] op sB) ~= k) then pc++.
pub fn compare_i<V: LuaVM>(i: u32, vm: &mut V, op: u8) -> (r: Result<(), LuaError>)
    requires
        old(vm).valid(),
    ensures
        final(vm).valid(),
        agrees(r, old(vm).state(), final(vm).state(), spec_compare_i(old(vm).state(), i, op)),
{
    let (a, sb, k) = (i.get_arg_a() + 1, i.get_arg_sb(), i.get_arg_k());
    let x = vm.get_val(a);
    compare_values(vm, Some(x), Some(LuaValue::Integer(sb as i64)), op, k)
}

/// if ((R[A] op K[B]) ~= k) then pc++.
pub fn compare_k<V: LuaVM>(i: u32, vm: &mut V, op: u8) -> (r: Result<(), LuaError>)
    requires
        old(vm).valid(),
    ensures
        final(vm).valid(),
        agrees(r, old(vm).state(), final(vm).state(), spec_compare_k(old(vm).state(), i, op)),
{
    let (a, b, k) = (i.get_arg_a() + 1, i.get_arg_b(), i.get_arg_k());
    let x = vm.get_val(a);
    let y = vm.konst(b);
    compare_values(vm, Some(x), y, op, k)
}

/// `ADDI A B sC`: R[A] := R[B] + sC.
pub fn add_i<V: LuaVM>(i: u32, vm: &mut V, answer: Option<&FloatAnswer>) -> (r: Result<
    Option<FloatRequest>,
    LuaError,
>)
    requires
        old(vm).valid(),
    ensures
        final(vm).valid(),
        answers(
            r,
            old(vm).state(),
            final(vm).state(),
            spec_arith_i(old(vm).state(), i, LUA_OPADD, view_answer(answer)),
        ),
{
    arith_i(i, vm, LUA_OPADD, answer)
}

/// `ADDK A B C`: R[A] := R[B] + K[C].
pub fn add_k<V: LuaVM>(i: u32, vm: &mut V, answer: Option<&FloatAnswer>) -> (r: Result<
    Option<FloatRequest>,
    LuaError,
>)
    requires
        old(vm).valid(),
    ensures
        final(vm).valid(),
        answers(
            r,
            old(vm).state(),
            final(vm).state(),
            spec_arith_k(old(vm).state(), i, LUA_OPADD, view_answer(answer)),
        ),
{
    arith_k(i, vm, LUA_OPADD, answer)
}

/// `SUBK A B C`: R[A] := R[B] - K[C].
pub fn sub_k<V: LuaVM>(i: u32, vm: &mut V, answer: Option<&FloatAnswer>) -> (r: Result<
    Option<FloatRequest>,
    LuaError,
>)
    requires
        old(vm).valid(),
    ensures
        final(vm).valid(),
        answers(
            r,
            old(vm).state(),
            final(vm).state(),
            spec_arith_k(old(vm).state(), i, LUA_OPSUB, view_answer(answer)),
        ),
{
    arith_k(i, vm, LUA_OPSUB, answer)
}

/// `MULK A B C`: R[A] := R[B] * K[C].
pub fn mul_k<V: LuaVM>(i: u32, vm: &mut V, answer: Option<&FloatAnswer>) -> (r: Result<
    Option<FloatRequest>,
    LuaError,
>)
    requires
        old(vm).valid(),
    ensures
        final(vm).valid(),
        answers(
            r,
            old(vm).state(),
            final(vm).state(),
            spec_arith_k(old(vm).state(), i, LUA_OPMUL, view_answer(answer)),
        ),
{
    arith_k(i, vm, LUA_OPMUL, answer)
}

/// `MODK A B C`: R[A] := R[B] % K[C].
pub fn _mod_k<V: LuaVM>(i: u32, vm: &mut V, answer: Option<&FloatAnswer>) -> (r: Result<
    Option<FloatRequest>,
    LuaError,
>)
    requires
        old(vm).valid(),
    ensures
        final(vm).valid(),
        answers(
            r,
            old(vm).state(),
            final(vm).state(),
            spec_arith_k(old(vm).state(), i, LUA_OPMOD, view_answer(answer)),
        ),
{
    arith_k(i, vm, LUA_OPMOD, answer)
}

/// `POWK A B C`: R[A] := R[B] ^ K[C].
pub fn pow_k<V: LuaVM>(i: u32, vm: &mut V, answer: Option<&FloatAnswer>) -> (r: Result<
    Option<FloatRequest>,
    LuaError,
>)
    requires
        old(vm).valid(),
    ensures
        final(vm).valid(),
        answers(
            r,
            old(vm).state(),
            final(vm).state(),
            spec_arith_k(old(vm).state(), i, LUA_OPPOW, view_answer(answer)),
        ),
{
    arith_k(i, vm, LUA_OPPOW, answer)
}

/// `DIVK A B C`: R[A] := R[B] / K[C].
pub fn div_k<V: LuaVM>(i: u32, vm: &mut V, answer: Option<&FloatAnswer>) -> (r: Result<
    Option<FloatRequest>,
    LuaError,
>)
    requires
        old(vm).valid(),
    ensures
        final(vm).valid(),
        answers(
            r,
            old(vm).state(),
            final(vm).state(),
            spec_arith_k(old(vm).state(), i, LUA_OPDIV, view_answer(answer)),
        ),
{
    arith_k(i, vm, LUA_OPDIV, answer)
}

/// `IDIVK A B C`: R[A] := R[B] // K[C].
pub fn idiv_k<V: LuaVM>(i: u32, vm: &mut V, answer: Option<&FloatAnswer>) -> (r: Result<
    Option<FloatRequest>,
    LuaError,
>)
    requires
        old(vm).valid(),
    ensures
        final(vm).valid(),
        answers(
            r,
            old(vm).state(),
            final(vm).state(),
            spec_arith_k(old(vm).state(), i, LUA_OPIDIV, view_answer(answer)),
        ),
{
    arith_k(i, vm, LUA_OPIDIV, answer)
}

/// `BANDK A B C`: R[A] := R[B] & K[C].
pub fn band_k<V: LuaVM>(i: u32, vm: &mut V, answer: Option<&FloatAnswer>) -> (r: Result<
    Option<FloatRequest>,
    LuaError,
>)
    requires
        old(vm).valid(),
    ensures
        final(vm).valid(),
        answers(
            r,
            old(vm).state(),
            final(vm).state(),
            spec_arith_k(old(vm).state(), i, LUA_OPBAND, view_answer(answer)),
        ),
{
    arith_k(i, vm, LUA_OPBAND, answer)
}

/// `BORK A B C`: R[A] := R[B] | K[C].
pub fn bor_k<V: LuaVM>(i: u32, vm: &mut V, answer: Option<&FloatAnswer>) -> (r: Result<
    Option<FloatRequest>,
    LuaError,
>)
    requires
        old(vm).valid(),
    ensures
        final(vm).valid(),
        answers(
            r,
            old(vm).state(),
            final(vm).state(),
            spec_arith_k(old(vm).state(), i, LUA_OPBOR, view_answer(answer)),
        ),
{
    arith_k(i, vm, LUA_OPBOR, answer)
}

/// `BXORK A B C`: R[A] := R[B] ~ K[C].
pub fn bxor_k<V: LuaVM>(i: u32, vm: &mut V, answer: Option<&FloatAnswer>) -> (r: Result<
    Option<FloatRequest>,
    LuaError,
>)
    requires
        old(vm).valid(),
    ensures
        final(vm).valid(),
        answers(
            r,
            old(vm).state(),
            final(vm).state(),
            spec_arith_k(old(vm).state(), i, LUA_OPBXOR, view_answer(answer)),
        ),
{
    arith_k(i, vm, LUA_OPBXOR, answer)
}

/// `SHLI A B sC`: R[A] := R[B] << sC.
pub fn shl_i<V: LuaVM>(i: u32, vm: &mut V, answer: Option<&FloatAnswer>) -> (r: Result<
    Option<FloatRequest>,
    LuaError,
>)
    requires
        old(vm).valid(),
    ensures
        final(vm).valid(),
        answers(
            r,
            old(vm).state(),
            final(vm).state(),
            spec_arith_i(old(vm).state(), i, LUA_OPSHL, view_answer(answer)),
        ),
{
    arith_i(i, vm, LUA_OPSHL, answer)
}

/// `SHRI A B sC`: R[A] := R[B] >> sC.
pub fn shr_i<V: LuaVM>(i: u32, vm: &mut V, answer: Option<&FloatAnswer>) -> (r: Result<
    Option<FloatRequest>,
    LuaError,
>)
    requires
        old(vm).valid(),
    ensures
        final(vm).valid(),
        answers(
            r,
            old(vm).state(),
            final(vm).state(),
            spec_arith_i(old(vm).state(), i, LUA_OPSHR, view_answer(answer)),
        ),
{
    arith_i(i, vm, LUA_OPSHR, answer)
}

/// `ADD A B C`: R[A] := R[B] + R[C].
pub fn add<V: LuaVM>(i: u32, vm: &mut V, answer: Option<&FloatAnswer>) -> (r: Result<
    Option<FloatRequest>,
    LuaError,
>)
    requires
        old(vm).valid(),
    ensures
        final(vm).valid(),
        answers(
            r,
            old(vm).state(),
            final(vm).state(),
            spec_arith_rr(old(vm).state(), i, LUA_OPADD, view_answer(answer)),
        ),
{
    arith(i, vm, LUA_OPADD, answer)
}

/// `SUB A B C`: R[A] := R[B] - R[C].
pub fn sub<V: LuaVM>(i: u32, vm: &mut V, answer: Option<&FloatAnswer>) -> (r: Result<
    Option<FloatRequest>,
    LuaError,
>)
    requires
        old(vm).valid(),
    ensures
        final(vm).valid(),
        answers(
            r,
            old(vm).state(),
            final(vm).state(),
            spec_arith_rr(old(vm).state(), i, LUA_OPSUB, view_answer(answer)),
        ),
{
    arith(i, vm, LUA_OPSUB, answer)
}

/// `MUL A B C`: R[A] := R[B] * R[C].
pub fn mul<V: LuaVM>(i: u32, vm: &mut V, answer: Option<&FloatAnswer>) -> (r: Result<
    Option<FloatRequest>,
    LuaError,
>)
    requires
        old(vm).valid(),
    ensures
        final(vm).valid(),
        answers(
            r,
            old(vm).state(),
            final(vm).state(),
            spec_arith_rr(old(vm).state(), i, LUA_OPMUL, view_answer(answer)),
        ),
{
    arith(i, vm, LUA_OPMUL, answer)
}

/// `MOD A B C`: R[A] := R[B] % R[C].
pub fn _mod<V: LuaVM>(i: u32, vm: &mut V, answer: Option<&FloatAnswer>) -> (r: Result<
    Option<FloatRequest>,
    LuaError,
>)
    requires
        old(vm).valid(),
    ensures
        final(vm).valid(),
        answers(
            r,
            old(vm).state(),
            final(vm).state(),
            spec_arith_rr(old(vm).state(), i, LUA_OPMOD, view_answer(answer)),
        ),
{
    arith(i, vm, LUA_OPMOD, answer)
}

/// `POW A B C`: R[A] := R[B] ^ R[C].
pub fn pow<V: LuaVM>(i: u32, vm: &mut V, answer: Option<&FloatAnswer>) -> (r: Result<
    Option<FloatRequest>,
    LuaError,
>)
    requires
        old(vm).valid(),
    ensures
        final(vm).valid(),
        answers(
            r,
            old(vm).state(),
            final(vm).state(),
            spec_arith_rr(old(vm).state(), i, LUA_OPPOW, view_answer(answer)),
        ),
{
    arith(i, vm, LUA_OPPOW, answer)
}

/// `DIV A B C`: R[A] := R[B] / R[C].
pub fn div<V: LuaVM>(i: u32, vm: &mut V, answer: Option<&FloatAnswer>) -> (r: Result<
    Option<FloatRequest>,
    LuaError,
>)
    requires
        old(vm).valid(),
    ensures
        final(vm).valid(),
        answers(
            r,
            old(vm).state(),
            final(vm).state(),
            spec_arith_rr(old(vm).state(), i, LUA_OPDIV, view_answer(answer)),
        ),
{
    arith(i, vm, LUA_OPDIV, answer)
}

/// `IDIV A B C`: R[A] := R[B] // R[C].
pub fn idiv<V: LuaVM>(i: u32, vm: &mut V, answer: Option<&FloatAnswer>) -> (r: Result<
    Option<FloatRequest>,
    LuaError,
>)
    requires
        old(vm).valid(),
    ensures
        final(vm).valid(),
        answers(
            r,
            old(vm).state(),
            final(vm).state(),
            spec_arith_rr(old(vm).state(), i, LUA_OPIDIV, view_answer(answer)),
        ),
{
    arith(i, vm, LUA_OPIDIV, answer)
}

/// `BAND A B C`: R[A] := R[B] & R[C].
pub fn band<V: LuaVM>(i: u32, vm: &mut V, answer: Option<&FloatAnswer>) -> (r: Result<
    Option<FloatRequest>,
    LuaError,
>)
    requires
        old(vm).valid(),
    ensures
        final(vm).valid(),
        answers(
            r,
            old(vm).state(),
            final(vm).state(),
            spec_arith_rr(old(vm).state(), i, LUA_OPBAND, view_answer(answer)),
        ),
{
    arith(i, vm, LUA_OPBAND, answer)
}

/// `BOR A B C`: R[A] := R[B] | R[C].
pub fn bor<V: LuaVM>(i: u32, vm: &mut V, answer: Option<&FloatAnswer>) -> (r: Result<
    Option<FloatRequest>,
    LuaError,
>)
    requires
        old(vm).valid(),
    ensures
        final(vm).valid(),
        answers(
            r,
            old(vm).state(),
            final(vm).state(),
            spec_arith_rr(old(vm).state(), i, LUA_OPBOR, view_answer(answer)),
        ),
{
    arith(i, vm, LUA_OPBOR, answer)
}

/// `BXOR A B C`: R[A] := R[B] ~ R[C].
pub fn bxor<V: LuaVM>(i: u32, vm: &mut V, answer: Option<&FloatAnswer>) -> (r: Result<
    Option<FloatRequest>,
    LuaError,
>)
    requires
        old(vm).valid(),
    ensures
        final(vm).valid(),
        answers(
            r,
            old(vm).state(),
            final(vm).state(),
            spec_arith_rr(old(vm).state(), i, LUA_OPBXOR, view_answer(answer)),
        ),
{
    arith(i, vm, LUA_OPBXOR, answer)
}

/// `SHL A B C`: R[A] := R[B] << R[C].
pub fn shl<V: LuaVM>(i: u32, vm: &mut V, answer: Option<&FloatAnswer>) -> (r: Result<
    Option<FloatRequest>,
    LuaError,
>)
    requires
        old(vm).valid(),
    ensures
        final(vm).valid(),
        answers(
            r,
            old(vm).state(),
            final(vm).state(),
            spec_arith_rr(old(vm).state(), i, LUA_OPSHL, view_answer(answer)),
        ),
{
    arith(i, vm, LUA_OPSHL, answer)
}

/// `SHR A B C`: R[A] := R[B] >> R[C].
pub fn shr<V: LuaVM>(i: u32, vm: &mut V, answer: Option<&FloatAnswer>) -> (r: Result<
    Option<FloatRequest>,
    LuaError,
>)
    requires
        old(vm).valid(),
    ensures
        final(vm).valid(),
        answers(
            r,
            old(vm).state(),
            final(vm).state(),
            spec_arith_rr(old(vm).state(), i, LUA_OPSHR, view_answer(answer)),
        ),
{
    arith(i, vm, LUA_OPSHR, answer)
}

/// `UNM A B`: R[A] := -R[B].
pub fn unm<V: LuaVM>(i: u32, vm: &mut V, answer: Option<&FloatAnswer>) -> (r: Result<
    Option<FloatRequest>,
    LuaError,
>)
    requires
        old(vm).valid(),
    ensures
        final(vm).valid(),
        answers(
            r,
            old(vm).state(),
            final(vm).state(),
            spec_unary_arith(old(vm).state(), i, LUA_OPUNM, view_answer(answer)),
        ),
{
    unary_arith(i, vm, LUA_OPUNM, answer)
}

/// `BNOT A B`: R[A] := ~R[B].
pub fn bnot<V: LuaVM>(i: u32, vm: &mut V, answer: Option<&FloatAnswer>) -> (r: Result<
    Option<FloatRequest>,
    LuaError,
>)
    requires
        old(vm).valid(),
    ensures
        final(vm).valid(),
        answers(
            r,
            old(vm).state(),
            final(vm).state(),
            spec_unary_arith(old(vm).state(), i, LUA_OPBNOT, view_answer(answer)),
        ),
{
    unary_arith(i, vm, LUA_OPBNOT, answer)
}

/// `EQ A B k`: if ((R[A] == R[B]) ~= k) then pc++.
pub fn eq<V: LuaVM>(i: u32, vm: &mut V) -> (r: Result<(), LuaError>)
    requires
        old(vm).valid(),
    ensures
        final(vm).valid(),
        agrees(
            r,
            old(vm).state(),
            final(vm).state(),
            spec_compare_rr(old(vm).state(), i, LUA_OPEQ),
        ),
{
    compare(i, vm, LUA_OPEQ)
}

/// `LT A B k`: if ((R[A] < R[B]) ~= k) then pc++.
pub fn lt<V: LuaVM>(i: u32, vm: &mut V) -> (r: Result<(), LuaError>)
    requires
        old(vm).valid(),
    ensures
        final(vm).valid(),
        agrees(
            r,
            old(vm).state(),
            final(vm).state(),
            spec_compare_rr(old(vm).state(), i, LUA_OPLT),
        ),
{
    compare(i, vm, LUA_OPLT)
}

/// `LE A B k`: if ((R[A] <= R[B]) ~= k) then pc++.
pub fn le<V: LuaVM>(i: u32, vm: &mut V) -> (r: Result<(), LuaError>)
    requires
        old(vm).valid(),
    ensures
        final(vm).valid(),
        agrees(
            r,
            old(vm).state(),
            final(vm).state(),
            spec_compare_rr(old(vm).state(), i, LUA_OPLE),
        ),
{
    compare(i, vm, LUA_OPLE)
}

/// `EQK A B k`: if ((R[A] == K[B]) ~= k) then pc++.
pub fn eq_k<V: LuaVM>(i: u32, vm: &mut V) -> (r: Result<(), LuaError>)
    requires
        old(vm).valid(),
    ensures
        final(vm).valid(),
        agrees(r, old(vm).state(), final(vm).state(), spec_compare_k(old(vm).state(), i, LUA_OPEQ)),
{
    compare_k(i, vm, LUA_OPEQ)
}

/// `EQI A sB k`: if ((R[A] == sB) ~= k) then pc++.
pub fn eq_i<V: LuaVM>(i: u32, vm: &mut V) -> (r: Result<(), LuaError>)
    requires
        old(vm).valid(),
    ensures
        final(vm).valid(),
        agrees(r, old(vm).state(), final(vm).state(), spec_compare_i(old(vm).state(), i, LUA_OPEQ)),
{
    compare_i(i, vm, LUA_OPEQ)
}

/// `LTI A sB k`: if ((R[A] < sB) ~= k) then pc++.
pub fn lt_i<V: LuaVM>(i: u32, vm: &mut V) -> (r: Result<(), LuaError>)
    requires
        old(vm).valid(),
    ensures
        final(vm).valid(),
        agrees(r, old(vm).state(), final(vm).state(), spec_compare_i(old(vm).state(), i, LUA_OPLT)),
{
    compare_i(i, vm, LUA_OPLT)
}

/// `LEI A sB k`: if ((R[A] <= sB) ~= k) then pc++.
pub fn le_i<V: LuaVM>(i: u32, vm: &mut V) -> (r: Result<(), LuaError>)
    requires
        old(vm).valid(),
    ensures
        final(vm).valid(),
        agrees(r, old(vm).state(), final(vm).state(), spec_compare_i(old(vm).state(), i, LUA_OPLE)),
{
    compare_i(i, vm, LUA_OPLE)
}

/// `GTI A sB k`: if ((R[A] > sB) ~= k) then pc++.
pub fn gt_i<V: LuaVM>(i: u32, vm: &mut V) -> (r: Result<(), LuaError>)
    requires
        old(vm).valid(),
    ensures
        final(vm).valid(),
        agrees(r, old(vm).state(), final(vm).state(), spec_compare_i(old(vm).state(), i, LUA_OPGT)),
{
    compare_i(i, vm, LUA_OPGT)
}

/// `GEI A sB k`: if ((R[A] >= sB) ~= k) then pc++.
pub fn ge_i<V: LuaVM>(i: u32, vm: &mut V) -> (r: Result<(), LuaError>)
    requires
        old(vm).valid(),
    ensures
        final(vm).valid(),
        agrees(r, old(vm).state(), final(vm).state(), spec_compare_i(old(vm).state(), i, LUA_OPGE)),
{
    compare_i(i, vm, LUA_OPGE)
}

/// `NOT A B`: R[A] := not R[B].
pub fn not<V: LuaVM>(i: u32, vm: &mut V) -> (r: Result<(), LuaError>)
    requires
        old(vm).valid(),
    ensures
        final(vm).valid(),
        agrees(
            r,
            old(vm).state(),
            final(vm).state(),
            old(vm).state().with_reg(
                spec_arg_a(i) + 1,
                Val::Boolean(!spec_to_boolean(old(vm).state().get(spec_arg_b(i) + 1))),
            ),
        ),
{
    let (a, b) = (i.get_arg_a() + 1, i.get_arg_b() + 1);
    let truth = vm.get_val(b).to_boolean();
    vm.set_val(a, LuaValue::Boolean(!truth))
}

/// `LEN A B`: R[A] := the length of R[B], a string or a table.
pub fn len<V: LuaVM>(i: u32, vm: &mut V) -> (r: Result<(), LuaError>)
    requires
        old(vm).valid(),
    ensures
        final(vm).valid(),
        agrees(r, old(vm).state(), final(vm).state(), spec_len(old(vm).state(), i)),
{
    let (a, b) = (i.get_arg_a() + 1, i.get_arg_b() + 1);
    let v = vm.get_val(b);
    match vm.length_of(&v) {
        Some(n) => vm.set_val(a, LuaValue::Integer(n)),
        None => Err(LuaError::TypeError),
    }
}

/// `CONCAT A B`: R[A] := R[A] .. ... .. R[A + B - 1].
pub fn concat<V: LuaVM>(i: u32, vm: &mut V, answer: Option<&FloatAnswer>) -> (r: Result<
    Option<FloatRequest>,
    LuaError,
>)
    requires
        old(vm).valid(),
    ensures
        final(vm).valid(),
        answers(
            r,
            old(vm).state(),
            final(vm).state(),
            spec_concat_regs(old(vm).state(), i, view_answer(answer)),
        ),
{
    let (a, b) = (i.get_arg_a() + 1, i.get_arg_b());
    let height = vm.height();
    if (a - 1 + b) as usize > height {
        return Err(LuaError::IndexError);
    }
    let mut ops = vm.regs(a, a + b);
    match concat_values(&mut ops, answer) {
        Outcome::Value(v) => match vm.set_val(a, v) {
            Ok(_) => Ok(None),
            Err(e) => Err(e),
        },
        Outcome::Request(req) => match vm.set_regs(a, ops) {
            Ok(_) => Ok(Some(req)),
            Err(e) => Err(e),
        },
        Outcome::Fail => Err(LuaError::TypeError),
    }
}

/// `TEST A k`: if (truth of R[A] ~= k) then pc++.
pub fn test<V: LuaVM>(i: u32, vm: &mut V) -> (r: Result<(), LuaError>)
    requires
        old(vm).valid(),
    ensures
        final(vm).valid(),
        agrees(
            r,
            old(vm).state(),
            final(vm).state(),
            truth_step(old(vm).state(), old(vm).state().get(spec_arg_a(i) + 1), spec_arg_k(i)),
        ),
{
    let (a, k) = (i.get_arg_a() + 1, i.get_arg_k());
    if vm.get_val(a).to_boolean() != (k != 0) {
        vm.add_pc(1)
    } else {
        Ok(())
    }
}

/// `TESTSET A B k`: if (truth of R[B] ~= k) then pc++ else R[A] := R[B].
pub fn test_set<V: LuaVM>(i: u32, vm: &mut V) -> (r: Result<(), LuaError>)
    requires
        old(vm).valid(),
    ensures
        final(vm).valid(),
        agrees(r, old(vm).state(), final(vm).state(), spec_test_set(old(vm).state(), i)),
{
    let (a, b, k) = (i.get_arg_a() + 1, i.get_arg_b() + 1, i.get_arg_k());
    let v = vm.get_val(b);
    if v.to_boolean() != (k != 0) {
        vm.add_pc(1)
    } else {
        vm.set_val(a, v)
    }
}

} // verus!
