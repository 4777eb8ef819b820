//! The instructions that make, read and write tables.
use vstd::prelude::*;
use crate::api::lua_vm::LuaVM;
use crate::error::LuaError;
use crate::state::arith_ops::{
    spec_to_text, to_text, view_answer, FloatAnswer, FloatAnswerView, FloatRequest,
    FloatRequestView, Outcome, OutcomeView,
};
use crate::state::lua_state::{
    agrees, answers, lemma_with_stack, view_value, StateView,
};
use crate::state::lua_value::{LuaValue, Val};
use crate::vm::instruction::{spec_arg_a, spec_arg_b, spec_arg_c, spec_arg_k, Instruction};

verus! {

/// The number of values that a compiler hands to one `SETLIST`.
pub const LFIELDS_PER_FLUSH: isize = 50;

/// The state with the value under `k` of the table `t` in the register
/// `a`. The key is missing where the chunk does not hold the constant that
/// was to be it.
pub open spec fn table_read(s: StateView, a: int, t: Val, k: Option<Val>) -> Result<
    StateView,
    LuaError,
> {
    match k {
        Some(k) => match s.table_get(t, k) {
            Some(v) => s.with_reg(a, v),
            None => Err(LuaError::TableError),
        },
        None => Err(LuaError::CorruptChunk),
    }
}

/// The state with `v` under `k` in the table `t`.
pub open spec fn table_write(s: StateView, t: Val, k: Option<Val>, v: Option<Val>) -> Result<
    StateView,
    LuaError,
> {
    match (k, v) {
        (Some(k), Some(v)) => match s.table_put(t, k, v) {
            Some(sa) => Ok(sa),
            None => Err(LuaError::TableError),
        },
        _ => Err(LuaError::CorruptChunk),
    }
}

/// The operand that field C and the flag k name: the constant K[C] where
/// the flag is set, else the register R[C].
pub open spec fn spec_rkc(s: StateView, i: u32) -> Option<Val> {
    s.rk(spec_arg_c(i) + 0x100 * spec_arg_k(i))
}

/// `NEWTABLE A B C k`: R[A] := a new table; the extra argument that
/// follows is passed over.
pub open spec fn spec_new_table(s: StateView, i: u32) -> Result<StateView, LuaError> {
    let a = spec_arg_a(i) + 1;
    if !s.valid(a) || s.frame().pc >= isize::MAX {
        Err(LuaError::IndexError)
    } else {
        match s.add_table().with_reg(a, Val::Table(s.tables.len() as usize)) {
            Ok(sa) => sa.jumped(1),
            Err(e) => Err(e),
        }
    }
}

/// A string constant as a key: the text of a string or of a number.
pub open spec fn field_step(
    s: StateView,
    name: Option<Val>,
    ans: Option<FloatAnswerView>,
    then: spec_fn(Val) -> Result<StateView, LuaError>,
) -> Result<(Option<FloatRequestView>, StateView), LuaError> {
    match name {
        Some(kv) => match spec_to_text(kv, ans) {
            OutcomeView::Value(key) => match then(key) {
                Ok(sa) => Ok((None, sa)),
                Err(e) => Err(e),
            },
            OutcomeView::Request(r) => Ok((Some(r), s)),
            OutcomeView::Fail => Err(LuaError::TypeError),
        },
        None => Err(LuaError::CorruptChunk),
    }
}

/// `GETFIELD A B C`: R[A] := R[B][K[C]:string].
pub open spec fn spec_get_field(s: StateView, i: u32, ans: Option<FloatAnswerView>) -> Result<
    (Option<FloatRequestView>, StateView),
    LuaError,
> {
    field_step(
        s,
        s.konst(spec_arg_c(i)),
        ans,
        |key: Val| table_read(s, spec_arg_a(i) + 1, s.get(spec_arg_b(i) + 1), Some(key)),
    )
}

/// `SETFIELD A B C`: R[A][K[B]:string] := RK(C).
pub open spec fn spec_set_field(s: StateView, i: u32, ans: Option<FloatAnswerView>) -> Result<
    (Option<FloatRequestView>, StateView),
    LuaError,
> {
    field_step(
        s,
        s.konst(spec_arg_b(i)),
        ans,
        |key: Val| table_write(s, s.get(spec_arg_a(i) + 1), Some(key), spec_rkc(s, i)),
    )
}

/// The state after the first `n` values of a list were stored: the value
/// of the register `a + j` is put under the key `c + j` of the table `t`,
/// for `j` from 1 to `n`.
pub open spec fn list_stored(s: StateView, t: Val, a: int, c: int, n: nat) -> Option<StateView>
    decreases n,
{
    if n == 0 {
        Some(s)
    } else {
        match list_stored(s, t, a, c, (n - 1) as nat) {
            Some(sa) => sa.table_put(t, Val::Integer((c + n) as i64), s.get(a + n)),
            None => None,
        }
    }
}

/// `SETLIST A B C`: R[A][C+j] := R[A+j], for j from 1 to B.
pub open spec fn spec_set_list(s: StateView, i: u32) -> Result<StateView, LuaError> {
    match list_stored(
        s,
        s.get(spec_arg_a(i) + 1),
        spec_arg_a(i) + 1,
        spec_arg_c(i),
        spec_arg_b(i) as nat,
    ) {
        Some(sa) => Ok(sa),
        None => Err(LuaError::TableError),
    }
}

/// Storing values in a table that exists goes well, and leaves the stack
/// and the number of tables as they are.
pub proof fn lemma_list_stored(s: StateView, t: Val, a: int, c: int, n: nat)
    requires
        s.table_of(t).is_some(),
    ensures
        list_stored(s, t, a, c, n).is_some(),
        list_stored(s, t, a, c, n).unwrap().frames == s.frames,
        list_stored(s, t, a, c, n).unwrap().tables.len() == s.tables.len(),
    decreases n,
{
    if n > 0 {
        lemma_list_stored(s, t, a, c, (n - 1) as nat);
    }
}

/// Storing values in what is no table goes wrong, unless there are none.
pub proof fn lemma_list_not_stored(s: StateView, t: Val, a: int, c: int, n: nat)
    requires
        s.table_of(t).is_none(),
        n > 0,
    ensures
        list_stored(s, t, a, c, n).is_none(),
    decreases n,
{
    if n > 1 {
        lemma_list_not_stored(s, t, a, c, (n - 1) as nat);
    } else {
        assert(list_stored(s, t, a, c, 0) == Some(s));
    }
}

/// The operand that field C and the flag k name.
pub fn rkc<V: LuaVM>(i: u32, vm: &V) -> (r: Option<LuaValue>)
    requires
        vm.valid(),
    ensures
        view_value(r) == spec_rkc(vm.state(), i),
{
    let (c, k) = (i.get_arg_c(), i.get_arg_k());
    vm.rk(c + 0x100 * k)
}

/// Puts the value under `k` of the table `t` in the register `a`.
pub fn read_table<V: LuaVM>(vm: &mut V, a: isize, t: &LuaValue, k: Option<LuaValue>) -> (r: Result<
    (),
    LuaError,
>)
    requires
        old(vm).valid(),
    ensures
        final(vm).valid(),
        agrees(
            r,
            old(vm).state(),
            final(vm).state(),
            table_read(old(vm).state(), a as int, t@, view_value(k)),
        ),
{
    match k {
        Some(k) => match vm.table_get(t, &k) {
            Some(v) => vm.set_val(a, v),
            None => Err(LuaError::TableError),
        },
        None => Err(LuaError::CorruptChunk),
    }
}

/// Puts `v` under `k` in the table `t`.
pub fn write_table<V: LuaVM>(vm: &mut V, t: &LuaValue, k: Option<LuaValue>, v: Option<LuaValue>) -> (r:
    Result<(), LuaError>)
    requires
        old(vm).valid(),
    ensures
        final(vm).valid(),
        agrees(
            r,
            old(vm).state(),
            final(vm).state(),
            table_write(old(vm).state(), t@, view_value(k), view_value(v)),
        ),
{
    match (k, v) {
        (Some(k), Some(v)) => if vm.table_put(t, k, v) {
            Ok(())
        } else {
            Err(LuaError::TableError)
        },
        _ => Err(LuaError::CorruptChunk),
    }
}

/// `NEWTABLE A B C k`: R[A] := {}.
pub fn new_table<V: LuaVM>(i: u32, vm: &mut V) -> (r: Result<(), LuaError>)
    requires
        old(vm).valid(),
    ensures
        final(vm).valid(),
        agrees(r, old(vm).state(), final(vm).state(), spec_new_table(old(vm).state(), i)),
{
    proof {
        vm.lemma_valid();
    }
    let (a, b, c) = (i.get_arg_a() + 1, i.get_arg_b(), i.get_arg_c());
    if !vm.is_valid(a) || vm.pc() == isize::MAX {
        return Err(LuaError::IndexError);
    }
    // B holds the logarithm of the size of the hash part, plus one
    let nrec: usize = if b > 0 && b <= 16 {
        1usize << ((b - 1) as usize)
    } else {
        0
    };
    let t = vm.new_lua_table(c as usize, nrec);
    let set = vm.set_val(a, t);
    assert(set.is_ok());
    vm.add_pc(1)
}

/// `GETTABLE A B C`: R[A] := R[B][R[C]].
pub fn get_table<V: LuaVM>(i: u32, vm: &mut V) -> (r: Result<(), LuaError>)
    requires
        old(vm).valid(),
    ensures
        final(vm).valid(),
        agrees(
            r,
            old(vm).state(),
            final(vm).state(),
            table_read(
                old(vm).state(),
                spec_arg_a(i) + 1,
                old(vm).state().get(spec_arg_b(i) + 1),
                Some(old(vm).state().get(spec_arg_c(i) + 1)),
            ),
        ),
{
    let (a, b, c) = (i.get_arg_a() + 1, i.get_arg_b() + 1, i.get_arg_c());
    let t = vm.get_val(b);
    let k = vm.get_val(c + 1);
    read_table(vm, a, &t, Some(k))
}

/// `GETI A B C`: R[A] := R[B][C].
pub fn get_i<V: LuaVM>(i: u32, vm: &mut V) -> (r: Result<(), LuaError>)
    requires
        old(vm).valid(),
    ensures
        final(vm).valid(),
        agrees(
            r,
            old(vm).state(),
            final(vm).state(),
            table_read(
                old(vm).state(),
                spec_arg_a(i) + 1,
                old(vm).state().get(spec_arg_b(i) + 1),
                Some(Val::Integer(spec_arg_c(i) as i64)),
            ),
        ),
{
    let (a, b, c) = (i.get_arg_a() + 1, i.get_arg_b() + 1, i.get_arg_c());
    let t = vm.get_val(b);
    read_table(vm, a, &t, Some(LuaValue::Integer(c as i64)))
}

/// `GETFIELD A B C`: R[A] := R[B][K[C]:string].
pub fn get_field<V: LuaVM>(i: u32, vm: &mut V, answer: Option<&FloatAnswer>) -> (r: Result<
    Option<FloatRequest>,
    LuaError,
>)
    requires
        old(vm).valid(),
    ensures
        final(vm).valid(),
        answers(
            r,
            old(vm).state(),
            final(vm).state(),
            spec_get_field(old(vm).state(), i, view_answer(answer)),
        ),
{
    let (a, b, c) = (i.get_arg_a() + 1, i.get_arg_b() + 1, i.get_arg_c());
    let name = match vm.konst(c) {
        Some(v) => v,
        None => {
            return Err(LuaError::CorruptChunk);
        },
    };
    match to_text(&name, answer) {
        Outcome::Value(key) => {
            let t = vm.get_val(b);
            match read_table(vm, a, &t, Some(key)) {
                Ok(_) => Ok(None),
                Err(e) => Err(e),
            }
        },
        Outcome::Request(req) => Ok(Some(req)),
        Outcome::Fail => Err(LuaError::TypeError),
    }
}

/// `SETTABLE A B C`: R[A][R[B]] := RK(C).
pub fn set_table<V: LuaVM>(i: u32, vm: &mut V) -> (r: Result<(), LuaError>)
    requires
        old(vm).valid(),
    ensures
        final(vm).valid(),
        agrees(
            r,
            old(vm).state(),
            final(vm).state(),
            table_write(
                old(vm).state(),
                old(vm).state().get(spec_arg_a(i) + 1),
                Some(old(vm).state().get(spec_arg_b(i) + 1)),
                spec_rkc(old(vm).state(), i),
            ),
        ),
{
    let (a, b) = (i.get_arg_a() + 1, i.get_arg_b());
    let t = vm.get_val(a);
    let k = vm.get_val(b + 1);
    let v = rkc(i, vm);
    write_table(vm, &t, Some(k), v)
}

/// `SETI A B C`: R[A][B] := RK(C).
pub fn set_i<V: LuaVM>(i: u32, vm: &mut V) -> (r: Result<(), LuaError>)
    requires
        old(vm).valid(),
    ensures
        final(vm).valid(),
        agrees(
            r,
            old(vm).state(),
            final(vm).state(),
            table_write(
                old(vm).state(),
                old(vm).state().get(spec_arg_a(i) + 1),
                Some(Val::Integer(spec_arg_b(i) as i64)),
                spec_rkc(old(vm).state(), i),
            ),
        ),
{
    let (a, b) = (i.get_arg_a() + 1, i.get_arg_b());
    let t = vm.get_val(a);
    let v = rkc(i, vm);
    write_table(vm, &t, Some(LuaValue::Integer(b as i64)), v)
}

/// `SETFIELD A B C`: R[A][K[B]:string] := RK(C).
pub fn set_field<V: LuaVM>(i: u32, vm: &mut V, answer: Option<&FloatAnswer>) -> (r: Result<
    Option<FloatRequest>,
    LuaError,
>)
    requires
        old(vm).valid(),
    ensures
        final(vm).valid(),
        answers(
            r,
            old(vm).state(),
            final(vm).state(),
            spec_set_field(old(vm).state(), i, view_answer(answer)),
        ),
{
    let (a, b) = (i.get_arg_a() + 1, i.get_arg_b());
    let name = match vm.konst(b) {
        Some(v) => v,
        None => {
            return Err(LuaError::CorruptChunk);
        },
    };
    match to_text(&name, answer) {
        Outcome::Value(key) => {
            let t = vm.get_val(a);
            let v = rkc(i, vm);
            match write_table(vm, &t, Some(key), v) {
                Ok(_) => Ok(None),
                Err(e) => Err(e),
            }
        },
        Outcome::Request(req) => Ok(Some(req)),
        Outcome::Fail => Err(LuaError::TypeError),
    }
}

/// `SETLIST A B C`: R[A][C+j] := R[A+j], for j from 1 to B.
pub fn set_list<V: LuaVM>(i: u32, vm: &mut V) -> (r: Result<(), LuaError>)
    requires
        old(vm).valid(),
    ensures
        final(vm).valid(),
        agrees(r, old(vm).state(), final(vm).state(), spec_set_list(old(vm).state(), i)),
{
    let (a, b, c) = (i.get_arg_a() + 1, i.get_arg_b(), i.get_arg_c());
    let t = vm.get_val(a);
    let is_table = match &t {
        LuaValue::Table(h) => *h < vm.table_count(),
        _ => false,
    };
    if !is_table {
        if b == 0 {
            return Ok(());
        }
        proof {
            lemma_list_not_stored(old(vm).state(), t@, a as int, c as int, b as nat);
        }
        return Err(LuaError::TableError);
    }
    let mut j: isize = 0;
    while j < b
        invariant
            0 <= j <= b <= 255,
            0 <= c <= 255,
            1 <= a <= 256,
            vm.valid(),
            t@ == old(vm).state().get(a as int),
            old(vm).state().table_of(t@).is_some(),
            list_stored(old(vm).state(), t@, a as int, c as int, j as nat) == Some(vm.state()),
        decreases b - j,
    {
        proof {
            lemma_list_stored(old(vm).state(), t@, a as int, c as int, j as nat);
        }
        j += 1;
        let v = vm.get_val(a + j);
        let put = vm.table_put(&t, LuaValue::Integer((c + j) as i64), v);
        assert(put);
    }
    Ok(())
}

} // verus!
