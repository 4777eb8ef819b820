//! Comparison of values.
use vstd::prelude::*;
use vstd::utf8::encode_utf8;
use crate::api::consts::{LUA_OPEQ, LUA_OPGE, LUA_OPGT, LUA_OPLE, LUA_OPLT};
use crate::number::float::{
    float_eq, float_le, float_lt, int_to_float, spec_float_eq, spec_float_le, spec_float_lt,
    spec_float_to_integer, spec_int_to_float,
};
use crate::state::lua_value::{LuaValue, Val};

verus! {

/// Is `a` before `b` in the order of byte strings, as it is from position
/// `i` on, the bytes before `i` being equal? The first byte that differs
/// decides; a string is before every longer one that it begins.
pub open spec fn lex_lt_from(a: Seq<u8>, b: Seq<u8>, i: int) -> bool
    decreases a.len() - i,
{
    if i < 0 || i >= b.len() {
        false
    } else if i >= a.len() {
        true
    } else if a[i] != b[i] {
        a[i] < b[i]
    } else {
        lex_lt_from(a, b, i + 1)
    }
}

/// Is `a` before `b` in the order of byte strings?
pub open spec fn lex_lt(a: Seq<u8>, b: Seq<u8>) -> bool {
    lex_lt_from(a, b, 0)
}

/// Are the two values equal? Values of one type are equal where they hold
/// the same; an integer and a double are equal where the double nearest to
/// the integer equals the double; tables and functions are equal where they
/// are the same table or function; values of different types are not equal.
pub open spec fn spec_eq(a: Val, b: Val) -> bool {
    match (a, b) {
        (Val::Nil, Val::Nil) => true,
        (Val::Boolean(x), Val::Boolean(y)) => x == y,
        (Val::Str(x), Val::Str(y)) => x == y,
        (Val::Integer(x), Val::Integer(y)) => x == y,
        (Val::Integer(x), Val::Number(y)) => spec_float_eq(spec_int_to_float(x), y),
        (Val::Number(x), Val::Integer(y)) => spec_float_eq(x, spec_int_to_float(y)),
        (Val::Number(x), Val::Number(y)) => spec_float_eq(x, y),
        (Val::Table(x), Val::Table(y)) => x == y,
        (Val::Function(x), Val::Function(y)) => x == y,
        _ => false,
    }
}

/// Is `a` below `b`? Only two numbers or two strings have an order.
pub open spec fn spec_lt(a: Val, b: Val) -> Option<bool> {
    match (a, b) {
        (Val::Str(x), Val::Str(y)) => Some(lex_lt(encode_utf8(x), encode_utf8(y))),
        (Val::Integer(x), Val::Integer(y)) => Some(x < y),
        (Val::Integer(x), Val::Number(y)) => Some(spec_float_lt(spec_int_to_float(x), y)),
        (Val::Number(x), Val::Integer(y)) => Some(spec_float_lt(x, spec_int_to_float(y))),
        (Val::Number(x), Val::Number(y)) => Some(spec_float_lt(x, y)),
        _ => None,
    }
}

/// Is `a` below `b` or equal to it? Only two numbers or two strings have an order.
pub open spec fn spec_le(a: Val, b: Val) -> Option<bool> {
    match (a, b) {
        (Val::Str(x), Val::Str(y)) => Some(!lex_lt(encode_utf8(y), encode_utf8(x))),
        (Val::Integer(x), Val::Integer(y)) => Some(x <= y),
        (Val::Integer(x), Val::Number(y)) => Some(spec_float_le(spec_int_to_float(x), y)),
        (Val::Number(x), Val::Integer(y)) => Some(spec_float_le(x, spec_int_to_float(y))),
        (Val::Number(x), Val::Number(y)) => Some(spec_float_le(x, y)),
        _ => None,
    }
}

/// The comparison `op` of `a` with `b`: above is below with the operands
/// exchanged. None where the operator does not exist or the values have no
/// order.
pub open spec fn spec_compare(a: Val, b: Val, op: u8) -> Option<bool> {
    if op == LUA_OPEQ {
        Some(spec_eq(a, b))
    } else if op == LUA_OPLT {
        spec_lt(a, b)
    } else if op == LUA_OPLE {
        spec_le(a, b)
    } else if op == LUA_OPGT {
        spec_lt(b, a)
    } else if op == LUA_OPGE {
        spec_le(b, a)
    } else {
        None
    }
}

/// Is the text `a` before the text `b` in the order of their bytes?
pub fn text_lt(a: &str, b: &str) -> (r: bool)
    ensures
        r == lex_lt(encode_utf8(a@), encode_utf8(b@)),
{
    let x = a.as_bytes();
    let y = b.as_bytes();
    let mut i: usize = 0;
    loop
        invariant
            i <= x.len(),
            i <= y.len(),
            x@ == encode_utf8(a@),
            y@ == encode_utf8(b@),
            lex_lt_from(x@, y@, i as int) == lex_lt(x@, y@),
        decreases x.len() - i,
    {
        if i >= y.len() {
            return false;
        }
        if i >= x.len() {
            return true;
        }
        if x[i] != y[i] {
            return x[i] < y[i];
        }
        i += 1;
    }
}

/// Are the two values equal?
pub fn eq(a: &LuaValue, b: &LuaValue) -> (r: bool)
    ensures
        r == spec_eq(a@, b@),
{
    match (a, b) {
        (LuaValue::Nil, LuaValue::Nil) => true,
        (LuaValue::Boolean(x), LuaValue::Boolean(y)) => *x == *y,
        (LuaValue::Str(x), LuaValue::Str(y)) => *x == *y,
        (LuaValue::Integer(x), LuaValue::Integer(y)) => *x == *y,
        (LuaValue::Integer(x), LuaValue::Number(y)) => float_eq(int_to_float(*x), *y),
        (LuaValue::Number(x), LuaValue::Integer(y)) => float_eq(*x, int_to_float(*y)),
        (LuaValue::Number(x), LuaValue::Number(y)) => float_eq(*x, *y),
        (LuaValue::Table(x), LuaValue::Table(y)) => *x == *y,
        (LuaValue::Function(x), LuaValue::Function(y)) => *x == *y,
        _ => false,
    }
}

/// Is `a` below `b`?
pub fn lt(a: &LuaValue, b: &LuaValue) -> (r: Option<bool>)
    ensures
        r == spec_lt(a@, b@),
{
    match (a, b) {
        (LuaValue::Str(x), LuaValue::Str(y)) => Some(text_lt(x.as_str(), y.as_str())),
        (LuaValue::Integer(x), LuaValue::Integer(y)) => Some(*x < *y),
        (LuaValue::Integer(x), LuaValue::Number(y)) => Some(float_lt(int_to_float(*x), *y)),
        (LuaValue::Number(x), LuaValue::Integer(y)) => Some(float_lt(*x, int_to_float(*y))),
        (LuaValue::Number(x), LuaValue::Number(y)) => Some(float_lt(*x, *y)),
        _ => None,
    }
}

/// Is `a` below `b` or equal to it?
pub fn le(a: &LuaValue, b: &LuaValue) -> (r: Option<bool>)
    ensures
        r == spec_le(a@, b@),
{
    match (a, b) {
        (LuaValue::Str(x), LuaValue::Str(y)) => Some(!text_lt(y.as_str(), x.as_str())),
        (LuaValue::Integer(x), LuaValue::Integer(y)) => Some(*x <= *y),
        (LuaValue::Integer(x), LuaValue::Number(y)) => Some(float_le(int_to_float(*x), *y)),
        (LuaValue::Number(x), LuaValue::Integer(y)) => Some(float_le(*x, int_to_float(*y))),
        (LuaValue::Number(x), LuaValue::Number(y)) => Some(float_le(*x, *y)),
        _ => None,
    }
}

/// Is `a` above `b`?
pub fn gt(a: &LuaValue, b: &LuaValue) -> (r: Option<bool>)
    ensures
        r == spec_lt(b@, a@),
{
    lt(b, a)
}

/// Is `a` above `b` or equal to it?
pub fn ge(a: &LuaValue, b: &LuaValue) -> (r: Option<bool>)
    ensures
        r == spec_le(b@, a@),
{
    le(b, a)
}

/// Compares `a` with `b` by the operator `op`.
pub fn compare(a: &LuaValue, b: &LuaValue, op: u8) -> (r: Option<bool>)
    ensures
        r == spec_compare(a@, b@, op),
{
    if op == LUA_OPEQ {
        Some(eq(a, b))
    } else if op == LUA_OPLT {
        lt(a, b)
    } else if op == LUA_OPLE {
        le(a, b)
    } else if op == LUA_OPGT {
        gt(a, b)
    } else if op == LUA_OPGE {
        ge(a, b)
    } else {
        None
    }
}

/// Does the integer come back from the double nearest to it?
pub open spec fn round_trip_is_lossless(n: i64) -> bool {
    spec_float_to_integer(spec_int_to_float(n)) == Some(n)
}

/// An integer equals the double nearest to it. This is so for every
/// integer: the comparison takes the integer to its nearest double first,
/// so it holds also where that double stands for another integer.
pub proof fn lemma_integer_equals_its_float(n: i64)
    ensures
        spec_compare(Val::Integer(n), Val::Number(spec_int_to_float(n)), LUA_OPEQ) == Some(true),
{
    crate::number::float::lemma_int_to_float_not_nan(n);
}

/// For an integer that comes back from the double nearest to it, the
/// integer and that double are equal, as the round trip is lossless.
pub proof fn lemma_lossless_integer_equals_its_float(n: i64)
    requires
        round_trip_is_lossless(n),
    ensures
        spec_compare(Val::Integer(n), Val::Number(spec_int_to_float(n)), LUA_OPEQ) == Some(
            round_trip_is_lossless(n),
        ),
{
    lemma_integer_equals_its_float(n);
}

} // verus!
