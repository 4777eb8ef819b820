//! Values and their coercions.
use vstd::prelude::*;
use vstd::std_specs::cmp::PartialEqSpecImpl;
use vstd::utf8::encode_utf8;
use crate::api::consts::{LUA_TBOOLEAN, LUA_TFUNCTION, LUA_TNIL, LUA_TNUMBER, LUA_TSTRING, LUA_TTABLE};
use crate::number::float::{float_to_integer, int_to_float, spec_float_to_integer, spec_int_to_float};

verus! {

/// A value. A number is the bit pattern of a double. A table and a
/// function are handles into the arenas of the state that made them; two
/// such values are the same table, or function, where the handles are equal.
#[derive(Debug, Clone)]
pub enum LuaValue {
    Nil,
    Boolean(bool),
    Number(u64),
    Integer(i64),
    Str(String),
    Table(usize),
    Function(usize),
}

/// A value, as a mathematical value: a string is the sequence of its characters.
pub enum Val {
    Nil,
    Boolean(bool),
    Number(u64),
    Integer(i64),
    Str(Seq<char>),
    Table(usize),
    Function(usize),
}

impl View for LuaValue {
    type V = Val;

    open spec fn view(&self) -> Val {
        match self {
            LuaValue::Nil => Val::Nil,
            LuaValue::Boolean(b) => Val::Boolean(*b),
            LuaValue::Number(n) => Val::Number(*n),
            LuaValue::Integer(i) => Val::Integer(*i),
            LuaValue::Str(s) => Val::Str(s@),
            LuaValue::Table(t) => Val::Table(*t),
            LuaValue::Function(f) => Val::Function(*f),
        }
    }
}

/// The views of a sequence of values.
pub open spec fn vals(s: Seq<LuaValue>) -> Seq<Val> {
    Seq::new(s.len(), |i: int| s[i]@)
}

/// The type of a value, as the host sees it: integers and floats are both numbers.
pub open spec fn spec_type_id(v: Val) -> i8 {
    match v {
        Val::Nil => LUA_TNIL,
        Val::Boolean(_) => LUA_TBOOLEAN,
        Val::Number(_) => LUA_TNUMBER,
        Val::Integer(_) => LUA_TNUMBER,
        Val::Str(_) => LUA_TSTRING,
        Val::Table(_) => LUA_TTABLE,
        Val::Function(_) => LUA_TFUNCTION,
    }
}

/// The truth of a value: nil and false are false, all else is true.
pub open spec fn spec_to_boolean(v: Val) -> bool {
    match v {
        Val::Nil => false,
        Val::Boolean(b) => b,
        _ => true,
    }
}

/// Is `b` the code of a decimal digit?
pub open spec fn is_digit(b: u8) -> bool {
    0x30 <= b <= 0x39
}

/// The number that the first `n` bytes of `b` spell in decimal digits, as
/// long as it does not pass `limit`; none where a byte is no digit or the
/// number passes the limit.
pub open spec fn digits_value(b: Seq<u8>, n: nat, limit: int) -> Option<int>
    decreases n,
{
    if n == 0 {
        Some(0int)
    } else {
        match digits_value(b, (n - 1) as nat, limit) {
            Some(v) => if n <= b.len() && is_digit(b[n - 1]) && v * 10 + (b[n - 1] - 0x30) <= limit {
                Some(v * 10 + (b[n - 1] - 0x30))
            } else {
                None
            },
            None => None,
        }
    }
}

/// The integer that the bytes spell: an optional sign, then decimal digits,
/// at least one, and nothing else; none where they spell no integer or one
/// that does not fit.
pub open spec fn spec_parse_integer(b: Seq<u8>) -> Option<i64> {
    if b.len() == 0 {
        None
    } else if b[0] == 0x2d {
        // a minus sign
        let d = b.subrange(1, b.len() as int);
        if d.len() == 0 {
            None
        } else {
            match digits_value(d, d.len(), 0x8000_0000_0000_0000) {
                Some(v) => Some((-v) as i64),
                None => None,
            }
        }
    } else {
        let d = if b[0] == 0x2b {
            b.subrange(1, b.len() as int)
        } else {
            b
        };
        if d.len() == 0 {
            None
        } else {
            match digits_value(d, d.len(), 0x7fff_ffff_ffff_ffff) {
                Some(v) => Some(v as i64),
                None => None,
            }
        }
    }
}

/// The double that a value stands for. `parsed` is what the text of a
/// string gave when it was read as a double, which the caller does.
pub open spec fn spec_to_number(v: Val, parsed: Option<u64>) -> Option<u64> {
    match v {
        Val::Integer(i) => Some(spec_int_to_float(i)),
        Val::Number(n) => Some(n),
        Val::Str(_) => parsed,
        _ => None,
    }
}

/// The integer of a double that may be absent.
pub open spec fn spec_opt_float_to_integer(x: Option<u64>) -> Option<i64> {
    match x {
        Some(n) => spec_float_to_integer(n),
        None => None,
    }
}

/// The integer that a text stands for: the integer that it spells, or else
/// the integer of the double that it spells. `parsed` is that double.
pub open spec fn spec_string_to_integer(s: Seq<char>, parsed: Option<u64>) -> Option<i64> {
    match spec_parse_integer(encode_utf8(s)) {
        Some(i) => Some(i),
        None => spec_opt_float_to_integer(parsed),
    }
}

/// The integer that a value stands for. `parsed` is what the text of a
/// string gave when it was read as a double, which the caller does.
pub open spec fn spec_to_integer(v: Val, parsed: Option<u64>) -> Option<i64> {
    match v {
        Val::Integer(i) => Some(i),
        Val::Number(n) => spec_float_to_integer(n),
        Val::Str(s) => spec_string_to_integer(s, parsed),
        _ => None,
    }
}

/// Where the first `k` bytes spell no number within the limit, more bytes do not either.
pub proof fn lemma_digits_fail_on(b: Seq<u8>, k: nat, n: nat, limit: int)
    requires
        k <= n,
        digits_value(b, k, limit).is_none(),
    ensures
        digits_value(b, n, limit).is_none(),
    decreases n,
{
    if k < n {
        lemma_digits_fail_on(b, k, (n - 1) as nat, limit);
    }
}

/// The number that the bytes of `b` from `from` on spell in decimal digits,
/// where it does not pass `limit`.
fn parse_digits(b: &[u8], from: usize, limit: u64) -> (r: Option<u64>)
    requires
        from <= b.len(),
        9 <= limit <= 0x8000_0000_0000_0000,
    ensures
        match r {
            Some(v) => digits_value(
                b@.subrange(from as int, b.len() as int),
                (b.len() - from) as nat,
                limit as int,
            ) == Some(v as int),
            None => digits_value(
                b@.subrange(from as int, b.len() as int),
                (b.len() - from) as nat,
                limit as int,
            ).is_none(),
        },
{
    let ghost d = b@.subrange(from as int, b.len() as int);
    let n = b.len() - from;
    let mut acc: u64 = 0;
    let mut i: usize = 0;
    while i < n
        invariant
            i <= n,
            n == b.len() - from,
            d == b@.subrange(from as int, b.len() as int),
            9 <= limit <= 0x8000_0000_0000_0000,
            acc <= limit,
            digits_value(d, i as nat, limit as int) == Some(acc as int),
        decreases n - i,
    {
        let c = b[from + i];
        assert(c == d[i as int]);
        if c < 0x30 || c > 0x39 || acc > (limit - (c - 0x30) as u64) / 10 {
            proof {
                assert(digits_value(d, (i + 1) as nat, limit as int).is_none());
                lemma_digits_fail_on(d, (i + 1) as nat, n as nat, limit as int);
            }
            return None;
        }
        acc = acc * 10 + (c - 0x30) as u64;
        i += 1;
    }
    Some(acc)
}

/// The integer that a text spells: an optional sign and decimal digits.
pub fn parse_integer(s: &str) -> (r: Option<i64>)
    ensures
        r == spec_parse_integer(encode_utf8(s@)),
{
    let b = s.as_bytes();
    if b.len() == 0 {
        return None;
    }
    if b[0] == 0x2d {
        if b.len() == 1 {
            return None;
        }
        match parse_digits(b, 1, 0x8000_0000_0000_0000) {
            Some(v) => if v == 0x8000_0000_0000_0000 {
                Some(i64::MIN)
            } else {
                Some(-(v as i64))
            },
            None => None,
        }
    } else {
        let from: usize = if b[0] == 0x2b {
            1
        } else {
            0
        };
        if b.len() == from {
            return None;
        }
        assert(from == 0 ==> b@.subrange(0, b.len() as int) =~= b@);
        match parse_digits(b, from, 0x7fff_ffff_ffff_ffff) {
            Some(v) => Some(v as i64),
            None => None,
        }
    }
}

/// The integer that a text stands for; `parsed` is the double that the
/// caller read from it, if it spells one.
pub fn string_to_integer(s: &String, parsed: Option<u64>) -> (r: Option<i64>)
    ensures
        r == spec_string_to_integer(s@, parsed),
{
    match parse_integer(s.as_str()) {
        Some(i) => Some(i),
        None => match parsed {
            Some(n) => float_to_integer(n),
            None => None,
        },
    }
}

impl LuaValue {
    /// A copy of the value.
    pub fn duplicate(&self) -> (r: LuaValue)
        ensures
            r@ == self@,
    {
        match self {
            LuaValue::Nil => LuaValue::Nil,
            LuaValue::Boolean(b) => LuaValue::Boolean(*b),
            LuaValue::Number(n) => LuaValue::Number(*n),
            LuaValue::Integer(i) => LuaValue::Integer(*i),
            LuaValue::Str(s) => LuaValue::Str(s.clone()),
            LuaValue::Table(t) => LuaValue::Table(*t),
            LuaValue::Function(f) => LuaValue::Function(*f),
        }
    }

    /// Do the two values have equal views?
    pub fn same(&self, other: &LuaValue) -> (r: bool)
        ensures
            r == (self@ == other@),
    {
        match (self, other) {
            (LuaValue::Nil, LuaValue::Nil) => true,
            (LuaValue::Boolean(a), LuaValue::Boolean(b)) => *a == *b,
            (LuaValue::Number(a), LuaValue::Number(b)) => *a == *b,
            (LuaValue::Integer(a), LuaValue::Integer(b)) => *a == *b,
            (LuaValue::Str(a), LuaValue::Str(b)) => *a == *b,
            (LuaValue::Table(a), LuaValue::Table(b)) => *a == *b,
            (LuaValue::Function(a), LuaValue::Function(b)) => *a == *b,
            _ => false,
        }
    }

    /// Is the value nil?
    pub fn is_nil(&self) -> (r: bool)
        ensures
            r == (self@ == Val::Nil),
    {
        match self {
            LuaValue::Nil => true,
            _ => false,
        }
    }

    /// The type of the value, as the host sees it.
    pub fn type_id(&self) -> (r: i8)
        ensures
            r == spec_type_id(self@),
    {
        match self {
            LuaValue::Nil => LUA_TNIL,
            LuaValue::Boolean(_) => LUA_TBOOLEAN,
            LuaValue::Number(_) => LUA_TNUMBER,
            LuaValue::Integer(_) => LUA_TNUMBER,
            LuaValue::Str(_) => LUA_TSTRING,
            LuaValue::Table(_) => LUA_TTABLE,
            LuaValue::Function(_) => LUA_TFUNCTION,
        }
    }

    /// The truth of the value.
    pub fn to_boolean(&self) -> (r: bool)
        ensures
            r == spec_to_boolean(self@),
    {
        match self {
            LuaValue::Nil => false,
            LuaValue::Boolean(b) => *b,
            _ => true,
        }
    }

    /// The double that the value stands for; `parsed` is the double that the
    /// caller read from the text, where the value is a string.
    pub fn to_number(&self, parsed: Option<u64>) -> (r: Option<u64>)
        ensures
            r == spec_to_number(self@, parsed),
    {
        match self {
            LuaValue::Integer(i) => Some(int_to_float(*i)),
            LuaValue::Number(n) => Some(*n),
            LuaValue::Str(_) => parsed,
            _ => None,
        }
    }

    /// The integer that the value stands for; `parsed` is the double that
    /// the caller read from the text, where the value is a string.
    pub fn to_integer(&self, parsed: Option<u64>) -> (r: Option<i64>)
        ensures
            r == spec_to_integer(self@, parsed),
    {
        match self {
            LuaValue::Integer(i) => Some(*i),
            LuaValue::Number(n) => float_to_integer(*n),
            LuaValue::Str(s) => string_to_integer(s, parsed),
            _ => None,
        }
    }
}

impl PartialEq for LuaValue {
    fn eq(&self, other: &Self) -> (r: bool) {
        self.same(other)
    }
}

impl PartialEqSpecImpl for LuaValue {
    open spec fn obeys_eq_spec() -> bool {
        true
    }

    open spec fn eq_spec(&self, other: &Self) -> bool {
        self@ == other@
    }
}

} // verus!
