//! Arithmetic on values.
//!
//! Integer arithmetic is done here, as is the negation of a double. What
//! else is to be done with doubles is described in a `FloatRequest`, which
//! goes to the caller, and comes back as a `FloatAnswer`.
use vstd::prelude::*;
use vstd::utf8::encode_utf8;
use crate::api::consts::{
    LUA_OPADD, LUA_OPBAND, LUA_OPBNOT, LUA_OPBOR, LUA_OPBXOR, LUA_OPIDIV, LUA_OPMOD, LUA_OPMUL,
    LUA_OPSHL, LUA_OPSHR, LUA_OPSUB, LUA_OPUNM,
};
use crate::number::float::{float_neg, int_to_float, spec_float_neg, spec_int_to_float};
use crate::number::text::{int_text, int_to_string};
use crate::number::math::{
    i_floor_div, i_mod, shift_left, shift_right, spec_i_floor_div, spec_i_mod, spec_shift_left,
    spec_shift_right,
};
use crate::state::lua_value::{
    parse_integer, spec_parse_integer, spec_to_integer, spec_to_number, vals, LuaValue, Val,
};

verus! {

/// An operand of an operation on doubles: a double, or a text that is to be
/// read as one.
#[derive(Debug, Clone, PartialEq)]
pub enum Operand {
    Float(u64),
    Text(String),
}

/// An operand, as a mathematical value.
pub enum OperandView {
    Float(u64),
    Text(Seq<char>),
}

impl View for Operand {
    type V = OperandView;

    open spec fn view(&self) -> OperandView {
        match self {
            Operand::Float(x) => OperandView::Float(*x),
            Operand::Text(s) => OperandView::Text(s@),
        }
    }
}

/// What the caller is asked to compute on doubles.
#[derive(Debug, Clone, PartialEq)]
pub enum FloatRequest {
    /// Read both operands as doubles and apply the arithmetic operator `op`
    /// to them. The answer holds the two doubles, each absent where a text
    /// spells none, and the result.
    Arith { op: u8, x: Operand, y: Operand },
    /// Write the double `x` in decimal. The answer holds the text.
    Format { x: u64 },
}

/// A request, as a mathematical value.
pub enum FloatRequestView {
    Arith { op: u8, x: OperandView, y: OperandView },
    Format { x: u64 },
}

impl View for FloatRequest {
    type V = FloatRequestView;

    open spec fn view(&self) -> FloatRequestView {
        match self {
            FloatRequest::Arith { op, x, y } => FloatRequestView::Arith { op: *op, x: x@, y: y@ },
            FloatRequest::Format { x } => FloatRequestView::Format { x: *x },
        }
    }
}

/// What the caller computed: the operands as doubles, the result of the
/// operator, and the decimal text, each as far as the request asked for it.
#[derive(Debug, Clone, PartialEq)]
pub struct FloatAnswer {
    pub x: Option<u64>,
    pub y: Option<u64>,
    pub value: u64,
    pub text: String,
}

/// An answer, as a mathematical value.
pub struct FloatAnswerView {
    pub x: Option<u64>,
    pub y: Option<u64>,
    pub value: u64,
    pub text: Seq<char>,
}

impl View for FloatAnswer {
    type V = FloatAnswerView;

    open spec fn view(&self) -> FloatAnswerView {
        FloatAnswerView { x: self.x, y: self.y, value: self.value, text: self.text@ }
    }
}

/// The view of an answer that may be absent.
pub open spec fn view_answer(a: Option<&FloatAnswer>) -> Option<FloatAnswerView> {
    match a {
        Some(a) => Some(a@),
        None => None,
    }
}

/// How an operation on values ends.
#[derive(Debug, Clone, PartialEq)]
pub enum Outcome {
    /// With a value.
    Value(LuaValue),
    /// With a request: the caller computes it and calls again with the answer.
    Request(FloatRequest),
    /// With an arithmetic error.
    Fail,
}

/// How an operation on values ends, as a mathematical value.
pub enum OutcomeView {
    Value(Val),
    Request(FloatRequestView),
    Fail,
}

impl View for Outcome {
    type V = OutcomeView;

    open spec fn view(&self) -> OutcomeView {
        match self {
            Outcome::Value(v) => OutcomeView::Value(v@),
            Outcome::Request(r) => OutcomeView::Request(r@),
            Outcome::Fail => OutcomeView::Fail,
        }
    }
}

/// Is `op` one of the operators on integers alone: the bitwise ones and the shifts?
pub open spec fn is_bitwise(op: u8) -> bool {
    LUA_OPBAND <= op <= LUA_OPSHR || op == LUA_OPBNOT
}

/// Does `op` have a form on integers beside its form on doubles?
pub open spec fn has_integer_form(op: u8) -> bool {
    op == LUA_OPADD || op == LUA_OPSUB || op == LUA_OPMUL || op == LUA_OPMOD || op == LUA_OPIDIV
        || op == LUA_OPUNM
}

/// The result of `op` on two integers, in two's complement. Division and
/// remainder by zero have none; nor has an operator without a form on
/// integers.
pub open spec fn spec_int_op(op: u8, x: i64, y: i64) -> Option<i64> {
    if op == LUA_OPADD {
        Some(x.wrapping_add(y))
    } else if op == LUA_OPSUB {
        Some(x.wrapping_sub(y))
    } else if op == LUA_OPMUL {
        Some(x.wrapping_mul(y))
    } else if op == LUA_OPMOD {
        if y == 0 {
            None
        } else {
            Some(spec_i_mod(x, y))
        }
    } else if op == LUA_OPIDIV {
        if y == 0 {
            None
        } else {
            Some(spec_i_floor_div(x, y))
        }
    } else if op == LUA_OPBAND {
        Some(x & y)
    } else if op == LUA_OPBOR {
        Some(x | y)
    } else if op == LUA_OPBXOR {
        Some(x ^ y)
    } else if op == LUA_OPSHL {
        Some(spec_shift_left(x, y as int))
    } else if op == LUA_OPSHR {
        Some(spec_shift_right(x, y as int))
    } else if op == LUA_OPUNM {
        Some(0i64.wrapping_sub(x))
    } else if op == LUA_OPBNOT {
        Some(!x)
    } else {
        None
    }
}

/// Can the value be an operand of arithmetic: is it a number or a string?
pub open spec fn is_numeric(v: Val) -> bool {
    v is Integer || v is Number || v is Str
}

/// Is the value a string that does not spell an integer?
pub open spec fn needs_parsing(v: Val) -> bool {
    match v {
        Val::Str(s) => spec_parse_integer(encode_utf8(s)).is_none(),
        _ => false,
    }
}

/// The value as an operand of a request.
pub open spec fn spec_operand(v: Val) -> OperandView {
    match v {
        Val::Integer(i) => OperandView::Float(spec_int_to_float(i)),
        Val::Number(n) => OperandView::Float(n),
        Val::Str(s) => OperandView::Text(s),
        _ => OperandView::Float(0),
    }
}

/// The outcome for an optional integer result.
pub open spec fn integer_outcome(r: Option<i64>) -> OutcomeView {
    match r {
        Some(i) => OutcomeView::Value(Val::Integer(i)),
        None => OutcomeView::Fail,
    }
}

/// The result of `op` on two optional integers.
pub open spec fn opt_int_op(op: u8, x: Option<i64>, y: Option<i64>) -> Option<i64> {
    match (x, y) {
        (Some(x), Some(y)) => spec_int_op(op, x, y),
        _ => None,
    }
}

/// The operands as the answer gives them, or none without an answer.
pub open spec fn answer_x(ans: Option<FloatAnswerView>) -> Option<u64> {
    match ans {
        Some(a) => a.x,
        None => None,
    }
}

/// The operands as the answer gives them, or none without an answer.
pub open spec fn answer_y(ans: Option<FloatAnswerView>) -> Option<u64> {
    match ans {
        Some(a) => a.y,
        None => None,
    }
}

/// The outcome of the arithmetic operator `op` on `a` and `b`; a unary
/// operator is given its operand twice. `ans` is the answer to the request
/// that an earlier call with the same arguments made, if there was one.
///
/// A bitwise operator takes both operands as integers. The others take two
/// integers as integers where they have a form on integers, and else both
/// operands as doubles. An operand that is no number and no string, an
/// operand that does not convert, a division of integers by zero and an
/// operator that does not exist fail.
///
/// A request is made where a text has to be read as a double, or doubles
/// have to be added, multiplied and so on. The answer is taken as it is.
pub open spec fn spec_arith(a: Val, b: Val, op: u8, ans: Option<FloatAnswerView>) -> OutcomeView {
    if op > LUA_OPBNOT || !is_numeric(a) || !is_numeric(b) {
        OutcomeView::Fail
    } else if is_bitwise(op) {
        if (needs_parsing(a) || needs_parsing(b)) && ans.is_none() {
            OutcomeView::Request(
                FloatRequestView::Arith { op, x: spec_operand(a), y: spec_operand(b) },
            )
        } else {
            integer_outcome(
                opt_int_op(
                    op,
                    spec_to_integer(a, answer_x(ans)),
                    spec_to_integer(b, answer_y(ans)),
                ),
            )
        }
    } else if has_integer_form(op) && a is Integer && b is Integer {
        integer_outcome(spec_int_op(op, a->Integer_0, b->Integer_0))
    } else if op == LUA_OPUNM {
        if a is Str && ans.is_none() {
            OutcomeView::Request(
                FloatRequestView::Arith { op, x: spec_operand(a), y: spec_operand(b) },
            )
        } else {
            match spec_to_number(a, answer_x(ans)) {
                Some(x) => OutcomeView::Value(Val::Number(spec_float_neg(x))),
                None => OutcomeView::Fail,
            }
        }
    } else {
        match ans {
            None => OutcomeView::Request(
                FloatRequestView::Arith { op, x: spec_operand(a), y: spec_operand(b) },
            ),
            Some(ans) => match (spec_to_number(a, ans.x), spec_to_number(b, ans.y)) {
                (Some(_), Some(_)) => OutcomeView::Value(Val::Number(ans.value)),
                _ => OutcomeView::Fail,
            },
        }
    }
}

fn iadd(a: i64, b: i64) -> (r: i64)
    ensures
        Some(r) == spec_int_op(LUA_OPADD, a, b),
{
    a.wrapping_add(b)
}

fn isub(a: i64, b: i64) -> (r: i64)
    ensures
        Some(r) == spec_int_op(LUA_OPSUB, a, b),
{
    a.wrapping_sub(b)
}

fn imul(a: i64, b: i64) -> (r: i64)
    ensures
        Some(r) == spec_int_op(LUA_OPMUL, a, b),
{
    a.wrapping_mul(b)
}

fn imod(a: i64, b: i64) -> (r: Option<i64>)
    ensures
        r == spec_int_op(LUA_OPMOD, a, b),
{
    if b == 0 {
        None
    } else {
        Some(i_mod(a, b))
    }
}

fn iidiv(a: i64, b: i64) -> (r: Option<i64>)
    ensures
        r == spec_int_op(LUA_OPIDIV, a, b),
{
    if b == 0 {
        None
    } else {
        Some(i_floor_div(a, b))
    }
}

fn band(a: i64, b: i64) -> (r: i64)
    ensures
        Some(r) == spec_int_op(LUA_OPBAND, a, b),
{
    a & b
}

fn bor(a: i64, b: i64) -> (r: i64)
    ensures
        Some(r) == spec_int_op(LUA_OPBOR, a, b),
{
    a | b
}

fn bxor(a: i64, b: i64) -> (r: i64)
    ensures
        Some(r) == spec_int_op(LUA_OPBXOR, a, b),
{
    a ^ b
}

fn shl(a: i64, b: i64) -> (r: i64)
    ensures
        Some(r) == spec_int_op(LUA_OPSHL, a, b),
{
    shift_left(a, b)
}

fn shr(a: i64, b: i64) -> (r: i64)
    ensures
        Some(r) == spec_int_op(LUA_OPSHR, a, b),
{
    shift_right(a, b)
}

fn iunm(a: i64, _b: i64) -> (r: i64)
    ensures
        Some(r) == spec_int_op(LUA_OPUNM, a, _b),
{
    0i64.wrapping_sub(a)
}

fn bnot(a: i64, _b: i64) -> (r: i64)
    ensures
        Some(r) == spec_int_op(LUA_OPBNOT, a, _b),
{
    !a
}

/// The result of `op` on two integers.
pub fn int_op(op: u8, x: i64, y: i64) -> (r: Option<i64>)
    ensures
        r == spec_int_op(op, x, y),
{
    if op == LUA_OPADD {
        Some(iadd(x, y))
    } else if op == LUA_OPSUB {
        Some(isub(x, y))
    } else if op == LUA_OPMUL {
        Some(imul(x, y))
    } else if op == LUA_OPMOD {
        imod(x, y)
    } else if op == LUA_OPIDIV {
        iidiv(x, y)
    } else if op == LUA_OPBAND {
        Some(band(x, y))
    } else if op == LUA_OPBOR {
        Some(bor(x, y))
    } else if op == LUA_OPBXOR {
        Some(bxor(x, y))
    } else if op == LUA_OPSHL {
        Some(shl(x, y))
    } else if op == LUA_OPSHR {
        Some(shr(x, y))
    } else if op == LUA_OPUNM {
        Some(iunm(x, y))
    } else if op == LUA_OPBNOT {
        Some(bnot(x, y))
    } else {
        None
    }
}

/// The value as an operand of a request.
fn operand_of(v: &LuaValue) -> (r: Operand)
    ensures
        r@ == spec_operand(v@),
{
    match v {
        LuaValue::Integer(i) => Operand::Float(int_to_float(*i)),
        LuaValue::Number(n) => Operand::Float(*n),
        LuaValue::Str(s) => Operand::Text(s.clone()),
        _ => Operand::Float(0),
    }
}

/// A request for `op` on the two values.
fn request_for(a: &LuaValue, b: &LuaValue, op: u8) -> (r: Outcome)
    ensures
        r@ == OutcomeView::Request(
            FloatRequestView::Arith { op, x: spec_operand(a@), y: spec_operand(b@) },
        ),
{
    Outcome::Request(FloatRequest::Arith { op, x: operand_of(a), y: operand_of(b) })
}

/// Is the value a number or a string?
fn numeric(v: &LuaValue) -> (r: bool)
    ensures
        r == is_numeric(v@),
{
    match v {
        LuaValue::Integer(_) => true,
        LuaValue::Number(_) => true,
        LuaValue::Str(_) => true,
        _ => false,
    }
}

/// Is the value a string that does not spell an integer?
fn must_parse(v: &LuaValue) -> (r: bool)
    ensures
        r == needs_parsing(v@),
{
    match v {
        LuaValue::Str(s) => parse_integer(s.as_str()).is_none(),
        _ => false,
    }
}

/// Applies the arithmetic operator `op` to `a` and `b`; see `spec_arith`.
pub fn arith(a: &LuaValue, b: &LuaValue, op: u8, answer: Option<&FloatAnswer>) -> (r: Outcome)
    ensures
        r@ == spec_arith(a@, b@, op, view_answer(answer)),
{
    if op > LUA_OPBNOT || !numeric(a) || !numeric(b) {
        return Outcome::Fail;
    }
    let (ax, ay) = match answer {
        Some(ans) => (ans.x, ans.y),
        None => (None, None),
    };
    if (LUA_OPBAND <= op && op <= LUA_OPSHR) || op == LUA_OPBNOT {
        if (must_parse(a) || must_parse(b)) && answer.is_none() {
            return request_for(a, b, op);
        }
        return match (a.to_integer(ax), b.to_integer(ay)) {
            (Some(x), Some(y)) => match int_op(op, x, y) {
                Some(i) => Outcome::Value(LuaValue::Integer(i)),
                None => Outcome::Fail,
            },
            _ => Outcome::Fail,
        };
    }
    if op == LUA_OPADD || op == LUA_OPSUB || op == LUA_OPMUL || op == LUA_OPMOD || op == LUA_OPIDIV
        || op == LUA_OPUNM {
        match (a, b) {
            (LuaValue::Integer(x), LuaValue::Integer(y)) => {
                return match int_op(op, *x, *y) {
                    Some(i) => Outcome::Value(LuaValue::Integer(i)),
                    None => Outcome::Fail,
                };
            },
            _ => {},
        }
    }
    if op == LUA_OPUNM {
        let is_text = match a {
            LuaValue::Str(_) => true,
            _ => false,
        };
        if is_text && answer.is_none() {
            return request_for(a, b, op);
        }
        return match a.to_number(ax) {
            Some(x) => Outcome::Value(LuaValue::Number(float_neg(x))),
            None => Outcome::Fail,
        };
    }
    match answer {
        None => request_for(a, b, op),
        Some(ans) => match (a.to_number(ans.x), b.to_number(ans.y)) {
            (Some(_), Some(_)) => Outcome::Value(LuaValue::Number(ans.value)),
            _ => Outcome::Fail,
        },
    }
}

/// A value as a string value: a string is itself, an integer is written
/// in decimal. A double is written by the caller: a request is made, and
/// the text of the answer is taken as it is. Other values fail.
pub open spec fn spec_to_text(v: Val, ans: Option<FloatAnswerView>) -> OutcomeView {
    match v {
        Val::Str(s) => OutcomeView::Value(Val::Str(s)),
        Val::Integer(i) => OutcomeView::Value(Val::Str(int_text(i as int))),
        Val::Number(x) => match ans {
            Some(a) => OutcomeView::Value(Val::Str(a.text)),
            None => OutcomeView::Request(FloatRequestView::Format { x }),
        },
        _ => OutcomeView::Fail,
    }
}

/// The value as a string value; see `spec_to_text`.
pub fn to_text(v: &LuaValue, answer: Option<&FloatAnswer>) -> (r: Outcome)
    ensures
        r@ == spec_to_text(v@, view_answer(answer)),
{
    match v {
        LuaValue::Str(s) => Outcome::Value(LuaValue::Str(s.clone())),
        LuaValue::Integer(i) => Outcome::Value(LuaValue::Str(int_to_string(*i))),
        LuaValue::Number(x) => match answer {
            Some(a) => Outcome::Value(LuaValue::Str(a.text.clone())),
            None => Outcome::Request(FloatRequest::Format { x: *x }),
        },
        _ => Outcome::Fail,
    }
}

/// Can the value be joined to a string: is it a string or a number?
pub open spec fn is_textual(v: Val) -> bool {
    v is Str || v is Integer || v is Number
}

/// Can all the values be joined to a string?
pub open spec fn all_textual(ops: Seq<Val>) -> bool {
    forall|j: int| 0 <= j < ops.len() ==> is_textual(#[trigger] ops[j])
}

/// The place of the first double among the values from `from` on.
pub open spec fn first_number(ops: Seq<Val>, from: int) -> Option<int>
    decreases ops.len() - from,
{
    if from < 0 || from >= ops.len() {
        None
    } else if ops[from] is Number {
        Some(from)
    } else {
        first_number(ops, from + 1)
    }
}

/// The text of a string or an integer.
pub open spec fn text_of(v: Val) -> Seq<char> {
    match v {
        Val::Str(s) => s,
        Val::Integer(i) => int_text(i as int),
        _ => Seq::empty(),
    }
}

/// The texts of the values, one after the other.
pub open spec fn joined(ops: Seq<Val>) -> Seq<char>
    decreases ops.len(),
{
    if ops.len() == 0 {
        Seq::empty()
    } else {
        joined(ops.drop_last()) + text_of(ops.last())
    }
}

/// The operands of a concatenation after an answer was taken in: the text
/// of the answer stands in the place of the first double.
pub open spec fn with_answer(ops: Seq<Val>, ans: Option<FloatAnswerView>) -> Seq<Val> {
    match (first_number(ops, 0), ans) {
        (Some(j), Some(a)) => ops.update(j, Val::Str(a.text)),
        _ => ops,
    }
}

/// The outcome of joining the values to one string. Values that are no
/// strings and no numbers fail. The first double among them is replaced by
/// the text of the answer, if there is an answer. If a double is left, the
/// request to write it is made; else the texts are joined.
pub open spec fn spec_concat(ops: Seq<Val>, ans: Option<FloatAnswerView>) -> OutcomeView {
    if !all_textual(ops) {
        OutcomeView::Fail
    } else {
        let ops2 = with_answer(ops, ans);
        match first_number(ops2, 0) {
            Some(j) => OutcomeView::Request(FloatRequestView::Format { x: ops2[j]->Number_0 }),
            None => OutcomeView::Value(Val::Str(joined(ops2))),
        }
    }
}

/// The place of the first double among the values from `from` on.
fn find_number(ops: &Vec<LuaValue>, from: usize) -> (r: Option<usize>)
    requires
        from <= ops.len(),
    ensures
        match r {
            Some(j) => first_number(vals(ops@), from as int) == Some(j as int) && j < ops.len()
                && vals(ops@)[j as int] is Number,
            None => first_number(vals(ops@), from as int).is_none(),
        },
{
    let mut j = from;
    while j < ops.len()
        invariant
            from <= j <= ops.len(),
            first_number(vals(ops@), from as int) == first_number(vals(ops@), j as int),
        decreases ops.len() - j,
    {
        match &ops[j] {
            LuaValue::Number(_) => {
                return Some(j);
            },
            _ => {},
        }
        j += 1;
    }
    None
}

/// Joins the values to one string; see `spec_concat`. The values are left
/// as they are, but for the double that the answer was for.
pub fn concat_values(ops: &mut Vec<LuaValue>, answer: Option<&FloatAnswer>) -> (r: Outcome)
    ensures
        r@ == spec_concat(vals(old(ops)@), view_answer(answer)),
        all_textual(vals(old(ops)@)) ==> vals(final(ops)@) == with_answer(
            vals(old(ops)@),
            view_answer(answer),
        ),
        !all_textual(vals(old(ops)@)) ==> vals(final(ops)@) == vals(old(ops)@),
{
    let n = ops.len();
    let mut j: usize = 0;
    while j < n
        invariant
            j <= n,
            n == ops.len(),
            ops == old(ops),
            forall|i: int| 0 <= i < j ==> is_textual(#[trigger] vals(ops@)[i]),
        decreases n - j,
    {
        match &ops[j] {
            LuaValue::Str(_) => {},
            LuaValue::Integer(_) => {},
            LuaValue::Number(_) => {},
            _ => {
                assert(!is_textual(vals(ops@)[j as int]));
                return Outcome::Fail;
            },
        }
        j += 1;
    }
    let first = find_number(ops, 0);
    match (first, answer) {
        (Some(j), Some(a)) => {
            let ghost before = vals(ops@);
            ops[j] = LuaValue::Str(a.text.clone());
            assert(vals(ops@) =~= before.update(j as int, Val::Str(a.text@)));
        },
        _ => {},
    }
    match find_number(ops, 0) {
        Some(j) => match &ops[j] {
            LuaValue::Number(x) => Outcome::Request(FloatRequest::Format { x: *x }),
            _ => Outcome::Fail,
        },
        None => {
            let mut acc = String::new();
            let mut i: usize = 0;
            assert(vals(ops@).subrange(0, 0) =~= Seq::<Val>::empty());
            while i < n
                invariant
                    i <= n,
                    n == ops.len(),
                    acc@ == joined(vals(ops@).subrange(0, i as int)),
                decreases n - i,
            {
                let ghost prefix = vals(ops@).subrange(0, i as int);
                match &ops[i] {
                    LuaValue::Str(s) => {
                        acc.append(s.as_str());
                    },
                    LuaValue::Integer(x) => {
                        let t = int_to_string(*x);
                        acc.append(t.as_str());
                    },
                    _ => {},
                }
                i += 1;
                assert(vals(ops@).subrange(0, i as int).drop_last() =~= prefix);
            }
            assert(vals(ops@).subrange(0, n as int) =~= vals(ops@));
            Outcome::Value(LuaValue::Str(acc))
        },
    }
}

} // verus!
