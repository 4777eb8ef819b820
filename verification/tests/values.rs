use lua_vm::api::op::{ArithOp, CmpOp};
use lua_vm::api::types::{Type, VType};
use lua_vm::error::{HeaderField, LuaError};
use lua_vm::number::float::{
    float_eq, float_le, float_lt, float_neg, float_to_integer, int_to_float, is_nan, is_zero,
};
use lua_vm::number::text::int_to_string;
use lua_vm::state::arith_ops::{
    arith, concat_values, to_text, FloatAnswer, FloatRequest, Operand, Outcome,
};
use lua_vm::state::compare_ops::compare;
use lua_vm::state::lua_table::LuaTable;
use lua_vm::state::lua_value::{parse_integer, string_to_integer, LuaValue};

fn num(x: f64) -> LuaValue {
    LuaValue::Number(x.to_bits())
}

fn text(s: &str) -> LuaValue {
    LuaValue::Str(s.to_string())
}

fn as_float(o: &Operand) -> Option<f64> {
    match o {
        Operand::Float(bits) => Some(f64::from_bits(*bits)),
        Operand::Text(s) => s.parse::<f64>().ok(),
    }
}

fn float_mod(a: f64, b: f64) -> f64 {
    if a > 0.0 && b == f64::INFINITY || a < 0.0 && b == f64::NEG_INFINITY {
        a
    } else if a > 0.0 && b == f64::NEG_INFINITY || a < 0.0 && b == f64::INFINITY {
        b
    } else {
        a - b * (a / b).floor()
    }
}

fn answer(req: &FloatRequest) -> FloatAnswer {
    match req {
        FloatRequest::Arith { op, x, y } => {
            let (fx, fy) = (as_float(x), as_float(y));
            let value = match (fx, fy) {
                (Some(a), Some(b)) => match *op {
                    0 => a + b,
                    1 => a - b,
                    2 => a * b,
                    3 => float_mod(a, b),
                    4 => a.powf(b),
                    5 => a / b,
                    6 => (a / b).floor(),
                    12 => -a,
                    _ => 0.0,
                },
                _ => 0.0,
            };
            FloatAnswer {
                x: fx.map(f64::to_bits),
                y: fy.map(f64::to_bits),
                value: value.to_bits(),
                text: String::new(),
            }
        }
        FloatRequest::Format { x } => FloatAnswer {
            x: None,
            y: None,
            value: 0,
            text: f64::from_bits(*x).to_string(),
        },
    }
}

fn arith_through(a: &LuaValue, b: &LuaValue, op: u8) -> Option<LuaValue> {
    match arith(a, b, op, None) {
        Outcome::Value(v) => Some(v),
        Outcome::Fail => None,
        Outcome::Request(req) => {
            let ans = answer(&req);
            match arith(a, b, op, Some(&ans)) {
                Outcome::Value(v) => Some(v),
                _ => None,
            }
        }
    }
}

#[test]
fn arith_ops_test_arith() {
    let cases: Vec<(LuaValue, LuaValue, u8, LuaValue)> = vec![
        (LuaValue::Integer(1), LuaValue::Integer(2), ArithOp::ADD as u8, LuaValue::Integer(3)),
        (num(1.0), num(2.0), ArithOp::ADD as u8, num(3.0)),
        (LuaValue::Integer(1), num(2.0), ArithOp::ADD as u8, num(3.0)),
        (num(2.0), LuaValue::Integer(1), ArithOp::SUB as u8, num(1.0)),
        (LuaValue::Integer(1), num(2.0), ArithOp::SUB as u8, num(-1.0)),
        (LuaValue::Integer(1), LuaValue::Integer(2), ArithOp::SUB as u8, LuaValue::Integer(-1)),
        (LuaValue::Integer(2), LuaValue::Integer(1), ArithOp::MUL as u8, LuaValue::Integer(2)),
        (num(2.0), num(1.0), ArithOp::MUL as u8, num(2.0)),
        (LuaValue::Integer(2), num(1.0), ArithOp::MUL as u8, num(2.0)),
        (LuaValue::Integer(2), LuaValue::Integer(1), ArithOp::MOD as u8, LuaValue::Integer(0)),
        (num(2.0), num(1.0), ArithOp::MOD as u8, num(0.0)),
        (LuaValue::Integer(2), num(1.0), ArithOp::MOD as u8, num(0.0)),
        (num(2.0), LuaValue::Integer(1), ArithOp::MOD as u8, num(0.0)),
        (LuaValue::Integer(2), LuaValue::Integer(1), ArithOp::POW as u8, num(2.0)),
        (num(2.0), num(1.0), ArithOp::POW as u8, num(2.0)),
        (LuaValue::Integer(2), num(1.0), ArithOp::POW as u8, num(2.0)),
        (num(2.0), LuaValue::Integer(1), ArithOp::POW as u8, num(2.0)),
        (num(2.0), LuaValue::Integer(1), ArithOp::DIV as u8, num(2.0)),
        (LuaValue::Integer(2), num(1.0), ArithOp::DIV as u8, num(2.0)),
        (num(2.0), num(1.0), ArithOp::DIV as u8, num(2.0)),
        (LuaValue::Integer(2), LuaValue::Integer(1), ArithOp::IDIV as u8, LuaValue::Integer(2)),
        (num(2.0), num(1.0), ArithOp::IDIV as u8, num(2.0)),
        (LuaValue::Integer(2), num(1.0), ArithOp::IDIV as u8, num(2.0)),
        (num(2.0), LuaValue::Integer(1), ArithOp::IDIV as u8, num(2.0)),
        (LuaValue::Integer(0b10), LuaValue::Integer(0b01), ArithOp::BAND as u8, LuaValue::Integer(0b00)),
        (LuaValue::Integer(0b10), LuaValue::Integer(0b01), ArithOp::BOR as u8, LuaValue::Integer(0b11)),
        (LuaValue::Integer(0b10), LuaValue::Integer(0b01), ArithOp::BXOR as u8, LuaValue::Integer(0b11)),
        (LuaValue::Integer(0b10), LuaValue::Integer(0b01), ArithOp::SHL as u8, LuaValue::Integer(0b100)),
        (LuaValue::Integer(0b10), LuaValue::Integer(0b01), ArithOp::SHR as u8, LuaValue::Integer(0b01)),
        (LuaValue::Integer(2), LuaValue::Integer(1), ArithOp::UNM as u8, LuaValue::Integer(-2)),
        (num(2.0), LuaValue::Integer(1), ArithOp::UNM as u8, num(-2.0)),
        (LuaValue::Integer(0b10), LuaValue::Integer(1), ArithOp::BNOT as u8, LuaValue::Integer(-3)),
    ];
    for case in cases {
        assert_eq!(arith_through(&case.0, &case.1, case.2), Some(case.3.clone()), "{:?}", case);
    }
}

#[test]
fn test_compare_eq() {
    let a = num(10.0);
    let b = num(10.0);
    let op = CmpOp::EQ as u8;
    assert_eq!(compare(&a, &b, op), Some(true));
}

#[test]
fn test_compare_lt() {
    let a = LuaValue::Integer(5);
    let b = num(10.0);
    let op = CmpOp::LT as u8;
    assert_eq!(compare(&a, &b, op), Some(true));
}

#[test]
fn test_compare_le() {
    let a = num(10.0);
    let b = LuaValue::Integer(5);
    let op = CmpOp::LE as u8;
    assert_eq!(compare(&a, &b, op), Some(false));
}

#[test]
fn test_compare_invalid_op() {
    let a = LuaValue::Boolean(true);
    let b = LuaValue::Boolean(false);
    let op = 100;
    assert_eq!(compare(&a, &b, op), None);
}

#[test]
fn lua_table_test_table() {
    let mut tbl = LuaTable::new(10, 10);
    tbl.put(LuaValue::Integer(1), text("2")).unwrap();
    tbl.put(LuaValue::Integer(2), text("3")).unwrap();
    tbl.put(text("hello"), text("world")).unwrap();
    tbl.put(text("foo"), text("bar")).unwrap();
    tbl.put(num(3.14), text("3.14")).unwrap();
    tbl.put(num(1.414), text("1.414")).unwrap();
    assert!(tbl.get(&LuaValue::Integer(1)) == text("2"));
    assert!(tbl.get(&LuaValue::Integer(2)) == text("3"));
    assert!(tbl.get(&text("hello")) == text("world"));
    assert!(tbl.get(&text("foo")) == text("bar"));
    assert!(tbl.get(&num(3.14)) == text("3.14"));
    assert!(tbl.get(&num(1.414)) == text("1.414"));
}

#[test]
fn table_migrates_keys_into_the_array_part() {
    let mut tbl = LuaTable::new(0, 0);
    tbl.put(LuaValue::Integer(2), text("two")).unwrap();
    assert_eq!(tbl.len(), 0);
    assert_eq!(tbl.map.len(), 1);
    tbl.put(LuaValue::Integer(1), text("one")).unwrap();
    assert_eq!(tbl.len(), 2);
    assert_eq!(tbl.map.len(), 0);
    tbl.put(LuaValue::Integer(3), text("three")).unwrap();
    assert_eq!(tbl.len(), 3);
    assert_eq!(tbl.map.len(), 0);
    assert_eq!(tbl.get(&LuaValue::Integer(1)), text("one"));
    assert_eq!(tbl.get(&LuaValue::Integer(2)), text("two"));
    assert_eq!(tbl.get(&LuaValue::Integer(3)), text("three"));
}

#[test]
fn table_put_then_get() {
    let mut tbl = LuaTable::new(0, 0);
    let keys = vec![
        LuaValue::Integer(1),
        LuaValue::Integer(7),
        LuaValue::Integer(-3),
        LuaValue::Boolean(true),
        text("k"),
        num(0.5),
        LuaValue::Table(4),
        LuaValue::Function(2),
    ];
    for (i, k) in keys.iter().enumerate() {
        tbl.put(k.clone(), LuaValue::Integer(i as i64)).unwrap();
        assert_eq!(tbl.get(k), LuaValue::Integer(i as i64));
    }
    for k in keys.iter() {
        tbl.put(k.clone(), LuaValue::Nil).unwrap();
        assert_eq!(tbl.get(k), LuaValue::Nil);
    }
    assert_eq!(tbl.len(), 0);
    assert_eq!(tbl.map.len(), 0);
}

#[test]
fn table_float_key_finds_the_integer_slot() {
    let mut tbl = LuaTable::new(0, 0);
    tbl.put(LuaValue::Integer(5), text("five")).unwrap();
    assert_eq!(tbl.get(&num(5.0)), text("five"));
    tbl.put(num(6.0), text("six")).unwrap();
    assert_eq!(tbl.get(&LuaValue::Integer(6)), text("six"));
    tbl.put(num(1.0), text("one")).unwrap();
    assert_eq!(tbl.len(), 1);
    assert_eq!(tbl.get(&LuaValue::Integer(1)), text("one"));
}

#[test]
fn table_refuses_nil_and_nan_keys() {
    let mut tbl = LuaTable::new(0, 0);
    assert_eq!(tbl.put(LuaValue::Nil, LuaValue::Integer(1)), Err(LuaError::TableError));
    assert_eq!(tbl.put(num(f64::NAN), LuaValue::Integer(1)), Err(LuaError::TableError));
    assert_eq!(tbl.len(), 0);
    assert_eq!(tbl.map.len(), 0);
}

#[test]
fn table_shrinks_when_its_end_becomes_nil() {
    let mut tbl = LuaTable::new(0, 0);
    for i in 1..=4 {
        tbl.put(LuaValue::Integer(i), LuaValue::Integer(10 * i)).unwrap();
    }
    assert_eq!(tbl.len(), 4);
    tbl.put(LuaValue::Integer(3), LuaValue::Nil).unwrap();
    assert_eq!(tbl.len(), 4);
    tbl.put(LuaValue::Integer(4), LuaValue::Nil).unwrap();
    assert_eq!(tbl.len(), 2);
    assert_eq!(tbl.get(&LuaValue::Integer(2)), LuaValue::Integer(20));
    assert_eq!(tbl.get(&LuaValue::Integer(3)), LuaValue::Nil);
}

#[test]
fn float_bits_compare_as_floats_do() {
    let samples = [
        0.0f64,
        -0.0,
        1.0,
        -1.0,
        0.5,
        -2.5,
        1e300,
        -1e300,
        5e-324,
        f64::INFINITY,
        f64::NEG_INFINITY,
        f64::NAN,
    ];
    for a in samples {
        assert_eq!(is_nan(a.to_bits()), a.is_nan());
        assert_eq!(is_zero(a.to_bits()), a == 0.0);
        assert_eq!(f64::from_bits(float_neg(a.to_bits())).to_bits(), (-a).to_bits());
        for b in samples {
            assert_eq!(float_eq(a.to_bits(), b.to_bits()), a == b, "{} == {}", a, b);
            assert_eq!(float_lt(a.to_bits(), b.to_bits()), a < b, "{} < {}", a, b);
            assert_eq!(float_le(a.to_bits(), b.to_bits()), a <= b, "{} <= {}", a, b);
        }
    }
}

#[test]
fn int_to_float_rounds_to_nearest_even() {
    let samples = [
        0i64,
        1,
        -1,
        2,
        3,
        255,
        -256,
        1 << 52,
        (1 << 53) - 1,
        1 << 53,
        (1 << 53) + 1,
        (1 << 53) + 2,
        (1 << 53) + 3,
        (1 << 54) + 2,
        (1 << 54) + 6,
        -((1 << 53) + 1),
        i64::MAX,
        i64::MAX - 1,
        i64::MAX - 511,
        i64::MAX - 512,
        i64::MAX - 1023,
        i64::MIN,
        i64::MIN + 1,
        0x5678,
        1234567890123456789,
        -987654321987654321,
    ];
    for i in samples {
        assert_eq!(int_to_float(i), (i as f64).to_bits(), "{}", i);
    }
}

#[test]
fn float_to_int_gives_the_integers_that_fit() {
    assert_eq!(float_to_integer(0.0f64.to_bits()), Some(0));
    assert_eq!(float_to_integer((-0.0f64).to_bits()), Some(0));
    assert_eq!(float_to_integer(1.0f64.to_bits()), Some(1));
    assert_eq!(float_to_integer((-1.0f64).to_bits()), Some(-1));
    assert_eq!(float_to_integer(3.0f64.to_bits()), Some(3));
    assert_eq!(float_to_integer(3.5f64.to_bits()), None);
    assert_eq!(float_to_integer(0.5f64.to_bits()), None);
    assert_eq!(float_to_integer(5e-324f64.to_bits()), None);
    assert_eq!(float_to_integer(4503599627370496.0f64.to_bits()), Some(1 << 52));
    assert_eq!(float_to_integer(4503599627370496.5f64.to_bits()), Some(1 << 52));
    assert_eq!(float_to_integer(4503599627370497.0f64.to_bits()), Some((1 << 52) + 1));
    assert_eq!(float_to_integer(1e18f64.to_bits()), Some(1_000_000_000_000_000_000));
    assert_eq!(float_to_integer((-9223372036854775808.0f64).to_bits()), Some(i64::MIN));
    assert_eq!(float_to_integer(9223372036854775808.0f64.to_bits()), None);
    assert_eq!(float_to_integer(1e19f64.to_bits()), None);
    assert_eq!(float_to_integer(f64::INFINITY.to_bits()), None);
    assert_eq!(float_to_integer(f64::NEG_INFINITY.to_bits()), None);
    assert_eq!(float_to_integer(f64::NAN.to_bits()), None);
}

#[test]
fn integer_equals_its_float_when_the_round_trip_is_lossless() {
    for n in [0i64, 1, -1, 42, 1 << 53, -(1 << 53), i64::MIN] {
        let f = int_to_float(n);
        assert_eq!(float_to_integer(f), Some(n));
        assert_eq!(compare(&LuaValue::Integer(n), &LuaValue::Number(f), 0), Some(true));
    }
    // 2^53 + 1 has no float of its own: it still equals the float nearest to it
    let n = (1i64 << 53) + 1;
    assert_eq!(float_to_integer(int_to_float(n)), Some(1 << 53));
    assert_eq!(compare(&LuaValue::Integer(n), &LuaValue::Number(int_to_float(n)), 0), Some(true));
}

#[test]
fn parse_integer_reads_signs_and_digits() {
    assert_eq!(parse_integer("0"), Some(0));
    assert_eq!(parse_integer("42"), Some(42));
    assert_eq!(parse_integer("+42"), Some(42));
    assert_eq!(parse_integer("-42"), Some(-42));
    assert_eq!(parse_integer("007"), Some(7));
    assert_eq!(parse_integer("9223372036854775807"), Some(i64::MAX));
    assert_eq!(parse_integer("9223372036854775808"), None);
    assert_eq!(parse_integer("-9223372036854775808"), Some(i64::MIN));
    assert_eq!(parse_integer("-9223372036854775809"), None);
    assert_eq!(parse_integer("99999999999999999999999"), None);
    assert_eq!(parse_integer(""), None);
    assert_eq!(parse_integer("-"), None);
    assert_eq!(parse_integer("+"), None);
    assert_eq!(parse_integer(" 1"), None);
    assert_eq!(parse_integer("1 "), None);
    assert_eq!(parse_integer("1.0"), None);
    assert_eq!(parse_integer("0x10"), None);
    assert_eq!(parse_integer("--1"), None);
    for s in ["0", "42", "+42", "-42", "007", "", "-", "1.0", "9223372036854775808"] {
        assert_eq!(parse_integer(s), s.parse::<i64>().ok(), "{:?}", s);
    }
}

#[test]
fn string_to_integer_falls_back_on_the_parsed_float() {
    assert_eq!(string_to_integer(&"12".to_string(), None), Some(12));
    assert_eq!(string_to_integer(&"12".to_string(), Some(99.0f64.to_bits())), Some(12));
    assert_eq!(string_to_integer(&"3.0".to_string(), Some(3.0f64.to_bits())), Some(3));
    assert_eq!(string_to_integer(&"3.5".to_string(), Some(3.5f64.to_bits())), None);
    assert_eq!(string_to_integer(&"abc".to_string(), None), None);
}

#[test]
fn value_coercions() {
    assert!(!LuaValue::Nil.to_boolean());
    assert!(!LuaValue::Boolean(false).to_boolean());
    assert!(LuaValue::Boolean(true).to_boolean());
    assert!(LuaValue::Integer(0).to_boolean());
    assert!(num(0.0).to_boolean());
    assert!(text("").to_boolean());
    assert_eq!(LuaValue::Integer(3).to_number(None), Some(3.0f64.to_bits()));
    assert_eq!(num(2.5).to_number(None), Some(2.5f64.to_bits()));
    assert_eq!(text("2.5").to_number(Some(2.5f64.to_bits())), Some(2.5f64.to_bits()));
    assert_eq!(text("x").to_number(None), None);
    assert_eq!(LuaValue::Nil.to_number(Some(1)), None);
    assert_eq!(LuaValue::Integer(3).to_integer(None), Some(3));
    assert_eq!(num(3.0).to_integer(None), Some(3));
    assert_eq!(num(3.25).to_integer(None), None);
    assert_eq!(text("8").to_integer(None), Some(8));
    assert_eq!(LuaValue::Boolean(true).to_integer(None), None);
    assert_eq!(LuaValue::Nil.type_id(), Type::Nil.id());
    assert_eq!(LuaValue::Integer(1).type_id(), Type::Number.id());
    assert_eq!(num(1.0).type_id(), Type::Number.id());
    assert_eq!(text("s").type_id(), Type::String.id());
    assert_eq!(LuaValue::Table(0).type_id(), Type::Table.id());
    assert_eq!(LuaValue::Function(0).type_id(), Type::Function.id());
    assert!(LuaValue::Nil.is_nil());
    assert!(!LuaValue::Boolean(false).is_nil());
}

#[test]
fn arithmetic_on_integers_wraps_and_floors() {
    let i = LuaValue::Integer;
    assert_eq!(arith_through(&i(i64::MAX), &i(1), 0), Some(i(i64::MIN)));
    assert_eq!(arith_through(&i(i64::MIN), &i(1), 1), Some(i(i64::MAX)));
    assert_eq!(arith_through(&i(i64::MAX), &i(2), 2), Some(i(-2)));
    assert_eq!(arith_through(&i(-7), &i(2), 6), Some(i(-4)));
    assert_eq!(arith_through(&i(-7), &i(2), 3), Some(i(1)));
    assert_eq!(arith_through(&i(7), &i(-2), 6), Some(i(-4)));
    assert_eq!(arith_through(&i(7), &i(-2), 3), Some(i(-1)));
    assert_eq!(arith_through(&i(i64::MIN), &i(-1), 6), Some(i(i64::MIN)));
    assert_eq!(arith_through(&i(i64::MIN), &i(-1), 3), Some(i(0)));
    assert_eq!(arith_through(&i(1), &i(0), 6), None);
    assert_eq!(arith_through(&i(1), &i(0), 3), None);
    assert_eq!(arith_through(&i(i64::MIN), &i(0), 12), Some(i(i64::MIN)));
    assert_eq!(arith_through(&i(1), &i(64), 10), Some(i(0)));
    assert_eq!(arith_through(&i(1), &i(-64), 10), Some(i(0)));
    assert_eq!(arith_through(&i(-8), &i(1), 11), Some(i(-4)));
    assert_eq!(arith_through(&i(1), &i(2), 14), None);
}

#[test]
fn arithmetic_coerces_strings() {
    assert_eq!(arith_through(&text("3.0"), &num(4.0), 0), Some(num(7.0)));
    assert_eq!(arith_through(&text("10"), &LuaValue::Integer(3), 7), Some(LuaValue::Integer(2)));
    assert_eq!(arith_through(&text("3.0"), &text("5"), 8), Some(LuaValue::Integer(7)));
    assert_eq!(arith_through(&text("3.5"), &text("5"), 8), None);
    assert_eq!(arith_through(&text("x"), &LuaValue::Integer(1), 0), None);
    assert_eq!(arith_through(&text("2"), &text("2"), 12), Some(num(-2.0)));
    assert_eq!(arith_through(&LuaValue::Nil, &LuaValue::Integer(1), 0), None);
    assert_eq!(arith_through(&num(2.5), &LuaValue::Integer(1), 7), None);
    assert_eq!(arith_through(&num(2.0), &LuaValue::Integer(1), 7), Some(LuaValue::Integer(0)));
}

#[test]
fn arithmetic_requests_name_the_operands() {
    match arith(&LuaValue::Integer(1), &num(2.0), 0, None) {
        Outcome::Request(FloatRequest::Arith { op, x, y }) => {
            assert_eq!(op, 0);
            assert_eq!(as_float(&x), Some(1.0));
            assert_eq!(as_float(&y), Some(2.0));
        }
        other => panic!("{:?}", other),
    }
    match arith(&text("7"), &num(2.0), 4, None) {
        Outcome::Request(FloatRequest::Arith { op, x, y }) => {
            assert_eq!(op, 4);
            assert!(matches!(x, Operand::Text(ref s) if s == "7"));
            assert_eq!(as_float(&y), Some(2.0));
        }
        other => panic!("{:?}", other),
    }
}

#[test]
fn comparisons_order_numbers_and_strings() {
    let i = LuaValue::Integer;
    assert_eq!(compare(&i(1), &i(2), 1), Some(true));
    assert_eq!(compare(&i(2), &i(2), 1), Some(false));
    assert_eq!(compare(&i(2), &i(2), 2), Some(true));
    assert_eq!(compare(&i(3), &i(2), 3), Some(true));
    assert_eq!(compare(&i(2), &i(2), 4), Some(true));
    assert_eq!(compare(&i(1), &num(1.5), 1), Some(true));
    assert_eq!(compare(&num(1.5), &i(1), 1), Some(false));
    assert_eq!(compare(&num(f64::NAN), &num(f64::NAN), 0), Some(false));
    assert_eq!(compare(&num(f64::NAN), &num(1.0), 2), Some(false));
    assert_eq!(compare(&num(0.0), &num(-0.0), 0), Some(true));
    assert_eq!(compare(&text("a"), &text("b"), 1), Some(true));
    assert_eq!(compare(&text("a"), &text("ab"), 1), Some(true));
    assert_eq!(compare(&text("ab"), &text("a"), 1), Some(false));
    assert_eq!(compare(&text("a"), &text("a"), 2), Some(true));
    assert_eq!(compare(&text(""), &text(""), 1), Some(false));
    assert_eq!(compare(&text("Z"), &text("a"), 1), Some(true));
    assert_eq!(compare(&text("a"), &i(1), 1), None);
    assert_eq!(compare(&LuaValue::Nil, &LuaValue::Nil, 1), None);
    assert_eq!(compare(&LuaValue::Nil, &LuaValue::Nil, 0), Some(true));
    assert_eq!(compare(&LuaValue::Nil, &LuaValue::Boolean(false), 0), Some(false));
    assert_eq!(compare(&LuaValue::Table(1), &LuaValue::Table(1), 0), Some(true));
    assert_eq!(compare(&LuaValue::Table(1), &LuaValue::Table(2), 0), Some(false));
    assert_eq!(compare(&LuaValue::Function(3), &LuaValue::Function(3), 0), Some(true));
    assert_eq!(compare(&text("1"), &i(1), 0), Some(false));
    for (a, b) in [("", "a"), ("abc", "abd"), ("abc", "ab"), ("b", "abc"), ("é", "z")] {
        assert_eq!(compare(&text(a), &text(b), 1), Some(a < b));
        assert_eq!(compare(&text(a), &text(b), 2), Some(a <= b));
    }
}

#[test]
fn integers_are_written_in_decimal() {
    for i in [0i64, 7, 10, -1, 123456789, i64::MAX, i64::MIN] {
        assert_eq!(int_to_string(i), i.to_string());
    }
}

#[test]
fn text_of_values() {
    assert!(matches!(to_text(&text("s"), None), Outcome::Value(LuaValue::Str(ref s)) if s == "s"));
    assert!(matches!(to_text(&LuaValue::Integer(-12), None), Outcome::Value(LuaValue::Str(ref s)) if s == "-12"));
    assert!(matches!(to_text(&LuaValue::Nil, None), Outcome::Fail));
    let req = match to_text(&num(1.5), None) {
        Outcome::Request(req) => req,
        other => panic!("{:?}", other),
    };
    assert!(matches!(req, FloatRequest::Format { x } if x == 1.5f64.to_bits()));
    let ans = answer(&req);
    assert!(matches!(to_text(&num(1.5), Some(&ans)), Outcome::Value(LuaValue::Str(ref s)) if s == "1.5"));
}

#[test]
fn values_are_joined() {
    let mut ops = vec![text("a"), LuaValue::Integer(1), text("b")];
    assert!(matches!(concat_values(&mut ops, None), Outcome::Value(LuaValue::Str(ref s)) if s == "a1b"));
    let mut ops = vec![text("a"), LuaValue::Boolean(true)];
    assert!(matches!(concat_values(&mut ops, None), Outcome::Fail));
    let mut ops = vec![num(1.5), text("-"), num(2.5)];
    let req = match concat_values(&mut ops, None) {
        Outcome::Request(req) => req,
        other => panic!("{:?}", other),
    };
    let ans = answer(&req);
    let req = match concat_values(&mut ops, Some(&ans)) {
        Outcome::Request(req) => req,
        other => panic!("{:?}", other),
    };
    assert_eq!(ops[0], text("1.5"));
    let ans = answer(&req);
    assert!(matches!(concat_values(&mut ops, Some(&ans)), Outcome::Value(LuaValue::Str(ref s)) if s == "1.5-2.5"));
    let mut none: Vec<LuaValue> = Vec::new();
    assert!(matches!(concat_values(&mut none, None), Outcome::Value(LuaValue::Str(ref s)) if s.is_empty()));
}

#[test]
fn codes_of_operators_and_types() {
    for code in 0..=13u8 {
        assert_eq!(ArithOp::from_u8(code).unwrap().to_u8(), code);
    }
    assert_eq!(ArithOp::from_u8(14), None);
    assert_eq!(ArithOp::from_u8(4), Some(ArithOp::POW));
    for code in 0..=4u8 {
        assert_eq!(CmpOp::from_u8(code).unwrap().to_u8(), code);
    }
    assert_eq!(CmpOp::from_u8(5), None);
    for id in -1..=12i8 {
        assert_eq!(Type::from_i8(id).unwrap().id(), id);
    }
    assert_eq!(Type::from_i8(13), None);
    assert_eq!(Type::from_i8(-2), None);
    assert_eq!(Type::from_i8(3), Some(Type::Number));
    assert_eq!(Type::from_i8(-1), Some(Type::NoValue));
    assert_eq!(VType::from_u8(0x13), Some(VType::VNumFlt));
    assert_eq!(VType::from_u8(0x03), Some(VType::VNumInt));
    assert_eq!(VType::from_u8(0x14), Some(VType::VLngStr));
    assert_eq!(VType::from_u8(0x04), Some(VType::VShrStr));
    assert_eq!(VType::from_u8(0x11), Some(VType::VTrue));
    assert_eq!(VType::from_u8(0x26), Some(VType::VCCL));
    assert_eq!(VType::from_u8(0x30), None);
    assert_eq!(VType::from_u8(0xff), None);
    assert_eq!(lua_vm::api::types::make_variant(Type::Number, 1), 0x13);
    assert_eq!(lua_vm::api::types::make_variant(Type::Function, 2), 0x26);
}

#[test]
fn errors_have_messages() {
    assert_eq!(LuaError::ArithError.message(), "ArithError: operand cannot be coerced");
    assert_eq!(LuaError::IndexError.message(), "IndexError: stack index out of range");
    assert_eq!(
        LuaError::HeaderMismatch(HeaderField::Version).message(),
        "HeaderMismatch: version mismatch"
    );
    for e in [
        LuaError::HeaderMismatch(HeaderField::Signature),
        LuaError::CorruptChunk,
        LuaError::ArithError,
        LuaError::CompareError,
        LuaError::IndexError,
        LuaError::TableError,
        LuaError::TypeError,
        LuaError::LoadError,
    ] {
        let m = e.message();
        let kind = format!("{:?}", e);
        let kind = kind.split('(').next().unwrap().to_string();
        assert!(m.starts_with(&format!("{}: ", kind)), "{}", m);
    }
}

/// A sequence of numbers that looks random and is the same in every run.
fn scramble(state: &mut u64) -> u64 {
    *state ^= *state << 13;
    *state ^= *state >> 7;
    *state ^= *state << 17;
    *state
}

#[test]
fn float_bits_agree_with_floats_on_many_values() {
    let mut state = 0x2545_f491_4f6c_dd1d;
    for round in 0..20_000 {
        let a = scramble(&mut state);
        let b = if round % 3 == 0 { a ^ (1 << (round % 64)) } else { scramble(&mut state) };
        let (x, y) = (f64::from_bits(a), f64::from_bits(b));
        assert_eq!(float_eq(a, b), x == y);
        assert_eq!(float_lt(a, b), x < y);
        assert_eq!(float_le(a, b), x <= y);
        assert_eq!(is_nan(a), x.is_nan());
        let i = a as i64 >> (round % 64);
        assert_eq!(int_to_float(i), (i as f64).to_bits(), "{}", i);
        let expected = if x.is_finite() && x.fract() == 0.0 && x >= -9223372036854775808.0 && x < 9223372036854775808.0 {
            Some(x as i64)
        } else {
            None
        };
        assert_eq!(float_to_integer(a), expected, "{}", x);
        let whole = (i as f64).to_bits();
        assert_eq!(float_to_integer(whole).is_some(), (i as f64) < 9223372036854775808.0);
    }
}

#[test]
fn table_agrees_with_a_map_on_many_operations() {
    let mut state = 0x9e37_79b9_7f4a_7c15;
    let mut tbl = LuaTable::new(0, 0);
    let mut model: std::collections::BTreeMap<i64, i64> = std::collections::BTreeMap::new();
    for _ in 0..5_000 {
        let k = (scramble(&mut state) % 24) as i64 - 2;
        let v = (scramble(&mut state) % 4) as i64;
        let key = if scramble(&mut state) % 2 == 0 { LuaValue::Integer(k) } else { num(k as f64) };
        if v == 0 {
            tbl.put(key, LuaValue::Nil).unwrap();
            model.remove(&k);
        } else {
            tbl.put(key, LuaValue::Integer(v)).unwrap();
            model.insert(k, v);
        }
        for q in -3..25i64 {
            let expected = model.get(&q).map(|v| LuaValue::Integer(*v)).unwrap_or(LuaValue::Nil);
            assert_eq!(tbl.get(&LuaValue::Integer(q)), expected);
        }
        // the array part ends in a value, and the key behind it is absent from the hash part
        let len = tbl.len();
        if len > 0 {
            assert!(model.contains_key(&(len as i64)));
        }
        assert!(tbl.map.iter().all(|e| match e.key {
            LuaValue::Integer(i) => i < 1 || i > len as i64 + 1,
            _ => false,
        }));
        let dense = (1..=len as i64).all(|i| model.contains_key(&i));
        if dense {
            assert!(!model.contains_key(&(len as i64 + 1)));
        }
    }
}
