use lua_vm::api::op::{ArithOp, CmpOp};
use lua_vm::api::types::Type;
use lua_vm::api::{LuaAPI, LuaVM};
use lua_vm::binary::chunk::Prototype;
use lua_vm::error::LuaError;
use lua_vm::state::arith_ops::{FloatAnswer, FloatRequest, Operand, Outcome};
use lua_vm::state::lua_state::{LuaState, Step};
use lua_vm::state::lua_value::LuaValue;
use lua_vm::state::{new_lua_state, new_lua_state_with_proto};
use std::rc::Rc;

fn as_float(o: &Operand) -> Option<f64> {
    match o {
        Operand::Float(bits) => Some(f64::from_bits(*bits)),
        Operand::Text(s) => s.parse::<f64>().ok(),
    }
}

fn answer(req: &FloatRequest) -> FloatAnswer {
    match req {
        FloatRequest::Arith { op, x, y } => {
            let (fx, fy) = (as_float(x), as_float(y));
            let value = match (fx, fy) {
                (Some(a), Some(b)) => match *op {
                    0 => a + b,
                    1 => a - b,
                    2 => a * b,
                    3 => a - b * (a / b).floor(),
                    4 => a.powf(b),
                    5 => a / b,
                    6 => (a / b).floor(),
                    12 => -a,
                    _ => 0.0,
                },
                _ => 0.0,
            };
            FloatAnswer {
                x: fx.map(f64::to_bits),
                y: fy.map(f64::to_bits),
                value: value.to_bits(),
                text: String::new(),
            }
        }
        FloatRequest::Format { x } => FloatAnswer {
            x: None,
            y: None,
            value: 0,
            text: f64::from_bits(*x).to_string(),
        },
    }
}

fn arith(ls: &mut LuaState, op: u8) -> Result<(), LuaError> {
    let mut ans: Option<FloatAnswer> = None;
    loop {
        match ls.arith(op, ans.as_ref())? {
            None => return Ok(()),
            Some(req) => ans = Some(answer(&req)),
        }
    }
}

fn concat(ls: &mut LuaState, n: isize) -> Result<(), LuaError> {
    let mut ans: Option<FloatAnswer> = None;
    loop {
        match ls.concat(n, ans.as_ref())? {
            None => return Ok(()),
            Some(req) => ans = Some(answer(&req)),
        }
    }
}

fn string_at(ls: &LuaState, idx: isize) -> Option<String> {
    match ls.to_stringx(idx, None) {
        Outcome::Value(LuaValue::Str(s)) => Some(s),
        Outcome::Request(req) => match ls.to_stringx(idx, Some(&answer(&req))) {
            Outcome::Value(LuaValue::Str(s)) => Some(s),
            _ => None,
        },
        _ => None,
    }
}

fn number_at(ls: &LuaState, idx: isize) -> f64 {
    f64::from_bits(ls.to_number(idx).unwrap())
}

fn show(ls: &LuaState) -> String {
    let mut out = String::new();
    let top = ls.get_top();
    for i in 1..top + 1 {
        let t = ls.type_id(i);
        match Type::from_i8(t) {
            Some(Type::Boolean) => out.push_str(&format!("[{}]", ls.to_boolean(i))),
            Some(Type::Number) => out.push_str(&format!("[{}]", number_at(ls, i))),
            Some(Type::String) => out.push_str(&format!("[{:?}]", string_at(ls, i).unwrap())),
            _ => out.push_str(&format!("[{}]", ls.name_of_type(t))),
        }
    }
    out
}

#[test]
fn test_lua_state() {
    let mut ls = new_lua_state_with_proto(Rc::new(Prototype::default()));
    ls.push_boolean(true);
    assert_eq!(show(&ls), "[true]");
    ls.push_integer(10);
    assert_eq!(show(&ls), "[true][10]");
    ls.push_nil();
    assert_eq!(show(&ls), "[true][10][nil]");
    ls.push_string("hello".to_string());
    assert_eq!(show(&ls), "[true][10][nil][\"hello\"]");
    ls.push_value(-4);
    assert_eq!(show(&ls), "[true][10][nil][\"hello\"][true]");
    ls.replace(3).unwrap();
    assert_eq!(show(&ls), "[true][10][true][\"hello\"]");
    ls.set_top(6).unwrap();
    assert_eq!(show(&ls), "[true][10][true][\"hello\"][nil][nil]");
    ls.remove(-3).unwrap();
    assert_eq!(show(&ls), "[true][10][true][nil][nil]");
    ls.set_top(-5).unwrap();
    assert_eq!(show(&ls), "[true]");
}

#[test]
fn test_is_none_or_nil() {
    let mut lua_state = LuaState::new();
    lua_state.push_nil();
    assert_eq!(lua_state.is_none_or_nil(lua_state.get_top()), true);
    lua_state.push_boolean(false);
    assert_eq!(lua_state.is_none_or_nil(lua_state.get_top()), false);
}

#[test]
fn test_is_boolean() {
    let mut lua_state = LuaState::new();
    lua_state.push_nil();
    assert_eq!(lua_state.is_boolean(lua_state.get_top()), false);
    lua_state.push_boolean(false);
    assert_eq!(lua_state.is_boolean(lua_state.get_top()), true);
}

#[test]
fn test_is_integer() {
    let mut lua_state = LuaState::new();
    lua_state.push_nil();
    assert_eq!(lua_state.is_integer(lua_state.get_top()), false);
    lua_state.push_integer(1);
    assert_eq!(lua_state.is_integer(lua_state.get_top()), true);
}

#[test]
fn test_is_number() {
    let mut lua_state = LuaState::new();
    lua_state.push_nil();
    assert_eq!(lua_state.is_number(lua_state.get_top()), false);
    lua_state.push_number((1 as f64).to_bits());
    assert_eq!(lua_state.is_number(lua_state.get_top()), true);
}

#[test]
fn test_is_string() {
    let mut lua_state = LuaState::new();
    lua_state.push_nil();
    assert_eq!(lua_state.is_string(lua_state.get_top()), false);
    lua_state.push_string("hello".to_string());
    assert_eq!(lua_state.is_string(lua_state.get_top()), true);
}

#[test]
fn test_to_boolean() {
    let mut lua_state = LuaState::new();
    lua_state.push_boolean(false);
    assert_eq!(lua_state.to_boolean(lua_state.get_top()), false);
    lua_state.push_boolean(true);
    assert_eq!(lua_state.to_boolean(lua_state.get_top()), true);
}

#[test]
fn test_to_integer() {
    let mut lua_state = LuaState::new();
    lua_state.push_integer(1);
    assert_eq!(lua_state.to_integer(lua_state.get_top()), Ok(1));
}

#[test]
fn test_to_integerx() {
    let mut lua_state = LuaState::new();
    lua_state.push_integer(1);
    assert_eq!(lua_state.to_integerx(lua_state.get_top()), Some(1));
    lua_state.push_integer(2);
    assert_eq!(lua_state.to_integerx(lua_state.get_top()), Some(2));
    lua_state.push_nil();
    assert_eq!(lua_state.to_integerx(lua_state.get_top()), None);
}

#[test]
fn test_to_number() {
    let mut lua_state = LuaState::new();
    lua_state.push_number((1 as f64).to_bits());
    assert_eq!(number_at(&lua_state, lua_state.get_top()), 1 as f64);
}

#[test]
fn test_to_numberx() {
    let mut lua_state = LuaState::new();
    lua_state.push_number((1 as f64).to_bits());
    assert_eq!(lua_state.to_numberx(lua_state.get_top()).map(f64::from_bits), Some(1 as f64));
    lua_state.push_number((2 as f64).to_bits());
    assert_eq!(lua_state.to_numberx(lua_state.get_top()).map(f64::from_bits), Some(2 as f64));
    lua_state.push_nil();
    assert_eq!(lua_state.to_numberx(lua_state.get_top()), None);
}

#[test]
fn test_to_string() {
    let mut lua_state = LuaState::new();
    lua_state.push_string("hello".to_string());
    assert_eq!(string_at(&lua_state, lua_state.get_top()).unwrap(), "hello");
    assert!(matches!(
        lua_state.to_string(lua_state.get_top(), None),
        Ok(Outcome::Value(LuaValue::Str(ref s))) if s == "hello"
    ));
}

#[test]
fn test_to_stringx() {
    let mut lua_state = LuaState::new();
    lua_state.push_string("hello".to_string());
    assert_eq!(string_at(&lua_state, lua_state.get_top()), Some("hello".to_string()));
    lua_state.push_nil();
    assert_eq!(string_at(&lua_state, 2), None);
    assert!(matches!(lua_state.to_stringx(2, None), Outcome::Fail));
    assert!(matches!(lua_state.to_string(2, None), Err(LuaError::TypeError)));
}

#[test]
fn test_push_nil() {
    let mut lua_state = LuaState::new();
    lua_state.push_nil();
    assert_eq!(lua_state.type_id(lua_state.get_top()), Type::Nil.id());
}

#[test]
fn test_push_boolean() {
    let mut lua_state = LuaState::new();
    lua_state.push_boolean(true);
    assert_eq!(lua_state.type_id(lua_state.get_top()), Type::Boolean.id());
}

#[test]
fn test_push_integer() {
    let mut lua_state = LuaState::new();
    lua_state.push_integer(42);
    assert_eq!(lua_state.type_id(lua_state.get_top()), Type::Number.id());
}

#[test]
fn test_push_number() {
    let mut lua_state = LuaState::new();
    lua_state.push_number(3.14f64.to_bits());
    assert_eq!(lua_state.type_id(lua_state.get_top()), Type::Number.id());
}

#[test]
fn test_push_string() {
    let mut lua_state = LuaState::new();
    lua_state.push_string("hello".to_string());
    assert_eq!(lua_state.type_id(lua_state.get_top()), Type::String.id());
}

#[test]
fn lua_state_test_arith() {
    let mut lua_state = LuaState::new();
    lua_state.push_integer(1);
    lua_state.push_integer(2);
    arith(&mut lua_state, ArithOp::ADD as u8).unwrap();
    assert_eq!(lua_state.to_integer(lua_state.get_top()), Ok(3));
}

#[test]
fn test_compare() {
    let mut lua_state = LuaState::new();
    lua_state.push_integer(1);
    lua_state.push_integer(2);
    assert_eq!(lua_state.compare(-1, -2, 0), Ok(false));
}

#[test]
fn test_len() {
    let mut lua_state = LuaState::new();
    lua_state.push_string("hello".to_string());
    lua_state.len(lua_state.get_top()).unwrap();
    assert_eq!(lua_state.to_integer(lua_state.get_top()), Ok(5));
}

#[test]
fn test_clac() {
    let mut ls = LuaState::new();

    ls.push_integer(1);
    ls.push_string("2.0".to_string());
    ls.push_string("3.0".to_string());
    ls.push_number(4.0f64.to_bits());
    assert_eq!(show(&ls), "[1][\"2.0\"][\"3.0\"][4]");

    arith(&mut ls, ArithOp::ADD as u8).unwrap();
    assert_eq!(show(&ls), "[1][\"2.0\"][7]");
    assert_eq!(ls.get_top(), 3);
    assert!(!ls.is_integer(3));
    assert_eq!(number_at(&ls, 3), 7.0);
    arith(&mut ls, ArithOp::BNOT as u8).unwrap();
    assert_eq!(show(&ls), "[1][\"2.0\"][-8]");
    ls.len(2).unwrap();
    assert_eq!(show(&ls), "[1][\"2.0\"][-8][3]");
    concat(&mut ls, 3).unwrap();
    assert_eq!(show(&ls), "[1][\"2.0-83\"]");
    let x = ls.compare(1, 2, CmpOp::EQ as u8).unwrap();
    ls.push_boolean(x);
    assert_eq!(show(&ls), "[1][\"2.0-83\"][false]");
}

#[test]
fn test_lua_state_new() {
    let lua_state = LuaState::new();
    assert_eq!(lua_state.pc(), 0);
    assert_eq!(lua_state.stack().top(), 0);
}

#[test]
fn test_lua_state_pc() {
    let lua_state = LuaState::new();
    assert_eq!(lua_state.pc(), 0);
}

#[test]
fn test_lua_state_add_pc() {
    let mut lua_state = LuaState::new();
    lua_state.add_pc(5).unwrap();
    assert_eq!(lua_state.pc(), 5);
}

#[test]
fn test_lua_state_table() {
    let mut ls = LuaState::new();
    ls.new_table();
    ls.push_integer(1);
    ls.push_integer(2);
    ls.set_table(1).unwrap();
    ls.push_integer(1);
    ls.get_table(1).unwrap();
    assert_eq!(ls.to_integer(-1), Ok(2));
}

#[test]
fn index_validity() {
    let mut ls = new_lua_state();
    for i in 1..=4 {
        ls.push_integer(i);
    }
    for i in 1..=4 {
        assert_eq!(ls.type_id(i), Type::Number.id());
        assert_eq!(ls.to_integer(i), Ok(i as i64));
        assert!(!ls.is_none(i));
    }
    for i in [0, 5, 6, -5, -6, isize::MAX, isize::MIN] {
        assert_eq!(ls.type_id(i), Type::NoValue.id());
        assert_eq!(ls.type_id(i), -1);
        assert!(ls.is_none(i));
    }
    for k in 1..=4 {
        assert_eq!(ls.abs_index(-k), ls.get_top() - k + 1);
    }
}

#[test]
fn push_round_trips() {
    let mut ls = new_lua_state();
    for n in [0, 1, -1, i64::MAX, i64::MIN] {
        ls.push_integer(n);
        assert_eq!(ls.to_integer(-1), Ok(n));
        assert_eq!(ls.to_integerx(-1), Some(n));
    }
    for x in [0.0f64, -0.0, 1.5, f64::INFINITY, f64::MIN_POSITIVE] {
        ls.push_number(x.to_bits());
        assert_eq!(ls.to_number(-1), Ok(x.to_bits()));
    }
    ls.push_number(f64::NAN.to_bits());
    assert!(number_at(&ls, -1).is_nan());
    for b in [true, false] {
        ls.push_boolean(b);
        assert_eq!(ls.to_boolean(-1), b);
        assert!(ls.is_boolean(-1));
    }
    for s in ["", "hello", "za\u{17c}\u{f3}\u{142}\u{107}", "a\0b"] {
        ls.push_string(s.to_string());
        assert_eq!(string_at(&ls, -1), Some(s.to_string()));
    }
    ls.push_nil();
    assert!(ls.is_nil(-1));
}

#[test]
fn arithmetic_promotes_to_doubles() {
    let mut ls = new_lua_state();
    ls.push_integer(1);
    ls.push_string("2.0".to_string());
    ls.push_string("3.0".to_string());
    ls.push_number(4.0f64.to_bits());
    let req = ls.arith(ArithOp::ADD as u8, None).unwrap().unwrap();
    assert_eq!(ls.get_top(), 4);
    match &req {
        FloatRequest::Arith { op, x, y } => {
            assert_eq!(*op, 0);
            assert!(matches!(x, Operand::Text(s) if s == "3.0"));
            assert!(matches!(y, Operand::Float(b) if *b == 4.0f64.to_bits()));
        }
        other => panic!("{:?}", other),
    }
    assert!(ls.arith(ArithOp::ADD as u8, Some(&answer(&req))).unwrap().is_none());
    assert_eq!(ls.get_top(), 3);
    assert_eq!(ls.to_integerx(1), Some(1));
    assert_eq!(string_at(&ls, 2), Some("2.0".to_string()));
    assert!(!ls.is_integer(3));
    assert_eq!(ls.to_number(3), Ok(7.0f64.to_bits()));
}

#[test]
fn strings_are_joined() {
    let mut ls = new_lua_state();
    ls.push_string("a".to_string());
    ls.push_string("b".to_string());
    ls.push_string("c".to_string());
    concat(&mut ls, 3).unwrap();
    assert_eq!(ls.get_top(), 1);
    assert_eq!(string_at(&ls, -1), Some("abc".to_string()));
}

#[test]
fn concat_edge_cases() {
    let mut ls = new_lua_state();
    concat(&mut ls, 0).unwrap();
    assert_eq!(string_at(&ls, -1), Some(String::new()));
    ls.push_integer(5);
    concat(&mut ls, 1).unwrap();
    assert_eq!(ls.get_top(), 2);
    assert_eq!(ls.to_integerx(-1), Some(5));
    assert_eq!(ls.concat(3, None), Err(LuaError::IndexError));
    ls.push_boolean(true);
    assert_eq!(ls.concat(2, None), Err(LuaError::TypeError));
    assert_eq!(ls.get_top(), 3);
    ls.pop(1).unwrap();
    ls.push_number(1.5f64.to_bits());
    ls.push_string("x".to_string());
    concat(&mut ls, 3).unwrap();
    assert_eq!(string_at(&ls, -1), Some("51.5x".to_string()));
    assert_eq!(ls.get_top(), 2);
}

#[test]
fn arithmetic_errors_leave_the_stack() {
    let mut ls = new_lua_state();
    assert_eq!(ls.arith(0, None), Err(LuaError::IndexError));
    ls.push_integer(1);
    assert_eq!(ls.arith(0, None), Err(LuaError::IndexError));
    ls.push_nil();
    assert_eq!(ls.arith(0, None), Err(LuaError::ArithError));
    assert_eq!(ls.get_top(), 2);
    assert_eq!(ls.arith(12, None), Err(LuaError::ArithError));
    ls.pop(1).unwrap();
    assert!(ls.arith(12, None).unwrap().is_none());
    assert_eq!(ls.to_integerx(-1), Some(-1));
    ls.push_integer(0);
    assert_eq!(ls.arith(6, None), Err(LuaError::ArithError));
    assert_eq!(ls.arith(99, None), Err(LuaError::ArithError));
    assert_eq!(ls.get_top(), 2);
}

#[test]
fn comparison_errors() {
    let mut ls = new_lua_state();
    ls.push_integer(1);
    ls.push_string("a".to_string());
    assert_eq!(ls.compare(1, 2, 1), Err(LuaError::CompareError));
    assert_eq!(ls.compare(1, 2, 0), Ok(false));
    assert_eq!(ls.compare(1, 3, 1), Ok(false));
    assert_eq!(ls.compare(1, 1, 9), Err(LuaError::CompareError));
    assert_eq!(ls.compare(1, 1, 2), Ok(true));
    assert_eq!(ls.compare(1, 1, 3), Ok(false));
    assert_eq!(ls.compare(1, 1, 4), Ok(true));
}

#[test]
fn stack_operations_of_the_state() {
    let mut ls = new_lua_state();
    for i in 1..=5 {
        ls.push_integer(i);
    }
    ls.insert(2).unwrap();
    assert_eq!(show(&ls), "[1][5][2][3][4]");
    ls.remove(2).unwrap();
    assert_eq!(show(&ls), "[1][2][3][4]");
    ls.copy(1, 4).unwrap();
    assert_eq!(show(&ls), "[1][2][3][1]");
    assert_eq!(ls.copy(1, 5), Err(LuaError::IndexError));
    ls.copy(9, 1).unwrap();
    assert_eq!(show(&ls), "[nil][2][3][1]");
    ls.rotate(1, 1).unwrap();
    ls.rotate(1, -1).unwrap();
    assert_eq!(show(&ls), "[nil][2][3][1]");
    assert_eq!(ls.replace(4), Err(LuaError::IndexError));
    assert_eq!(show(&ls), "[nil][2][3][1]");
    ls.replace(-1).unwrap();
    assert_eq!(show(&ls), "[nil][2][1]");
    assert_eq!(ls.pop(4), Err(LuaError::IndexError));
    ls.pop(3).unwrap();
    assert_eq!(ls.get_top(), 0);
    assert_eq!(ls.replace(1), Err(LuaError::IndexError));
    assert_eq!(ls.remove(1), Err(LuaError::IndexError));
    assert_eq!(ls.insert(1), Err(LuaError::IndexError));
    assert_eq!(ls.set_top(-1), Ok(()));
    assert_eq!(ls.set_top(-2), Err(LuaError::IndexError));
    assert!(ls.check_stack(100));
    assert!(!ls.check_stack(2_000_000));
}

#[test]
fn type_names() {
    let ls = new_lua_state();
    assert_eq!(ls.name_of_type(-1), "no value");
    assert_eq!(ls.name_of_type(0), "nil");
    assert_eq!(ls.name_of_type(1), "boolean");
    assert_eq!(ls.name_of_type(3), "number");
    assert_eq!(ls.name_of_type(4), "string");
    assert_eq!(ls.name_of_type(5), "table");
    assert_eq!(ls.name_of_type(6), "function");
    assert_eq!(ls.name_of_type(8), "thread");
}

#[test]
fn tables_and_globals() {
    let mut ls = new_lua_state();
    ls.create_table(4, 4);
    assert!(ls.is_table(1));
    ls.push_string("v".to_string());
    ls.set_field(1, "k").unwrap();
    assert_eq!(ls.get_top(), 1);
    assert_eq!(ls.get_field(1, "k"), Ok(Type::String.id()));
    assert_eq!(string_at(&ls, -1), Some("v".to_string()));
    assert_eq!(ls.get_field(1, "absent"), Ok(Type::Nil.id()));
    ls.pop(2).unwrap();
    ls.push_integer(10);
    ls.set_i(1, 1).unwrap();
    ls.push_integer(20);
    ls.set_i(1, 2).unwrap();
    assert_eq!(ls.get_i(1, 2), Ok(Type::Number.id()));
    assert_eq!(ls.to_integerx(-1), Some(20));
    ls.len(1).unwrap();
    assert_eq!(ls.to_integerx(-1), Some(2));
    ls.pop(2).unwrap();

    ls.push_integer(1);
    assert_eq!(ls.get_field(2, "k"), Err(LuaError::TableError));
    assert_eq!(ls.set_field(2, "k"), Err(LuaError::TableError));
    assert_eq!(ls.get_top(), 2);
    ls.push_nil();
    ls.push_integer(3);
    assert_eq!(ls.set_table(1), Err(LuaError::TableError));
    assert_eq!(ls.get_top(), 4);
    assert_eq!(ls.len(2), Err(LuaError::TypeError));
    ls.set_top(1).unwrap();
    assert_eq!(ls.get_table(1), Ok(Type::Nil.id()));

    ls.set_top(0).unwrap();
    ls.push_integer(6);
    ls.set_global("sum").unwrap();
    assert_eq!(ls.get_top(), 0);
    assert_eq!(ls.get_global("sum"), Ok(Type::Number.id()));
    assert_eq!(ls.to_integerx(-1), Some(6));
    ls.push_global_table();
    assert!(ls.is_table(-1));
    assert_eq!(ls.get_field(-1, "sum"), Ok(Type::Number.id()));
    assert_eq!(ls.to_integerx(-1), Some(6));
}

#[test]
fn host_functions() {
    let mut ls = new_lua_state();
    ls.register("f", 7).unwrap();
    ls.get_global("f").unwrap();
    assert!(ls.is_function(-1));
    assert!(ls.is_rust_function(-1));
    assert_eq!(ls.to_rust_function(-1), Some(7));
    ls.push_rust_function(9);
    assert_eq!(ls.to_rust_function(-1), Some(9));
    ls.push_integer(1);
    assert_eq!(ls.to_rust_function(-1), None);
    assert!(!ls.is_rust_function(-1));
    assert!(!ls.is_thread(-1));

    // call f(10, 20) and keep one result
    ls.set_top(1).unwrap();
    ls.push_integer(10);
    ls.push_integer(20);
    match ls.call(2, 1) {
        Ok(Step::Host(f)) => assert_eq!(f, 7),
        other => panic!("{:?}", other),
    }
    assert_eq!(ls.depth(), 2);
    assert_eq!(ls.get_top(), 2);
    assert_eq!(ls.to_integerx(1), Some(10));
    assert_eq!(ls.to_integerx(2), Some(20));
    // the host function returns the sum and one more value
    arith(&mut ls, 0).unwrap();
    ls.push_boolean(true);
    ls.return_from(2).unwrap();
    assert_eq!(ls.depth(), 1);
    assert_eq!(ls.get_top(), 1);
    assert_eq!(ls.to_integerx(1), Some(30));

    ls.push_integer(1);
    assert_eq!(ls.call(0, 0).unwrap_err(), LuaError::TypeError);
    assert_eq!(ls.call(5, 0).unwrap_err(), LuaError::IndexError);
    assert_eq!(ls.return_from(0), Err(LuaError::IndexError));
    assert_eq!(ls.get_top(), 2);
}
