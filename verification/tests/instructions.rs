use lua_vm::api::{LuaAPI, LuaVM};
use lua_vm::binary::chunk::{Constant, Prototype};
use lua_vm::error::LuaError;
use lua_vm::state::arith_ops::{FloatAnswer, FloatRequest, Operand, Outcome};
use lua_vm::state::lua_state::{LuaState, Step};
use lua_vm::state::lua_value::LuaValue;
use lua_vm::vm::instr_call::{_return, _self, call, closure, return0, return1, tail_call, vararg};
use lua_vm::vm::instr_for::{for_loop, for_prep};
use lua_vm::vm::instr_load::{
    load_f, load_false, load_i, load_k, load_kx, load_l_false_skip, load_nil, load_true,
};
use lua_vm::vm::instr_misc::{_move, jmp};
use lua_vm::vm::instr_ops;
use lua_vm::vm::instr_ops::{
    _mod, _mod_k, add, add_i, add_k, band, band_k, bnot, bor, bor_k, bxor, bxor_k, div, div_k, eq,
    eq_i, eq_k, ge_i, gt_i, idiv, idiv_k, le, le_i, len, lt, lt_i, mul, mul_k, not, pow, pow_k,
    shl, shl_i, shr, shr_i, sub, sub_k, test_set, unm,
};
use lua_vm::vm::instr_table::{
    get_field, get_i, get_table, new_table, set_field, set_i, set_list, set_table,
};
use lua_vm::vm::instr_upval::{get_tab_up, set_tab_up};
use lua_vm::vm::instruction::{execute, Instruction};
use lua_vm::vm::opcodes::{
    opcode_info, OpMode, OP_ADD, OP_CLOSE, OP_EXTRAARG, OP_GETUPVAL, OP_JMP, OP_LOADI, OP_LOADK,
    OP_MMBIN, OP_MOVE, OP_TFORCALL, OP_VARARGPREP,
};
use std::rc::Rc;

type Asking = fn(u32, &mut LuaState, Option<&FloatAnswer>) -> Result<Option<FloatRequest>, LuaError>;

fn as_float(o: &Operand) -> Option<f64> {
    match o {
        Operand::Float(bits) => Some(f64::from_bits(*bits)),
        Operand::Text(s) => s.parse::<f64>().ok(),
    }
}

fn answer(req: &FloatRequest) -> FloatAnswer {
    match req {
        FloatRequest::Arith { op, x, y } => {
            let (fx, fy) = (as_float(x), as_float(y));
            let value = match (fx, fy) {
                (Some(a), Some(b)) => match *op {
                    0 => a + b,
                    1 => a - b,
                    2 => a * b,
                    3 => a - b * (a / b).floor(),
                    4 => a.powf(b),
                    5 => a / b,
                    6 => (a / b).floor(),
                    12 => -a,
                    _ => 0.0,
                },
                _ => 0.0,
            };
            FloatAnswer {
                x: fx.map(f64::to_bits),
                y: fy.map(f64::to_bits),
                value: value.to_bits(),
                text: String::new(),
            }
        }
        FloatRequest::Format { x } => FloatAnswer {
            x: None,
            y: None,
            value: 0,
            text: f64::from_bits(*x).to_string(),
        },
    }
}

fn run(f: Asking, i: u32, vm: &mut LuaState) -> Result<(), LuaError> {
    let mut ans: Option<FloatAnswer> = None;
    loop {
        match f(i, vm, ans.as_ref())? {
            None => return Ok(()),
            Some(req) => ans = Some(answer(&req)),
        }
    }
}

fn machine() -> LuaState {
    machine_with(Vec::new())
}

fn machine_with(constants: Vec<Constant>) -> LuaState {
    let mut proto = Prototype::default();
    proto.constants = constants;
    proto.max_stack_size = 10;
    LuaState::new_with_proto(Rc::new(proto))
}

fn abc(a: u32, k: u32, b: u32, c: u32) -> u32 {
    a << 7 | k << 15 | b << 16 | c << 24
}

fn int_at(vm: &LuaState, idx: isize) -> i64 {
    vm.to_integer(idx).unwrap()
}

fn num_at(vm: &LuaState, idx: isize) -> f64 {
    f64::from_bits(vm.to_number(idx).unwrap())
}

fn str_at(vm: &LuaState, idx: isize) -> String {
    match vm.to_stringx(idx, None) {
        Outcome::Value(LuaValue::Str(s)) => s,
        other => panic!("{:?}", other),
    }
}

fn numbers_are_equal(a: f64, b: f64, epsilon: f64) -> bool {
    (a - b).abs() < epsilon
}

#[test]
fn test_load_i() {
    let mut vm = machine();
    vm.push_integer(0);
    load_i(0b10000000000000000_00000000_0000001, &mut vm).unwrap();
    assert!(vm.is_integer(1));
    assert!(int_at(&vm, 1) == 1);
}

#[test]
fn test_load_f() {
    let mut vm = machine();
    vm.push_integer(0);
    load_f(0b10000000000000000_00000000_0000010, &mut vm).unwrap();
    assert!(vm.is_number(1));
    assert!(!vm.is_integer(1));
    assert!(num_at(&vm, 1) == 1.0);
}

#[test]
fn tets_load_k() {
    let mut vm = machine_with(vec![Constant::Integer(2)]);
    vm.push_integer(0);
    load_k(0b00000000000000000_00000000_0000011, &mut vm).unwrap();
    assert!(vm.is_integer(1));
    assert!(int_at(&vm, 1) == 2);
}

#[test]
fn test_load_kx() {
    let mut proto = Prototype::default();
    proto.constants.push(Constant::Integer(2));
    proto.code.push(0b00000000000000000_00000000_0000000);
    let mut vm = LuaState::new_with_proto(Rc::new(proto));
    vm.push_integer(0);

    load_kx(0b00000000_00000000_0_00000000_0000100, &mut vm).unwrap();
    assert!(vm.is_integer(1));
    assert!(int_at(&vm, 1) == 2);
    assert_eq!(vm.pc(), 1);
    // there is no second extra argument
    assert_eq!(load_kx(0b00000000_00000000_0_00000000_0000100, &mut vm), Err(LuaError::CorruptChunk));
    assert_eq!(vm.pc(), 1);
}

#[test]
fn test_load_false() {
    let mut vm = machine();
    vm.push_integer(0);
    load_false(0b00000000_00000000_0_00000000_0000101, &mut vm).unwrap();
    assert!(vm.is_boolean(1));
    assert!(vm.to_boolean(1) == false);
}

#[test]
fn test_load_l_false_skip() {
    let mut vm = machine();
    vm.push_integer(0);
    load_l_false_skip(0b00000000_00000000_0_00000000_0000110, &mut vm).unwrap();
    assert!(vm.is_boolean(1));
    assert!(vm.to_boolean(1) == false);
    assert!(vm.pc() == 1);
}

#[test]
fn test_load_true() {
    let mut vm = machine();
    vm.push_integer(0);
    load_true(0b00000000_00000000_0_00000000_0000111, &mut vm).unwrap();
    assert!(vm.is_boolean(1));
    assert!(vm.to_boolean(1) == true);
}

#[test]
fn test_load_nil() {
    let mut vm = machine();
    for _ in 1..=10 {
        vm.push_integer(0);
    }
    load_nil(0b00000000_00000101_0_00000000_0001000, &mut vm).unwrap();
    for i in 1..=5 {
        assert!(vm.is_nil(i));
    }
    assert!(vm.is_nil(6));
    assert!(vm.is_integer(7));
    assert_eq!(vm.get_top(), 10);
}

#[test]
fn loads_need_their_register() {
    let mut vm = machine_with(vec![Constant::Integer(2)]);
    assert_eq!(load_i(0b10000000000000000_00000000_0000001, &mut vm), Err(LuaError::IndexError));
    assert_eq!(load_true(abc(3, 0, 0, 0), &mut vm), Err(LuaError::IndexError));
    vm.push_nil();
    assert_eq!(load_k(1 << 15, &mut vm), Err(LuaError::CorruptChunk));
    assert_eq!(load_nil(abc(0, 0, 1, 0), &mut vm), Err(LuaError::IndexError));
    assert!(vm.is_nil(1));
    assert_eq!(vm.get_top(), 1);
}

#[test]
fn test_move() {
    let mut vm = machine();
    vm.push_integer(0);
    vm.push_integer(1);
    vm.push_integer(2);
    vm.push_integer(3);
    vm.push_integer(4);
    vm.push_integer(5);
    assert!(int_at(&vm, 1) == 0);
    _move(0b00000000_00000001_0_00000000_0000000, &mut vm).unwrap();
    assert!(int_at(&vm, 1) == 1);
    _move(0b00000000_00000101_0_00000000_0000000, &mut vm).unwrap();
    assert!(int_at(&vm, 1) == 5);
}

#[test]
fn test_jmp() {
    let mut vm = machine();
    assert_eq!(vm.pc(), 0);
    jmp(0b1000000000000000000001001_0111000, &mut vm).unwrap();
    assert_eq!(vm.pc(), 10);
    jmp(0b0_111111111111111111110101_0111000, &mut vm).unwrap();
    assert_eq!(vm.pc(), 0);
}

#[test]
fn test_add_i_integer() {
    let mut vm = machine();
    vm.push_nil();
    vm.push_integer(1);
    run(add_i, 0b10000001_00000001_0_00000000_0010101, &mut vm).unwrap();
    assert!(vm.is_integer(1));
    assert!(int_at(&vm, 1) == 3)
}

#[test]
fn test_add_i_number() {
    let mut vm = machine();
    vm.push_nil();
    vm.push_number(1.1f64.to_bits());
    run(add_i, 0b10000001_00000001_0_00000000_0010101, &mut vm).unwrap();
    assert!(vm.is_number(1));
    assert!(numbers_are_equal(num_at(&vm, 1), 3.1, 0.01))
}

#[test]
fn add_i_takes_a_signed_operand() {
    let mut vm = machine();
    vm.push_nil();
    vm.push_integer(1);
    run(add_i, abc(0, 0, 1, 127 - 5), &mut vm).unwrap();
    assert_eq!(int_at(&vm, 1), -4);
    run(add_i, abc(0, 0, 1, 2), &mut vm).unwrap();
    assert_eq!(int_at(&vm, 1), 1 + 2 - 127);
}

#[test]
fn test_add_k_integer() {
    let mut vm = machine_with(vec![Constant::Integer(2)]);
    vm.push_nil();
    vm.push_integer(1);
    run(add_k, 0b00000000_00000001_0_00000000_0010110, &mut vm).unwrap();
    assert!(vm.is_number(1));
    assert!(int_at(&vm, 1) == 3)
}

#[test]
fn test_add_k_number() {
    let mut vm = machine_with(vec![Constant::Number(2f64.to_bits())]);
    vm.push_nil();
    vm.push_number(1.1f64.to_bits());
    run(add_k, 0b00000000_00000001_0_00000000_0010110, &mut vm).unwrap();
    assert!(vm.is_number(1));
    assert!(numbers_are_equal(num_at(&vm, 1), 3.1, 0.01))
}

#[test]
fn test_sub_k_integer() {
    let mut vm = machine_with(vec![Constant::Integer(2)]);
    vm.push_nil();
    vm.push_integer(1);
    run(sub_k, 0b00000000_00000001_0_00000000_0010111, &mut vm).unwrap();
    assert!(vm.is_integer(1));
    assert!(int_at(&vm, 1) == -1)
}

#[test]
fn test_sub_k_number() {
    let mut vm = machine_with(vec![Constant::Number(2.2f64.to_bits())]);
    vm.push_nil();
    vm.push_number(1.1f64.to_bits());
    run(sub_k, 0b00000000_00000001_0_00000000_0010111, &mut vm).unwrap();
    assert!(vm.is_number(1));
    assert!(numbers_are_equal(num_at(&vm, 1), -1.1, 0.01))
}

#[test]
fn test_mul_k_integer() {
    let mut vm = machine_with(vec![Constant::Integer(2)]);
    vm.push_nil();
    vm.push_integer(1);
    run(mul_k, 0b00000000_00000001_0_00000000_0011000, &mut vm).unwrap();
    assert!(vm.is_integer(1));
    assert!(int_at(&vm, 1) == 2)
}

#[test]
fn test_mul_k_number() {
    let mut vm = machine_with(vec![Constant::Number(2.2f64.to_bits())]);
    vm.push_nil();
    vm.push_number(1.1f64.to_bits());
    run(mul_k, 0b00000000_00000001_0_00000000_0011000, &mut vm).unwrap();
    assert!(vm.is_number(1));
    assert!(numbers_are_equal(num_at(&vm, 1), 2.42, 0.01))
}

#[test]
fn test_mod_k_integer() {
    let mut vm = machine_with(vec![Constant::Integer(2)]);
    vm.push_nil();
    vm.push_integer(1);
    run(_mod_k, 0b00000000_00000001_0_00000000_0011001, &mut vm).unwrap();
    assert!(vm.is_integer(1));
    assert!(int_at(&vm, 1) == 1)
}

#[test]
fn test_mod_k_number() {
    let mut vm = machine_with(vec![Constant::Number(2.2f64.to_bits())]);
    vm.push_nil();
    vm.push_number(1.1f64.to_bits());
    run(_mod_k, 0b00000000_00000001_0_00000000_0011001, &mut vm).unwrap();
    assert!(vm.is_number(1));
    assert!(numbers_are_equal(num_at(&vm, 1), 1.1, 0.01))
}

#[test]
fn test_pow_k() {
    let mut vm = machine_with(vec![Constant::Integer(2)]);
    vm.push_nil();
    vm.push_integer(2);
    run(pow_k, 0b00000000_00000001_0_00000000_0101010, &mut vm).unwrap();
    assert!(vm.is_number(1));
    assert!(num_at(&vm, 1) == 4f64)
}

#[test]
fn test_div_k() {
    let mut vm = machine_with(vec![Constant::Integer(2)]);
    vm.push_nil();
    vm.push_integer(2);
    run(div_k, 0b00000000_00000001_0_00000000_0101011, &mut vm).unwrap();
    assert!(vm.is_number(1));
    assert!(num_at(&vm, 1) == 1f64)
}

#[test]
fn test_idiv_k_integer() {
    let mut vm = machine_with(vec![Constant::Integer(2)]);
    vm.push_nil();
    vm.push_integer(2);
    run(idiv_k, 0b00000000_00000001_0_00000000_0101100, &mut vm).unwrap();
    assert!(vm.is_integer(1));
    assert!(int_at(&vm, 1) == 1)
}

#[test]
fn test_idiv_k_number() {
    let mut vm = machine_with(vec![Constant::Number(2.2f64.to_bits())]);
    vm.push_nil();
    vm.push_number(2.2f64.to_bits());
    run(idiv_k, 0b00000000_00000001_0_00000000_0101100, &mut vm).unwrap();
    assert!(vm.is_number(1));
    assert!(numbers_are_equal(num_at(&vm, 1), 1f64, 0.01))
}

#[test]
fn test_band_k() {
    let mut vm = machine_with(vec![Constant::Integer(0b11111111)]);
    vm.push_nil();
    vm.push_integer(0b00000001);
    run(band_k, 0b00000000_00000001_0_00000000_0011101, &mut vm).unwrap();
    assert!(vm.is_integer(1));
    assert!(int_at(&vm, 1) == 0b00000001)
}

#[test]
fn test_bor_k() {
    let mut vm = machine_with(vec![Constant::Integer(0b11111111)]);
    vm.push_nil();
    vm.push_integer(0b00000000);
    run(bor_k, 0b00000000_00000001_0_00000000_0011110, &mut vm).unwrap();
    assert!(vm.is_integer(1));
    assert!(int_at(&vm, 1) == 0b11111111)
}

#[test]
fn test_bxor_k() {
    let mut vm = machine_with(vec![Constant::Integer(0b11111111)]);
    vm.push_nil();
    vm.push_integer(0b00000001);
    run(bxor_k, 0b00000000_00000001_0_00000000_0011110, &mut vm).unwrap();
    assert!(vm.is_integer(1));
    assert!(int_at(&vm, 1) == 0b11111110)
}

#[test]
fn test_shl_i() {
    let mut vm = machine();
    vm.push_nil();
    vm.push_integer(0b00001111);
    run(shl_i, 0b10000000_00000001_0_00000000_0100000, &mut vm).unwrap();
    assert!(vm.is_integer(1));
    assert!(int_at(&vm, 1) == 0b00011110)
}

#[test]
fn test_shr_i() {
    let mut vm = machine();
    vm.push_nil();
    vm.push_integer(0b00001111);
    run(shr_i, 0b10000000_00000001_0_00000000_0100001, &mut vm).unwrap();
    assert!(vm.is_integer(1));
    assert!(int_at(&vm, 1) == 0b0000111)
}

#[test]
fn test_add_integer() {
    let mut vm = machine();
    vm.push_nil();
    vm.push_integer(1);
    vm.push_integer(2);
    run(add, 0b00000010_00000001_0_00000000_0100010, &mut vm).unwrap();
    assert!(vm.is_integer(1));
    assert!(vm.is_number(1));
    assert!(numbers_are_equal(num_at(&vm, 1), 3f64, 0.01))
}

#[test]
fn test_add_number() {
    let mut vm = machine();
    vm.push_nil();
    vm.push_number(1.1f64.to_bits());
    vm.push_number(2.2f64.to_bits());
    run(add, 0b00000010_00000001_0_00000000_0100010, &mut vm).unwrap();
    assert!(vm.is_number(1));
    assert!(numbers_are_equal(num_at(&vm, 1), 3.3, 0.01))
}

#[test]
fn test_sub_integer() {
    let mut vm = machine();
    vm.push_nil();
    vm.push_integer(1);
    vm.push_integer(2);
    run(sub, 0b00000010_00000001_0_00000000_0100011, &mut vm).unwrap();
    assert!(vm.is_integer(1));
    assert!(int_at(&vm, 1) == -1)
}

#[test]
fn test_sub_number() {
    let mut vm = machine();
    vm.push_nil();
    vm.push_number(1.1f64.to_bits());
    vm.push_number(2.2f64.to_bits());
    run(sub, 0b00000010_00000001_0_00000000_0100011, &mut vm).unwrap();
    assert!(vm.is_number(1));
    assert!(numbers_are_equal(num_at(&vm, 1), -1.1, 0.01))
}

#[test]
fn test_mul_integer() {
    let mut vm = machine();
    vm.push_nil();
    vm.push_integer(1);
    vm.push_integer(2);
    run(mul, 0b00000010_00000001_0_00000000_0100100, &mut vm).unwrap();
    assert!(vm.is_integer(1));
    assert!(int_at(&vm, 1) == 2)
}

#[test]
fn test_mul_number() {
    let mut vm = machine();
    vm.push_nil();
    vm.push_number(1.1f64.to_bits());
    vm.push_number(2.2f64.to_bits());
    run(mul, 0b00000010_00000001_0_00000000_0100100, &mut vm).unwrap();
    assert!(vm.is_number(1));
    assert!(numbers_are_equal(num_at(&vm, 1), 2.42, 0.01))
}

#[test]
fn test_mod_integer() {
    let mut vm = machine();
    vm.push_nil();
    vm.push_integer(1);
    vm.push_integer(2);
    run(_mod, 0b00000010_00000001_0_00000000_0100101, &mut vm).unwrap();
    assert!(vm.is_integer(1));
    assert!(int_at(&vm, 1) == 1)
}

#[test]
fn test_mod_number() {
    let mut vm = machine();
    vm.push_nil();
    vm.push_number(1.1f64.to_bits());
    vm.push_number(2.2f64.to_bits());
    run(_mod, 0b00000010_00000001_0_00000000_0100101, &mut vm).unwrap();
    assert!(vm.is_number(1));
    assert!(numbers_are_equal(num_at(&vm, 1), 1.1, 0.01))
}

#[test]
fn test_pow() {
    let mut vm = machine();
    vm.push_nil();
    vm.push_integer(2);
    vm.push_integer(2);
    run(pow, 0b00000010_00000001_0_00000000_0100110, &mut vm).unwrap();
    assert!(vm.is_number(1));
    assert!(num_at(&vm, 1) == 4f64)
}

#[test]
fn test_div() {
    let mut vm = machine();
    vm.push_nil();
    vm.push_integer(2);
    vm.push_integer(2);
    run(div, 0b00000010_00000001_0_00000000_0100111, &mut vm).unwrap();
    assert!(vm.is_number(1));
    assert!(num_at(&vm, 1) == 1f64)
}

#[test]
fn test_idiv_integer() {
    let mut vm = machine();
    vm.push_nil();
    vm.push_integer(2);
    vm.push_integer(2);
    run(idiv, 0b00000010_00000001_0_00000000_0101000, &mut vm).unwrap();
    assert!(vm.is_integer(1));
    assert!(int_at(&vm, 1) == 1)
}

#[test]
fn test_idiv_number() {
    let mut vm = machine();
    vm.push_nil();
    vm.push_number(2.2f64.to_bits());
    vm.push_number(2.2f64.to_bits());
    run(idiv, 0b00000010_00000001_0_00000000_0101000, &mut vm).unwrap();
    assert!(vm.is_number(1));
    assert!(numbers_are_equal(num_at(&vm, 1), 1f64, 0.01))
}

#[test]
fn test_band() {
    let mut vm = machine();
    vm.push_nil();
    vm.push_integer(0b00000001);
    vm.push_integer(0b11111111);
    run(band, 0b00000010_00000001_0_00000000_0101001, &mut vm).unwrap();
    assert!(vm.is_integer(1));
    assert!(int_at(&vm, 1) == 0b00000001)
}

#[test]
fn test_bor() {
    let mut vm = machine();
    vm.push_nil();
    vm.push_integer(0b00000000);
    vm.push_integer(0b11111111);
    run(bor, 0b00000010_00000001_0_00000000_0101010, &mut vm).unwrap();
    assert!(vm.is_integer(1));
    assert!(int_at(&vm, 1) == 0b11111111)
}

#[test]
fn test_bxor() {
    let mut vm = machine();
    vm.push_nil();
    vm.push_integer(0b00000001);
    vm.push_integer(0b11111111);
    run(bxor, 0b00000010_00000001_0_00000000_0101011, &mut vm).unwrap();
    assert!(vm.is_integer(1));
    assert!(int_at(&vm, 1) == 0b11111110)
}

#[test]
fn test_shl() {
    let mut vm = machine();
    vm.push_nil();
    vm.push_integer(0b00001111);
    vm.push_integer(1);
    run(shl, 0b00000010_00000001_0_00000000_0101100, &mut vm).unwrap();
    assert!(vm.is_integer(1));
    assert!(int_at(&vm, 1) == 0b00011110)
}

#[test]
fn test_shr() {
    let mut vm = machine();
    vm.push_nil();
    vm.push_integer(0b00001111);
    vm.push_integer(1);
    run(shr, 0b00000010_00000001_0_00000000_0101101, &mut vm).unwrap();
    assert!(vm.is_integer(1));
    assert!(int_at(&vm, 1) == 0b0000111)
}

#[test]
fn test_unm_integer() {
    let mut vm = machine();
    vm.push_nil();
    vm.push_integer(1);
    run(unm, 0b00000000_00000001_0_00000000_0110001, &mut vm).unwrap();
    assert!(vm.is_integer(1));
    assert!(int_at(&vm, 1) == -1)
}

#[test]
fn test_unm_number() {
    let mut vm = machine();
    vm.push_nil();
    vm.push_number(1.0f64.to_bits());
    assert_eq!(unm(0b00000000_00000001_0_00000000_0110001, &mut vm, None), Ok(None));
    assert!(vm.is_number(1));
    assert!(num_at(&vm, 1) == -1.0)
}

#[test]
fn test_bnot() {
    let mut vm = machine();
    vm.push_nil();
    vm.push_integer(0b11111111);
    run(bnot, 0b00000000_00000001_0_00000000_0110010, &mut vm).unwrap();
    assert!(vm.is_integer(1));
    assert!(int_at(&vm, 1) == -256)
}

#[test]
fn arithmetic_fails_as_a_whole() {
    let mut vm = machine_with(vec![Constant::Integer(0)]);
    vm.push_integer(7);
    vm.push_nil();
    assert_eq!(add(abc(0, 0, 0, 1), &mut vm, None), Err(LuaError::ArithError));
    assert_eq!(idiv_k(abc(0, 0, 0, 0), &mut vm, None), Err(LuaError::ArithError));
    assert_eq!(add_k(abc(0, 0, 0, 1), &mut vm, None), Err(LuaError::CorruptChunk));
    assert_eq!(add(abc(5, 0, 0, 0), &mut vm, None), Err(LuaError::IndexError));
    assert_eq!(int_at(&vm, 1), 7);
    assert!(vm.is_nil(2));
    assert_eq!(vm.get_top(), 2);
    assert_eq!(vm.pc(), 0);
}

#[test]
fn test_eq() {
    let mut vm = machine();
    vm.push_nil();
    vm.push_integer(1);
    vm.push_integer(1);
    assert!(vm.pc() == 0);
    eq(0b00000000_00000010_0_00000001_0111001, &mut vm).unwrap();
    assert!(vm.pc() == 1);

    vm.push_integer(0);
    assert!(vm.pc() == 1);
    eq(0b00000000_00000011_0_00000010_0111001, &mut vm).unwrap();
    assert!(vm.pc() == 1);
}

#[test]
fn test_lt() {
    let mut vm = machine();
    vm.push_nil();
    vm.push_integer(1);
    vm.push_integer(2);
    assert!(vm.pc() == 0);
    lt(0b00000000_00000010_0_00000001_0111010, &mut vm).unwrap();
    assert!(vm.pc() == 1);

    vm.push_integer(2);
    assert!(vm.pc() == 1);
    lt(0b00000000_00000011_0_00000010_0111010, &mut vm).unwrap();
    assert!(vm.pc() == 1);

    vm.push_integer(0);
    assert!(vm.pc() == 1);
    lt(0b00000000_00000100_0_00000010_0111010, &mut vm).unwrap();
    assert!(vm.pc() == 1);
}

#[test]
fn test_le() {
    let mut vm = machine();
    vm.push_nil();
    vm.push_integer(1);
    vm.push_integer(2);
    assert!(vm.pc() == 0);
    le(0b00000000_00000010_0_00000001_0111011, &mut vm).unwrap();
    assert!(vm.pc() == 1);

    vm.push_integer(2);
    assert!(vm.pc() == 1);
    le(0b00000000_00000011_0_00000010_0111011, &mut vm).unwrap();
    assert!(vm.pc() == 2);

    vm.push_integer(0);
    assert!(vm.pc() == 2);
    le(0b00000000_00000100_0_00000010_0111011, &mut vm).unwrap();
    assert!(vm.pc() == 2);
}

#[test]
fn test_eq_k() {
    let mut vm = machine_with(vec![Constant::Integer(1), Constant::Integer(0)]);
    vm.push_nil();
    vm.push_integer(1);
    assert!(vm.pc() == 0);
    eq_k(0b00000000_00000000_0_00000001_0111100, &mut vm).unwrap();
    assert!(vm.pc() == 1);

    assert!(vm.pc() == 1);
    eq_k(0b00000000_00000001_0_00000001_0111100, &mut vm).unwrap();
    assert!(vm.pc() == 1);
}

#[test]
fn test_eq_i() {
    let mut vm = machine();
    vm.push_nil();
    vm.push_integer(1);
    assert!(vm.pc() == 0);
    eq_i(0b00000000_10000000_0_00000001_0111101, &mut vm).unwrap();
    assert!(vm.pc() == 1);

    assert!(vm.pc() == 1);
    eq_i(0b00000000_01111111_0_00000001_0111101, &mut vm).unwrap();
    assert!(vm.pc() == 1);
}

#[test]
fn test_lt_i() {
    let mut vm = machine();
    vm.push_nil();
    vm.push_integer(1);
    assert!(vm.pc() == 0);
    lt_i(0b00000000_10000001_0_00000001_0111110, &mut vm).unwrap();
    assert!(vm.pc() == 1);

    vm.push_integer(2);
    assert!(vm.pc() == 1);
    lt_i(0b00000000_10000001_0_00000010_0111110, &mut vm).unwrap();
    assert!(vm.pc() == 1);

    assert!(vm.pc() == 1);
    lt_i(0b00000000_00000000_0_00000001_0111110, &mut vm).unwrap();
    assert!(vm.pc() == 1);
}

#[test]
fn test_le_i() {
    let mut vm = machine();
    vm.push_nil();
    vm.push_integer(1);
    assert!(vm.pc() == 0);
    le_i(0b00000000_10000001_0_00000001_0111111, &mut vm).unwrap();
    assert!(vm.pc() == 1);

    vm.push_integer(2);
    assert!(vm.pc() == 1);
    le_i(0b00000000_10000001_0_00000010_0111111, &mut vm).unwrap();
    assert!(vm.pc() == 2);

    vm.push_integer(0);
    assert!(vm.pc() == 2);
    le_i(0b00000000_01111111_0_00000010_0111111, &mut vm).unwrap();
    assert!(vm.pc() == 2);
}

#[test]
fn test_gt_i() {
    let mut vm = machine();
    vm.push_nil();
    vm.push_integer(1);
    assert!(vm.pc() == 0);
    gt_i(0b00000000_01111111_0_00000001_1000000, &mut vm).unwrap();
    assert!(vm.pc() == 1);

    vm.push_integer(1);
    assert!(vm.pc() == 1);
    gt_i(0b00000000_10000000_0_00000010_1000000, &mut vm).unwrap();
    assert!(vm.pc() == 1);

    assert!(vm.pc() == 1);
    gt_i(0b00000000_10000001_0_00000010_1000000, &mut vm).unwrap();
    assert!(vm.pc() == 1);
}

#[test]
fn comparisons_follow_the_flag() {
    let mut vm = machine();
    vm.push_integer(1);
    vm.push_integer(2);
    // 1 < 2 is what k asks for: no skip
    lt(abc(0, 1, 1, 0), &mut vm).unwrap();
    assert_eq!(vm.pc(), 0);
    ge_i(abc(1, 0, 127 + 2, 0), &mut vm).unwrap();
    assert_eq!(vm.pc(), 1);
    ge_i(abc(1, 1, 127 + 2, 0), &mut vm).unwrap();
    assert_eq!(vm.pc(), 1);
    vm.push_string("s".to_string());
    assert_eq!(lt(abc(0, 0, 2, 0), &mut vm), Err(LuaError::CompareError));
    assert_eq!(vm.pc(), 1);
    eq(abc(0, 0, 2, 0), &mut vm).unwrap();
    assert_eq!(vm.pc(), 1);
}

#[test]
fn tests_of_truth() {
    let mut vm = machine();
    vm.push_nil();
    vm.push_integer(0);
    vm.push_boolean(false);
    instr_ops::test(abc(0, 0, 0, 0), &mut vm).unwrap();
    assert_eq!(vm.pc(), 0);
    instr_ops::test(abc(0, 1, 0, 0), &mut vm).unwrap();
    assert_eq!(vm.pc(), 1);
    instr_ops::test(abc(1, 1, 0, 0), &mut vm).unwrap();
    assert_eq!(vm.pc(), 1);
    instr_ops::test(abc(1, 0, 0, 0), &mut vm).unwrap();
    assert_eq!(vm.pc(), 2);
    // R[0] := R[1] where R[1] is true
    test_set(abc(0, 1, 1, 0), &mut vm).unwrap();
    assert_eq!(vm.pc(), 2);
    assert_eq!(int_at(&vm, 1), 0);
    test_set(abc(0, 1, 2, 0), &mut vm).unwrap();
    assert_eq!(vm.pc(), 3);
    assert_eq!(int_at(&vm, 1), 0);
    not(abc(0, 0, 2, 0), &mut vm).unwrap();
    assert!(vm.to_boolean(1));
    not(abc(0, 0, 1, 0), &mut vm).unwrap();
    assert!(vm.is_boolean(1));
    assert!(!vm.to_boolean(1));
}

#[test]
fn lengths_and_joins() {
    let mut vm = machine();
    vm.push_nil();
    vm.push_string("hello".to_string());
    vm.push_integer(1);
    vm.push_number(2.5f64.to_bits());
    len(abc(0, 0, 1, 0), &mut vm).unwrap();
    assert_eq!(int_at(&vm, 1), 5);
    assert_eq!(len(abc(0, 0, 2, 0), &mut vm), Err(LuaError::TypeError));
    run(instr_ops::concat, abc(1, 0, 3, 0), &mut vm).unwrap();
    assert_eq!(str_at(&vm, 2), "hello12.5");
    assert_eq!(vm.get_top(), 4);
    assert_eq!(instr_ops::concat(abc(2, 0, 4, 0), &mut vm, None), Err(LuaError::IndexError));
    vm.push_boolean(true);
    assert_eq!(instr_ops::concat(abc(3, 0, 2, 0), &mut vm, None), Err(LuaError::TypeError));
    new_table(abc(4, 0, 0, 0), &mut vm).unwrap();
    len(abc(0, 0, 4, 0), &mut vm).unwrap();
    assert_eq!(int_at(&vm, 1), 0);
}

#[test]
fn instr_table_test_table() {
    let mut vm = machine();
    vm.push_nil();
    new_table(0b00000000_00000000_0_00000000_0010011, &mut vm).unwrap();
    assert!(vm.is_table(1));
    vm.push_nil();
    new_table(0b00000001_00000001_1_00000001_0010011, &mut vm).unwrap();
    assert!(vm.is_table(2));
    vm.push_integer(1);
    vm.push_string("1".to_string());
    set_table(0b00000011_00000010_0_00000001_0010000, &mut vm).unwrap();
    get_table(0b00000010_00000001_0_00000000_0001100, &mut vm).unwrap();
    assert!(vm.is_table(2));
    assert!(vm.is_string(1));
    assert!(str_at(&vm, 1) == "1".to_string());
    assert_eq!(vm.pc(), 2);
}

#[test]
fn table_instructions() {
    let mut vm = machine_with(vec![
        Constant::Str("name".to_string()),
        Constant::Integer(42),
        Constant::Nil,
    ]);
    vm.set_top(5).unwrap();
    new_table(abc(0, 0, 0, 0), &mut vm).unwrap();
    // R[0].name := K[1]
    run(set_field, abc(0, 1, 0, 1), &mut vm).unwrap();
    run(get_field, abc(1, 0, 0, 0), &mut vm).unwrap();
    assert_eq!(int_at(&vm, 2), 42);
    // R[0][3] := R[1]
    set_i(abc(0, 0, 3, 1), &mut vm).unwrap();
    get_i(abc(2, 0, 0, 3), &mut vm).unwrap();
    assert_eq!(int_at(&vm, 3), 42);
    // R[0][R[1]] := K[1]
    set_table(abc(0, 1, 1, 1), &mut vm).unwrap();
    get_table(abc(3, 0, 0, 1), &mut vm).unwrap();
    assert_eq!(int_at(&vm, 4), 42);
    // a key that is nil
    assert_eq!(set_table(abc(0, 0, 4, 1), &mut vm), Err(LuaError::TableError));
    // what is no table
    assert_eq!(get_i(abc(2, 0, 1, 3), &mut vm), Err(LuaError::TableError));
    assert_eq!(set_i(abc(1, 0, 3, 1), &mut vm), Err(LuaError::TableError));
    assert_eq!(get_field(abc(1, 0, 1, 0), &mut vm, None), Err(LuaError::TableError));
    assert_eq!(get_field(abc(1, 0, 0, 2), &mut vm, None), Err(LuaError::TypeError));
    assert_eq!(get_field(abc(1, 0, 0, 9), &mut vm, None), Err(LuaError::CorruptChunk));
    assert_eq!(int_at(&vm, 2), 42);
}

#[test]
fn lists_are_stored() {
    let mut vm = machine();
    vm.set_top(1).unwrap();
    new_table(abc(0, 0, 0, 0), &mut vm).unwrap();
    vm.push_integer(10);
    vm.push_integer(20);
    vm.push_integer(30);
    set_list(abc(0, 0, 3, 0), &mut vm).unwrap();
    vm.len(1).unwrap();
    assert_eq!(int_at(&vm, -1), 3);
    get_i(abc(4, 0, 0, 2), &mut vm).unwrap();
    assert_eq!(int_at(&vm, 5), 20);
    assert_eq!(set_list(abc(1, 0, 2, 0), &mut vm), Err(LuaError::TableError));
    assert_eq!(set_list(abc(1, 0, 0, 0), &mut vm), Ok(()));
    // R[0][5 + j] := R[j]
    set_list(abc(0, 0, 1, 5), &mut vm).unwrap();
    get_i(abc(4, 0, 0, 6), &mut vm).unwrap();
    assert_eq!(int_at(&vm, 5), 10);
}

#[test]
fn globals_are_reached_through_the_upvalue() {
    let mut proto = Prototype::default();
    proto.constants = vec![Constant::Str("x".to_string()), Constant::Integer(5)];
    let mut vm = LuaState::new();
    vm.load_proto(0).unwrap_err();
    vm.frames[0].closure = Rc::new(lua_vm::state::closure::Closure::new(Rc::new(proto)));
    vm.set_top(2).unwrap();
    set_tab_up(abc(0, 1, 0, 1), &mut vm).unwrap();
    get_tab_up(abc(1, 0, 0, 0), &mut vm).unwrap();
    assert_eq!(int_at(&vm, 2), 5);
    assert_eq!(vm.get_global("x"), Ok(3));
    assert_eq!(int_at(&vm, -1), 5);
    // the register R[1] as the value
    set_tab_up(abc(0, 0, 0, 0), &mut vm).unwrap();
    get_tab_up(abc(1, 0, 0, 0), &mut vm).unwrap();
    assert!(vm.is_nil(2));
    assert_eq!(get_tab_up(abc(1, 0, 0, 7), &mut vm), Err(LuaError::CorruptChunk));
    let mut bare = machine_with(vec![Constant::Str("x".to_string())]);
    bare.set_top(1).unwrap();
    assert_eq!(get_tab_up(abc(0, 0, 0, 0), &mut bare), Err(LuaError::TableError));
}

#[test]
fn self_finds_the_method() {
    let mut vm = machine_with(vec![Constant::Str("m".to_string())]);
    vm.set_top(4).unwrap();
    new_table(abc(3, 0, 0, 0), &mut vm).unwrap();
    vm.push_integer(99);
    vm.set_field(4, "m").unwrap();
    _self(abc(0, 1, 3, 0), &mut vm).unwrap();
    assert_eq!(int_at(&vm, 1), 99);
    assert!(vm.is_table(2));
    assert_eq!(_self(abc(3, 1, 3, 0), &mut vm), Err(LuaError::IndexError));
    assert_eq!(_self(abc(0, 1, 0, 0), &mut vm), Err(LuaError::TableError));
}

#[test]
fn test_closure() {
    let mut proto = Prototype::default();
    proto.protos.push(Rc::new(Prototype::default()));
    let mut vm = LuaState::new_with_proto(Rc::new(proto));
    vm.push_nil();
    closure(0b00000000000000000_00000000_1001111, &mut vm).unwrap();
    assert_eq!(vm.is_function(1), true);
    assert_eq!(vm.get_top(), 1);
    assert!(!vm.is_rust_function(1));
    assert_eq!(closure(1 << 15 | 79, &mut vm), Err(LuaError::CorruptChunk));
    assert_eq!(closure(1 << 7 | 79, &mut vm), Err(LuaError::IndexError));
}

#[test]
fn test_vararg() {
    let mut vm = LuaState::new();
    vm.frames[0].varargs.push(LuaValue::Integer(1));
    vararg(0b00000000_00000000_0_00000000_1010000, &mut vm).unwrap();
    assert_eq!(int_at(&vm, 1), 1);
    assert_eq!(vm.get_top(), 2);
    assert_eq!(int_at(&vm, 2), 1);
}

#[test]
fn varargs_fill_registers() {
    let mut vm = machine();
    vm.frames[0].varargs.push(LuaValue::Integer(7));
    vm.frames[0].varargs.push(LuaValue::Integer(8));
    vm.set_top(4).unwrap();
    // three values from R[1] on
    vararg(abc(1, 0, 0, 4), &mut vm).unwrap();
    assert!(vm.is_nil(1));
    assert_eq!(int_at(&vm, 2), 7);
    assert_eq!(int_at(&vm, 3), 8);
    assert!(vm.is_nil(4));
    vararg(abc(0, 0, 0, 2), &mut vm).unwrap();
    assert_eq!(int_at(&vm, 1), 7);
    vararg(abc(0, 0, 0, 1), &mut vm).unwrap();
    assert_eq!(vm.get_top(), 4);
    assert_eq!(vararg(abc(3, 0, 0, 3), &mut vm), Err(LuaError::IndexError));
    vm.load_vararg(3);
    assert_eq!(vm.get_top(), 7);
    assert!(vm.is_nil(7));
    assert_eq!(int_at(&vm, 6), 8);
}

#[test]
fn test_for_prep_with_integer() {
    let mut vm = machine();
    vm.push_integer(0);
    vm.push_integer(10);
    vm.push_integer(2);
    vm.push_integer(0);
    assert!(int_at(&vm, 1) == 0);
    assert!(int_at(&vm, 2) == 10);
    assert!(int_at(&vm, 3) == 2);
    assert!(int_at(&vm, 4) == 0);
    for_prep(0b00000000000000000_00000000_1001010, &mut vm).unwrap();
    assert!(int_at(&vm, 1) == 0);
    assert!(int_at(&vm, 2) == 5);
    assert!(int_at(&vm, 3) == 2);
    assert!(int_at(&vm, 4) == 0);
}

#[test]
fn test_for_prep_with_number() {
    let mut vm = machine();
    vm.push_number(1.1f64.to_bits());
    vm.push_number(10f64.to_bits());
    vm.push_number(1f64.to_bits());
    vm.push_number(0f64.to_bits());
    assert!(vm.pc() == 0);
    assert!(num_at(&vm, 1) == 1.1f64);
    assert!(num_at(&vm, 2) == 10f64);
    assert!(num_at(&vm, 3) == 1f64);
    assert!(num_at(&vm, 4) == 0f64);
    for_prep(0b00000000000000000_00000000_1001010, &mut vm).unwrap();
    assert!(vm.pc() == 0);
    assert!(num_at(&vm, 1) == 1.1f64);
    assert!(num_at(&vm, 2) == 10f64);
    assert!(num_at(&vm, 3) == 1f64);
    assert!(num_at(&vm, 4) == 1.1f64);
}

#[test]
fn test_for_loop_with_integer() {
    let mut vm = machine();
    vm.push_integer(0);
    vm.push_integer(10);
    vm.push_integer(2);
    vm.push_integer(0);
    vm.add_pc(1).unwrap();
    assert!(vm.pc() == 1);
    assert!(int_at(&vm, 1) == 0);
    assert!(int_at(&vm, 2) == 10);
    assert!(int_at(&vm, 3) == 2);
    assert!(int_at(&vm, 4) == 0);
    for_prep(0b00000000000000000_00000000_1001010, &mut vm).unwrap();
    assert!(int_at(&vm, 1) == 0);
    assert!(int_at(&vm, 2) == 5);
    assert!(int_at(&vm, 3) == 2);
    assert!(int_at(&vm, 4) == 0);
    run(for_loop, 0b0_0000000000000001_00000000_1001001, &mut vm).unwrap();
    assert!(vm.pc() == 0);
    assert!(int_at(&vm, 1) == 2);
    assert!(int_at(&vm, 2) == 4);
    assert!(int_at(&vm, 3) == 2);
    assert!(int_at(&vm, 4) == 2);
    run(for_loop, 0b00000000000000000_00000000_1001001, &mut vm).unwrap();
    assert!(int_at(&vm, 1) == 4);
    assert!(int_at(&vm, 2) == 3);
    assert!(int_at(&vm, 3) == 2);
    assert!(int_at(&vm, 4) == 4);
    run(for_loop, 0b00000000000000000_00000000_1001001, &mut vm).unwrap();
    assert!(int_at(&vm, 1) == 6);
    assert!(int_at(&vm, 2) == 2);
    assert!(int_at(&vm, 3) == 2);
    assert!(int_at(&vm, 4) == 6);
    run(for_loop, 0b00000000000000000_00000000_1001001, &mut vm).unwrap();
    assert!(int_at(&vm, 1) == 8);
    assert!(int_at(&vm, 2) == 1);
    assert!(int_at(&vm, 3) == 2);
    assert!(int_at(&vm, 4) == 8);
    run(for_loop, 0b00000000000000000_00000000_1001001, &mut vm).unwrap();
    assert!(int_at(&vm, 1) == 10);
    assert!(int_at(&vm, 2) == 0);
    assert!(int_at(&vm, 3) == 2);
    assert!(int_at(&vm, 4) == 10);
    run(for_loop, 0b00000000000000001_00000000_1001001, &mut vm).unwrap();
    assert!(vm.pc() == 0);
    assert!(int_at(&vm, 1) == 10);
    assert!(int_at(&vm, 4) == 10);
}

#[test]
fn for_loops_check_their_values() {
    let mut vm = machine();
    vm.push_integer(1);
    vm.push_integer(3);
    vm.push_integer(0);
    vm.push_nil();
    assert_eq!(for_prep(74, &mut vm), Err(LuaError::ArithError));
    vm.set_top(2).unwrap();
    vm.push_number(1.0f64.to_bits());
    vm.push_nil();
    assert_eq!(for_prep(74, &mut vm), Err(LuaError::TypeError));
    vm.set_top(1).unwrap();
    vm.push_number(3.0f64.to_bits());
    vm.push_number(0.0f64.to_bits());
    vm.push_nil();
    assert_eq!(for_prep(74, &mut vm), Err(LuaError::ArithError));
    vm.set_top(2).unwrap();
    vm.push_string("1".to_string());
    vm.push_nil();
    assert_eq!(for_prep(74, &mut vm), Err(LuaError::TypeError));
    assert_eq!(for_loop(73, &mut vm, None), Err(LuaError::TypeError));
    vm.set_top(3).unwrap();
    assert_eq!(for_prep(74, &mut vm), Err(LuaError::TypeError));
    // counting down, and a loop with a negative step
    vm.set_top(0).unwrap();
    vm.push_integer(10);
    vm.push_integer(1);
    vm.push_integer(-3);
    vm.push_nil();
    for_prep(74, &mut vm).unwrap();
    assert_eq!(int_at(&vm, 2), 3);
    assert_eq!(int_at(&vm, 4), 10);
    // a loop over floats that is empty is passed over
    vm.set_top(0).unwrap();
    vm.push_number(2.0f64.to_bits());
    vm.push_integer(1);
    vm.push_integer(1);
    vm.push_nil();
    for_prep(3 << 15 | 74, &mut vm).unwrap();
    assert_eq!(vm.pc(), 4);
    assert!(vm.is_nil(4));
}

#[test]
fn float_loop_steps_by_request() {
    let mut vm = machine();
    vm.add_pc(8).unwrap();
    vm.push_number(0.0f64.to_bits());
    vm.push_number(1.0f64.to_bits());
    vm.push_number(0.25f64.to_bits());
    vm.push_nil();
    for_prep(74, &mut vm).unwrap();
    assert_eq!(num_at(&vm, 4), 0.0);
    let mut entered = 1;
    loop {
        let req = for_loop(3 << 15 | 73, &mut vm, None).unwrap().unwrap();
        assert!(matches!(req, FloatRequest::Arith { op: 0, .. }));
        assert_eq!(for_loop(3 << 15 | 73, &mut vm, Some(&answer(&req))), Ok(None));
        if vm.pc() == 5 {
            entered += 1;
            vm.add_pc(3).unwrap();
        } else {
            break;
        }
    }
    assert_eq!(entered, 5);
    assert_eq!(num_at(&vm, 4), 1.0);
    assert_eq!(vm.pc(), 8);
}

#[test]
fn fields_of_an_instruction() {
    let i: u32 = 0b10000011_00000010_1_00000001_1000100;
    assert_eq!(i.opcode(), 68);
    assert_eq!(i.opname(), "OP_CALL");
    assert_eq!(i.opmode(), 0);
    assert_eq!(i.get_arg_a(), 1);
    assert_eq!(i.get_arg_k(), 1);
    assert_eq!(i.get_arg_b(), 2);
    assert_eq!(i.get_arg_c(), 131);
    assert_eq!(i.get_arg_sb(), 2 - 127);
    assert_eq!(i.get_arg_sc(), 4);
    assert_eq!(i.get_arg_bx(), (131 << 9) | (2 << 1) | 1);
    assert_eq!(i.get_arg_sbx(), ((131 << 9) | 5) - 65535);
    assert_eq!(i.get_arg_ax(), i as isize >> 7);
    assert_eq!(i.get_arg_sj(), (i as isize >> 7) - 16777215);
    assert_eq!(u32::MAX.get_arg_ax(), 33554431);
    assert_eq!(u32::MAX.get_arg_bx(), 131071);
    assert_eq!(u32::MAX.get_arg_sj(), 16777216);
    assert_eq!(0u32.get_arg_sbx(), -65535);
    assert_eq!((OP_JMP as u32).opmode(), 4);
    assert_eq!((OP_LOADI as u32).opmode(), 2);
    assert_eq!((OP_LOADK as u32).opmode(), 1);
    assert_eq!((OP_EXTRAARG as u32).opmode(), 3);
    assert_eq!(OpMode::from_u8(3), OpMode::IAx);
    let info = opcode_info(OP_ADD);
    assert_eq!((info.mm, info.ot, info.it, info.t, info.a), (0, 0, 0, 0, 1));
    assert_eq!(info.name, "OP_ADD");
    assert_eq!(opcode_info(OP_MMBIN).mm, 1);
    assert_eq!(opcode_info(OP_JMP).a, 0);
    assert_eq!(opcode_info(OP_MOVE).opmode, OpMode::IABC);
}

#[test]
fn execute_dispatches() {
    let mut vm = machine_with(vec![Constant::Integer(2)]);
    vm.set_top(3).unwrap();
    assert_eq!(execute((65535 + 2) << 15 | 1, &mut vm, None), Ok(Step::Continue));
    assert_eq!(int_at(&vm, 1), 2);
    assert_eq!(execute(abc(1, 0, 0, 128) | 21, &mut vm, None), Ok(Step::Continue));
    assert_eq!(int_at(&vm, 2), 3);
    assert_eq!(execute(OP_MMBIN as u32, &mut vm, None), Ok(Step::Continue));
    assert_eq!(execute(OP_VARARGPREP as u32, &mut vm, None), Ok(Step::Continue));
    for op in [OP_GETUPVAL, OP_CLOSE, OP_TFORCALL, OP_EXTRAARG, 83, 127] {
        assert_eq!(execute(op as u32, &mut vm, None), Err(LuaError::CorruptChunk));
    }
    vm.push_number(0.5f64.to_bits());
    let step = execute(abc(0, 0, 0, 3) | 34, &mut vm, None).unwrap();
    let req = match step {
        Step::Float(req) => req,
        other => panic!("{:?}", other),
    };
    assert_eq!(execute(abc(0, 0, 0, 3) | 34, &mut vm, Some(&answer(&req))), Ok(Step::Continue));
    assert_eq!(num_at(&vm, 1), 2.5);
    assert_eq!(vm.get_top(), 4);
}

#[test]
fn returns_in_the_only_frame_stay_on_the_stack() {
    let mut vm = machine();
    vm.set_top(10).unwrap();
    vm.push_value(1);
    vm.pop(1).unwrap();
    load_i((65535 + 5) << 15 | 1, &mut vm).unwrap();
    assert_eq!(return1(72, &mut vm), Ok(Step::Return));
    assert_eq!(vm.get_top(), 11);
    assert_eq!(int_at(&vm, 11), 5);
    assert_eq!(return0(71, &mut vm), Ok(Step::Return));
    assert_eq!(vm.get_top(), 11);
    assert_eq!(_return(abc(0, 0, 3, 0) | 70, &mut vm), Ok(Step::Return));
    assert_eq!(vm.get_top(), 13);
    assert_eq!(int_at(&vm, 12), 5);
    assert!(vm.is_nil(13));
    assert_eq!(call(abc(1, 0, 1, 1) | 68, &mut vm), Err(LuaError::TypeError));
    assert_eq!(tail_call(abc(1, 0, 0, 0) | 69, &mut vm), Err(LuaError::TypeError));
    assert_eq!(vm.get_top(), 13);
}
