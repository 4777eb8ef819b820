//! The 32-bit instruction word and its fields.
//!
//! ```text
//!         31      24 23     16 15 14      7 6      0
//! iABC  |    C(8)   |   B(8)  |k |  A(8)   | Op(7)  |
//! iABx  |        Bx(17)          |  A(8)   | Op(7)  |
//! iAsBx |       sBx(17)          |  A(8)   | Op(7)  |
//! iAx   |              Ax(25)              | Op(7)  |
//! isJ   |              sJ(25)              | Op(7)  |
//! ```
use vstd::prelude::*;
use crate::api::consts::{
    LUA_OPADD, LUA_OPBAND, LUA_OPBNOT, LUA_OPBOR, LUA_OPBXOR, LUA_OPDIV, LUA_OPEQ, LUA_OPGE,
    LUA_OPGT, LUA_OPIDIV, LUA_OPLE, LUA_OPLT, LUA_OPMOD, LUA_OPMUL, LUA_OPPOW, LUA_OPSHL,
    LUA_OPSHR, LUA_OPSUB, LUA_OPUNM,
};
use crate::api::lua_vm::LuaVM;
use crate::error::LuaError;
use crate::number::float::spec_int_to_float;
use crate::state::arith_ops::{
    view_answer, FloatAnswer, FloatAnswerView, FloatRequest, FloatRequestView,
};
use crate::state::lua_stack::nils;
use crate::state::lua_state::{lemma_with_pc, proceeds, StateView, Step, StepView};
use crate::state::lua_value::{spec_to_boolean, Val};
use crate::vm::instr_call::{spec_call, spec_closure, spec_return, spec_self, spec_vararg};
use crate::vm::instr_for::{spec_for_loop, spec_for_prep};
use crate::vm::instr_load::{spec_load_kx, with_const_in, with_reg_skip};
use crate::vm::instr_ops::{
    spec_arith_i, spec_arith_k, spec_arith_rr, spec_compare_i, spec_compare_k, spec_compare_rr,
    spec_concat_regs, spec_len, spec_test_set, spec_unary_arith, truth_step,
};
use crate::vm::instr_table::{
    spec_get_field, spec_new_table, spec_rkc, spec_set_field, spec_set_list, table_read,
    table_write,
};
use crate::vm::opcodes::{
    opcode_mode, opcode_name, spec_opmode, spec_opname, OP_ADD, OP_ADDI, OP_ADDK, OP_BAND,
    OP_BANDK, OP_BNOT, OP_BOR, OP_BORK, OP_BXOR, OP_BXORK, OP_CALL, OP_CLOSURE, OP_CONCAT, OP_DIV,
    OP_DIVK, OP_EQ, OP_EQI, OP_EQK, OP_EXTRAARG, OP_FORLOOP, OP_FORPREP, OP_GEI, OP_GETFIELD,
    OP_GETI, OP_GETTABLE, OP_GETTABUP, OP_GTI, OP_IDIV, OP_IDIVK, OP_JMP, OP_LE, OP_LEI, OP_LEN,
    OP_LFALSESKIP, OP_LOADF, OP_LOADFALSE, OP_LOADI, OP_LOADK, OP_LOADKX, OP_LOADNIL,
    OP_LOADTRUE, OP_LT, OP_LTI, OP_MMBIN, OP_MMBINI, OP_MMBINK, OP_MOD, OP_MODK, OP_MOVE, OP_MUL,
    OP_MULK, OP_NEWTABLE, OP_NOT, OP_POW, OP_POWK, OP_RETURN, OP_RETURN0, OP_RETURN1, OP_SELF,
    OP_SETFIELD, OP_SETI, OP_SETLIST, OP_SETTABLE, OP_SETTABUP, OP_SHL, OP_SHLI, OP_SHR, OP_SHRI,
    OP_SUB, OP_SUBK, OP_TAILCALL, OP_TEST, OP_TESTSET, OP_UNM, OP_VARARG, OP_VARARGPREP,
};

verus! {

// The widths of the fields, in bits.
pub const SIZE_A: isize = 8;
pub const SIZE_B: isize = 8;
pub const SIZE_C: isize = 8;
pub const SIZE_K: isize = 1;
pub const SIZE_BX: isize = 17;
pub const SIZE_AX: isize = 25;
pub const SIZE_SJ: isize = 25;
pub const SIZE_OP: isize = 7;

// The positions of the fields: the number of their lowest bit.
pub const POS_OP: isize = 0;
pub const POS_A: isize = 7;
pub const POS_K: isize = 15;
pub const POS_B: isize = 16;
pub const POS_C: isize = 24;
pub const POS_BX: isize = 15;
pub const POS_AX: isize = 7;
pub const POS_SJ: isize = 7;

// The largest values of the fields, and what is taken off the signed ones.
pub const MAXARG_A: isize = 255;
pub const MAXARG_B: isize = 255;
pub const MAXARG_C: isize = 255;
pub const MAXARG_K: isize = 1;
pub const MAXARG_BX: isize = 131071;
pub const MAXARG_AX: isize = 33554431;
pub const OFFSET_SB: isize = 127;
pub const OFFSET_SC: isize = 127;
pub const OFFSET_SBX: isize = 65535;
pub const OFFSET_SJ: isize = 16777215;

/// The opcode: the low seven bits.
pub open spec fn spec_opcode(i: u32) -> u8 {
    (i & 0x7f) as u8
}

/// Field A: eight bits from bit 7.
pub open spec fn spec_arg_a(i: u32) -> int {
    ((i >> 7) & 0xff) as int
}

/// Field B: eight bits from bit 16.
pub open spec fn spec_arg_b(i: u32) -> int {
    ((i >> 16) & 0xff) as int
}

/// Field C: eight bits from bit 24.
pub open spec fn spec_arg_c(i: u32) -> int {
    ((i >> 24) & 0xff) as int
}

/// Field k: bit 15.
pub open spec fn spec_arg_k(i: u32) -> int {
    ((i >> 15) & 1) as int
}

/// Field Ax: the twenty-five bits from bit 7.
pub open spec fn spec_arg_ax(i: u32) -> int {
    (i >> 7) as int
}

/// Field Bx: the seventeen bits from bit 15.
pub open spec fn spec_arg_bx(i: u32) -> int {
    (i >> 15) as int
}

/// Field B as a signed number.
pub open spec fn spec_arg_sb(i: u32) -> int {
    spec_arg_b(i) - OFFSET_SB
}

/// Field C as a signed number.
pub open spec fn spec_arg_sc(i: u32) -> int {
    spec_arg_c(i) - OFFSET_SC
}

/// Field Bx as a signed number.
pub open spec fn spec_arg_sbx(i: u32) -> int {
    spec_arg_bx(i) - OFFSET_SBX
}

/// Field sJ: field Ax as a signed number.
pub open spec fn spec_arg_sj(i: u32) -> int {
    spec_arg_ax(i) - OFFSET_SJ
}

/// The fields fit their widths.
pub proof fn lemma_field_ranges(i: u32)
    ensures
        spec_opcode(i) <= 127,
        0 <= spec_arg_a(i) <= MAXARG_A,
        0 <= spec_arg_b(i) <= MAXARG_B,
        0 <= spec_arg_c(i) <= MAXARG_C,
        0 <= spec_arg_k(i) <= MAXARG_K,
        0 <= spec_arg_ax(i) <= MAXARG_AX,
        0 <= spec_arg_bx(i) <= MAXARG_BX,
{
    assert((i & 0x7f) <= 127) by (bit_vector);
    assert(((i >> 7) & 0xff) <= 255) by (bit_vector);
    assert(((i >> 16) & 0xff) <= 255) by (bit_vector);
    assert(((i >> 24) & 0xff) <= 255) by (bit_vector);
    assert(((i >> 15) & 1) <= 1) by (bit_vector);
    assert((i >> 7) <= 33554431) by (bit_vector);
    assert((i >> 15) <= 131071) by (bit_vector);
}

/// What an instruction word holds.
pub trait Instruction: Sized {
    /// The word itself.
    spec fn word(self) -> u32;

    fn opname(self) -> (r: &'static str)
        requires
            spec_opcode(self.word()) <= OP_EXTRAARG,
        ensures
            r == spec_opname(spec_opcode(self.word())),
    ;

    fn opmode(self) -> (r: u8)
        ensures
            r == spec_opmode(spec_opcode(self.word())).code(),
    ;

    fn opcode(self) -> (r: u8)
        ensures
            r == spec_opcode(self.word()),
            r <= 127,
    ;

    fn get_arg_a(self) -> (r: isize)
        ensures
            r == spec_arg_a(self.word()),
            0 <= r <= MAXARG_A,
    ;

    fn get_arg_b(self) -> (r: isize)
        ensures
            r == spec_arg_b(self.word()),
            0 <= r <= MAXARG_B,
    ;

    fn get_arg_c(self) -> (r: isize)
        ensures
            r == spec_arg_c(self.word()),
            0 <= r <= MAXARG_C,
    ;

    fn get_arg_k(self) -> (r: isize)
        ensures
            r == spec_arg_k(self.word()),
            0 <= r <= MAXARG_K,
    ;

    fn get_arg_ax(self) -> (r: isize)
        ensures
            r == spec_arg_ax(self.word()),
            0 <= r <= MAXARG_AX,
    ;

    fn get_arg_bx(self) -> (r: isize)
        ensures
            r == spec_arg_bx(self.word()),
            0 <= r <= MAXARG_BX,
    ;

    fn get_arg_sb(self) -> (r: isize)
        ensures
            r == spec_arg_sb(self.word()),
    ;

    fn get_arg_sc(self) -> (r: isize)
        ensures
            r == spec_arg_sc(self.word()),
    ;

    fn get_arg_sbx(self) -> (r: isize)
        ensures
            r == spec_arg_sbx(self.word()),
    ;

    fn get_arg_sj(self) -> (r: isize)
        ensures
            r == spec_arg_sj(self.word()),
    ;

    fn execute<V: LuaVM>(
        self,
        vm: &mut V,
        answer: Option<&FloatAnswer>,
    ) -> (r: Result<Step, LuaError>)
        requires
            old(vm).valid(),
        ensures
            final(vm).valid(),
            proceeds(
                r,
                old(vm).state(),
                final(vm).state(),
                spec_execute(old(vm).state(), self.word(), view_answer(answer)),
            ),
    ;
}

impl Instruction for u32 {
    open spec fn word(self) -> u32 {
        self
    }

    fn opname(self) -> (r: &'static str) {
        opcode_name(self.opcode())
    }

    fn opmode(self) -> (r: u8) {
        opcode_mode(self.opcode()).to_u8()
    }

    fn opcode(self) -> (r: u8) {
        proof {
            lemma_field_ranges(self);
        }
        (self & 0x7f) as u8
    }

    fn get_arg_a(self) -> (r: isize) {
        proof {
            lemma_field_ranges(self);
        }
        ((self >> 7) & 0xff) as isize
    }

    fn get_arg_b(self) -> (r: isize) {
        proof {
            lemma_field_ranges(self);
        }
        ((self >> 16) & 0xff) as isize
    }

    fn get_arg_c(self) -> (r: isize) {
        proof {
            lemma_field_ranges(self);
        }
        ((self >> 24) & 0xff) as isize
    }

    fn get_arg_k(self) -> (r: isize) {
        proof {
            lemma_field_ranges(self);
        }
        ((self >> 15) & 1) as isize
    }

    fn get_arg_ax(self) -> (r: isize) {
        proof {
            lemma_field_ranges(self);
        }
        (self >> 7) as isize
    }

    fn get_arg_bx(self) -> (r: isize) {
        proof {
            lemma_field_ranges(self);
        }
        (self >> 15) as isize
    }

    fn get_arg_sb(self) -> (r: isize) {
        self.get_arg_b() - OFFSET_SB
    }

    fn get_arg_sc(self) -> (r: isize) {
        self.get_arg_c() - OFFSET_SC
    }

    fn get_arg_sbx(self) -> (r: isize) {
        self.get_arg_bx() - OFFSET_SBX
    }

    fn get_arg_sj(self) -> (r: isize) {
        self.get_arg_ax() - OFFSET_SJ
    }

    fn execute<V: LuaVM>(
        self,
        vm: &mut V,
        answer: Option<&FloatAnswer>,
    ) -> (r: Result<Step, LuaError>) {
        self::execute(self, vm, answer)
    }
}

/// The outcome of an instruction that makes no request.
pub open spec fn plain(r: Result<StateView, LuaError>) -> Result<(StepView, StateView), LuaError> {
    match r {
        Ok(s) => Ok((StepView::Continue, s)),
        Err(e) => Err(e),
    }
}

/// The outcome of an instruction that may make a request.
pub open spec fn asking(r: Result<(Option<FloatRequestView>, StateView), LuaError>) -> Result<
    (StepView, StateView),
    LuaError,
> {
    match r {
        Ok((Some(req), s)) => Ok((StepView::Float(req), s)),
        Ok((None, s)) => Ok((StepView::Continue, s)),
        Err(e) => Err(e),
    }
}

/// What an instruction among the loads does; see `spec_execute`.
pub open spec fn spec_execute_load(s: StateView, i: u32, ans: Option<FloatAnswerView>) -> Result<
    (StepView, StateView),
    LuaError,
> {
    let op = spec_opcode(i);
    if op == OP_MOVE {
        plain(s.with_reg(spec_arg_a(i) + 1, s.get(spec_arg_b(i) + 1)))
    } else if op == OP_LOADI {
        plain(s.with_reg(spec_arg_a(i) + 1, Val::Integer(spec_arg_sbx(i) as i64)))
    } else if op == OP_LOADF {
        plain(s.with_reg(spec_arg_a(i) + 1, Val::Number(spec_int_to_float(spec_arg_sbx(i) as i64))))
    } else if op == OP_LOADK {
        plain(with_const_in(s, spec_arg_a(i) + 1, spec_arg_bx(i)))
    } else if op == OP_LOADKX {
        plain(spec_load_kx(s, i))
    } else if op == OP_LOADFALSE {
        plain(s.with_reg(spec_arg_a(i) + 1, Val::Boolean(false)))
    } else if op == OP_LFALSESKIP {
        plain(with_reg_skip(s, spec_arg_a(i) + 1, Val::Boolean(false)))
    } else if op == OP_LOADTRUE {
        plain(s.with_reg(spec_arg_a(i) + 1, Val::Boolean(true)))
    } else if op == OP_LOADNIL {
        plain(s.with_regs(spec_arg_a(i) + 1, nils(spec_arg_b(i) + 1)))
    } else {
        Err(LuaError::CorruptChunk)
    }
}

/// What an instruction among the instructions on tables does; see `spec_execute`.
pub open spec fn spec_execute_table(s: StateView, i: u32, ans: Option<FloatAnswerView>) -> Result<
    (StepView, StateView),
    LuaError,
> {
    let op = spec_opcode(i);
    if op == OP_GETTABUP {
        plain(table_read(s, spec_arg_a(i) + 1, s.globals(), s.konst(spec_arg_c(i))))
    } else if op == OP_GETTABLE {
        plain(table_read(s, spec_arg_a(i) + 1, s.get(spec_arg_b(i) + 1), Some(s.get(spec_arg_c(i) + 1))))
    } else if op == OP_GETI {
        plain(table_read(s, spec_arg_a(i) + 1, s.get(spec_arg_b(i) + 1), Some(Val::Integer(spec_arg_c(i) as i64))))
    } else if op == OP_GETFIELD {
        asking(spec_get_field(s, i, ans))
    } else if op == OP_SETTABUP {
        plain(table_write(s, s.globals(), s.konst(spec_arg_b(i)), spec_rkc(s, i)))
    } else if op == OP_SETTABLE {
        plain(table_write(s, s.get(spec_arg_a(i) + 1), Some(s.get(spec_arg_b(i) + 1)), spec_rkc(s, i)))
    } else if op == OP_SETI {
        plain(table_write(s, s.get(spec_arg_a(i) + 1), Some(Val::Integer(spec_arg_b(i) as i64)), spec_rkc(s, i)))
    } else if op == OP_SETFIELD {
        asking(spec_set_field(s, i, ans))
    } else if op == OP_NEWTABLE {
        plain(spec_new_table(s, i))
    } else if op == OP_SELF {
        plain(spec_self(s, i))
    } else {
        Err(LuaError::CorruptChunk)
    }
}

/// What an instruction among the arithmetic does; see `spec_execute`.
pub open spec fn spec_execute_arith(s: StateView, i: u32, ans: Option<FloatAnswerView>) -> Result<
    (StepView, StateView),
    LuaError,
> {
    let op = spec_opcode(i);
    if op == OP_ADDI {
        asking(spec_arith_i(s, i, LUA_OPADD, ans))
    } else if op == OP_ADDK {
        asking(spec_arith_k(s, i, LUA_OPADD, ans))
    } else if op == OP_SUBK {
        asking(spec_arith_k(s, i, LUA_OPSUB, ans))
    } else if op == OP_MULK {
        asking(spec_arith_k(s, i, LUA_OPMUL, ans))
    } else if op == OP_MODK {
        asking(spec_arith_k(s, i, LUA_OPMOD, ans))
    } else if op == OP_POWK {
        asking(spec_arith_k(s, i, LUA_OPPOW, ans))
    } else if op == OP_DIVK {
        asking(spec_arith_k(s, i, LUA_OPDIV, ans))
    } else if op == OP_IDIVK {
        asking(spec_arith_k(s, i, LUA_OPIDIV, ans))
    } else if op == OP_BANDK {
        asking(spec_arith_k(s, i, LUA_OPBAND, ans))
    } else if op == OP_BORK {
        asking(spec_arith_k(s, i, LUA_OPBOR, ans))
    } else if op == OP_BXORK {
        asking(spec_arith_k(s, i, LUA_OPBXOR, ans))
    } else if op == OP_SHRI {
        asking(spec_arith_i(s, i, LUA_OPSHR, ans))
    } else if op == OP_SHLI {
        asking(spec_arith_i(s, i, LUA_OPSHL, ans))
    } else if op == OP_ADD {
        asking(spec_arith_rr(s, i, LUA_OPADD, ans))
    } else if op == OP_SUB {
        asking(spec_arith_rr(s, i, LUA_OPSUB, ans))
    } else if op == OP_MUL {
        asking(spec_arith_rr(s, i, LUA_OPMUL, ans))
    } else if op == OP_MOD {
        asking(spec_arith_rr(s, i, LUA_OPMOD, ans))
    } else if op == OP_POW {
        asking(spec_arith_rr(s, i, LUA_OPPOW, ans))
    } else if op == OP_DIV {
        asking(spec_arith_rr(s, i, LUA_OPDIV, ans))
    } else if op == OP_IDIV {
        asking(spec_arith_rr(s, i, LUA_OPIDIV, ans))
    } else if op == OP_BAND {
        asking(spec_arith_rr(s, i, LUA_OPBAND, ans))
    } else if op == OP_BOR {
        asking(spec_arith_rr(s, i, LUA_OPBOR, ans))
    } else if op == OP_BXOR {
        asking(spec_arith_rr(s, i, LUA_OPBXOR, ans))
    } else if op == OP_SHL {
        asking(spec_arith_rr(s, i, LUA_OPSHL, ans))
    } else if op == OP_SHR {
        asking(spec_arith_rr(s, i, LUA_OPSHR, ans))
    } else if op == OP_MMBIN {
        Ok((StepView::Continue, s))
    } else if op == OP_MMBINI {
        Ok((StepView::Continue, s))
    } else if op == OP_MMBINK {
        Ok((StepView::Continue, s))
    } else if op == OP_UNM {
        asking(spec_unary_arith(s, i, LUA_OPUNM, ans))
    } else if op == OP_BNOT {
        asking(spec_unary_arith(s, i, LUA_OPBNOT, ans))
    } else if op == OP_NOT {
        plain(s.with_reg(spec_arg_a(i) + 1, Val::Boolean(!spec_to_boolean(s.get(spec_arg_b(i) + 1)))))
    } else if op == OP_LEN {
        plain(spec_len(s, i))
    } else if op == OP_CONCAT {
        asking(spec_concat_regs(s, i, ans))
    } else {
        Err(LuaError::CorruptChunk)
    }
}

/// What an instruction among the comparisons, jumps, calls and loops does; see `spec_execute`.
pub open spec fn spec_execute_control(s: StateView, i: u32, ans: Option<FloatAnswerView>) -> Result<
    (StepView, StateView),
    LuaError,
> {
    let op = spec_opcode(i);
    if op == OP_JMP {
        plain(s.jumped(spec_arg_sj(i)))
    } else if op == OP_EQ {
        plain(spec_compare_rr(s, i, LUA_OPEQ))
    } else if op == OP_LT {
        plain(spec_compare_rr(s, i, LUA_OPLT))
    } else if op == OP_LE {
        plain(spec_compare_rr(s, i, LUA_OPLE))
    } else if op == OP_EQK {
        plain(spec_compare_k(s, i, LUA_OPEQ))
    } else if op == OP_EQI {
        plain(spec_compare_i(s, i, LUA_OPEQ))
    } else if op == OP_LTI {
        plain(spec_compare_i(s, i, LUA_OPLT))
    } else if op == OP_LEI {
        plain(spec_compare_i(s, i, LUA_OPLE))
    } else if op == OP_GTI {
        plain(spec_compare_i(s, i, LUA_OPGT))
    } else if op == OP_GEI {
        plain(spec_compare_i(s, i, LUA_OPGE))
    } else if op == OP_TEST {
        plain(truth_step(s, s.get(spec_arg_a(i) + 1), spec_arg_k(i)))
    } else if op == OP_TESTSET {
        plain(spec_test_set(s, i))
    } else if op == OP_CALL {
        spec_call(s, i, spec_arg_c(i) - 1)
    } else if op == OP_TAILCALL {
        spec_call(s, i, -1)
    } else if op == OP_RETURN {
        spec_return(s, spec_arg_a(i) + 1, spec_arg_b(i))
    } else if op == OP_RETURN0 {
        spec_return(s, 1, 1)
    } else if op == OP_RETURN1 {
        spec_return(s, spec_arg_a(i) + 1, 2)
    } else if op == OP_FORLOOP {
        asking(spec_for_loop(s, i, ans))
    } else if op == OP_FORPREP {
        plain(spec_for_prep(s, i))
    } else if op == OP_SETLIST {
        plain(spec_set_list(s, i))
    } else if op == OP_CLOSURE {
        plain(spec_closure(s, i))
    } else if op == OP_VARARG {
        plain(spec_vararg(s, i))
    } else if op == OP_VARARGPREP {
        Ok((StepView::Continue, s))
    } else {
        Err(LuaError::CorruptChunk)
    }
}

/// What the instruction `i` does to the state `s`, the program counter
/// being behind it already, and what the machine is to do next. `ans` is
/// the answer to the request that the instruction made before, if it made
/// one. An instruction that the machine does not know fails, and so do the
/// instructions on upvalues other than the table of globals, on variables
/// to be closed, and the generic `for` loop.
pub open spec fn spec_execute(s: StateView, i: u32, ans: Option<FloatAnswerView>) -> Result<
    (StepView, StateView),
    LuaError,
> {
    let op = spec_opcode(i);
    if op <= OP_LOADNIL {
        spec_execute_load(s, i, ans)
    } else if op <= OP_SELF {
        spec_execute_table(s, i, ans)
    } else if op <= OP_CONCAT {
        spec_execute_arith(s, i, ans)
    } else {
        spec_execute_control(s, i, ans)
    }
}

/// What one step of the machine does: the instruction at the program
/// counter is executed. Where it makes a request, the program counter
/// stays on it, so that the next step, which brings the answer, executes
/// it again. Where it fails, the state stays as it was.
pub open spec fn spec_step(s: StateView, ans: Option<FloatAnswerView>) -> Result<
    (StepView, StateView),
    LuaError,
> {
    match s.fetched_word() {
        Ok((w, sa)) => match spec_execute(sa, w, ans) {
            Ok((StepView::Float(r), sz)) => Ok((StepView::Float(r), sz.with_pc(s.frame().pc))),
            Ok((step, sz)) => Ok((step, sz)),
            Err(e) => Err(e),
        },
        Err(e) => Err(e),
    }
}

/// What at most `fuel` steps of the machine do, none of which brings an
/// answer: how they end, and the state that they leave. The machine stops
/// where a step fails, makes a request or hands over to the host; where
/// the frame that ran at first, the state then having `depth` frames, has
/// returned; and where the steps are used up, which reads as a step that
/// can be followed by another.
pub open spec fn spec_run(s: StateView, fuel: nat, depth: nat) -> (Result<StepView, LuaError>, StateView)
    decreases fuel,
{
    if fuel == 0 {
        (Ok(StepView::Continue), s)
    } else {
        match spec_step(s, None) {
            Ok((StepView::Continue, sa)) => spec_run(sa, (fuel - 1) as nat, depth),
            Ok((StepView::Return, sa)) => if sa.frames.len() < depth || depth <= 1 {
                (Ok(StepView::Return), sa)
            } else {
                spec_run(sa, (fuel - 1) as nat, depth)
            },
            Ok((step, sa)) => (Ok(step), sa),
            Err(e) => (Err(e), s),
        }
    }
}

/// The step after an instruction that makes no request.
fn plain_step(r: Result<(), LuaError>) -> (res: Result<Step, LuaError>)
    ensures
        match r {
            Ok(_) => res.is_ok() && res.unwrap()@ == StepView::Continue,
            Err(e) => res.is_err() && res.unwrap_err() == e,
        },
{
    match r {
        Ok(_) => Ok(Step::Continue),
        Err(e) => Err(e),
    }
}

/// The step after an instruction that may make a request.
fn asking_step(r: Result<Option<FloatRequest>, LuaError>) -> (res: Result<Step, LuaError>)
    ensures
        match r {
            Ok(Some(req)) => res.is_ok() && res.unwrap()@ == StepView::Float(req@),
            Ok(None) => res.is_ok() && res.unwrap()@ == StepView::Continue,
            Err(e) => res.is_err() && res.unwrap_err() == e,
        },
{
    match r {
        Ok(Some(req)) => Ok(Step::Float(req)),
        Ok(None) => Ok(Step::Continue),
        Err(e) => Err(e),
    }
}

/// Executes an instruction among the loads.
fn execute_load<V: LuaVM>(
    i: u32,
    vm: &mut V,
    answer: Option<&FloatAnswer>,
) -> (r: Result<Step, LuaError>)
    requires
        old(vm).valid(),
    ensures
        final(vm).valid(),
        proceeds(
            r,
            old(vm).state(),
            final(vm).state(),
            spec_execute_load(old(vm).state(), i, view_answer(answer)),
        ),
{
    let op = i.opcode();
    if op == OP_MOVE {
        plain_step(crate::vm::instr_misc::_move(i, vm))
    } else if op == OP_LOADI {
        plain_step(crate::vm::instr_load::load_i(i, vm))
    } else if op == OP_LOADF {
        plain_step(crate::vm::instr_load::load_f(i, vm))
    } else if op == OP_LOADK {
        plain_step(crate::vm::instr_load::load_k(i, vm))
    } else if op == OP_LOADKX {
        plain_step(crate::vm::instr_load::load_kx(i, vm))
    } else if op == OP_LOADFALSE {
        plain_step(crate::vm::instr_load::load_false(i, vm))
    } else if op == OP_LFALSESKIP {
        plain_step(crate::vm::instr_load::load_l_false_skip(i, vm))
    } else if op == OP_LOADTRUE {
        plain_step(crate::vm::instr_load::load_true(i, vm))
    } else if op == OP_LOADNIL {
        plain_step(crate::vm::instr_load::load_nil(i, vm))
    } else {
        Err(LuaError::CorruptChunk)
    }
}

/// Executes an instruction among the instructions on tables.
fn execute_table<V: LuaVM>(
    i: u32,
    vm: &mut V,
    answer: Option<&FloatAnswer>,
) -> (r: Result<Step, LuaError>)
    requires
        old(vm).valid(),
    ensures
        final(vm).valid(),
        proceeds(
            r,
            old(vm).state(),
            final(vm).state(),
            spec_execute_table(old(vm).state(), i, view_answer(answer)),
        ),
{
    let op = i.opcode();
    if op == OP_GETTABUP {
        plain_step(crate::vm::instr_upval::get_tab_up(i, vm))
    } else if op == OP_GETTABLE {
        plain_step(crate::vm::instr_table::get_table(i, vm))
    } else if op == OP_GETI {
        plain_step(crate::vm::instr_table::get_i(i, vm))
    } else if op == OP_GETFIELD {
        asking_step(crate::vm::instr_table::get_field(i, vm, answer))
    } else if op == OP_SETTABUP {
        plain_step(crate::vm::instr_upval::set_tab_up(i, vm))
    } else if op == OP_SETTABLE {
        plain_step(crate::vm::instr_table::set_table(i, vm))
    } else if op == OP_SETI {
        plain_step(crate::vm::instr_table::set_i(i, vm))
    } else if op == OP_SETFIELD {
        asking_step(crate::vm::instr_table::set_field(i, vm, answer))
    } else if op == OP_NEWTABLE {
        plain_step(crate::vm::instr_table::new_table(i, vm))
    } else if op == OP_SELF {
        plain_step(crate::vm::instr_call::_self(i, vm))
    } else {
        Err(LuaError::CorruptChunk)
    }
}

/// Executes an instruction among the arithmetic.
fn execute_arith<V: LuaVM>(
    i: u32,
    vm: &mut V,
    answer: Option<&FloatAnswer>,
) -> (r: Result<Step, LuaError>)
    requires
        old(vm).valid(),
    ensures
        final(vm).valid(),
        proceeds(
            r,
            old(vm).state(),
            final(vm).state(),
            spec_execute_arith(old(vm).state(), i, view_answer(answer)),
        ),
{
    let op = i.opcode();
    if op == OP_ADDI {
        asking_step(crate::vm::instr_ops::add_i(i, vm, answer))
    } else if op == OP_ADDK {
        asking_step(crate::vm::instr_ops::add_k(i, vm, answer))
    } else if op == OP_SUBK {
        asking_step(crate::vm::instr_ops::sub_k(i, vm, answer))
    } else if op == OP_MULK {
        asking_step(crate::vm::instr_ops::mul_k(i, vm, answer))
    } else if op == OP_MODK {
        asking_step(crate::vm::instr_ops::_mod_k(i, vm, answer))
    } else if op == OP_POWK {
        asking_step(crate::vm::instr_ops::pow_k(i, vm, answer))
    } else if op == OP_DIVK {
        asking_step(crate::vm::instr_ops::div_k(i, vm, answer))
    } else if op == OP_IDIVK {
        asking_step(crate::vm::instr_ops::idiv_k(i, vm, answer))
    } else if op == OP_BANDK {
        asking_step(crate::vm::instr_ops::band_k(i, vm, answer))
    } else if op == OP_BORK {
        asking_step(crate::vm::instr_ops::bor_k(i, vm, answer))
    } else if op == OP_BXORK {
        asking_step(crate::vm::instr_ops::bxor_k(i, vm, answer))
    } else if op == OP_SHRI {
        asking_step(crate::vm::instr_ops::shr_i(i, vm, answer))
    } else if op == OP_SHLI {
        asking_step(crate::vm::instr_ops::shl_i(i, vm, answer))
    } else if op == OP_ADD {
        asking_step(crate::vm::instr_ops::add(i, vm, answer))
    } else if op == OP_SUB {
        asking_step(crate::vm::instr_ops::sub(i, vm, answer))
    } else if op == OP_MUL {
        asking_step(crate::vm::instr_ops::mul(i, vm, answer))
    } else if op == OP_MOD {
        asking_step(crate::vm::instr_ops::_mod(i, vm, answer))
    } else if op == OP_POW {
        asking_step(crate::vm::instr_ops::pow(i, vm, answer))
    } else if op == OP_DIV {
        asking_step(crate::vm::instr_ops::div(i, vm, answer))
    } else if op == OP_IDIV {
        asking_step(crate::vm::instr_ops::idiv(i, vm, answer))
    } else if op == OP_BAND {
        asking_step(crate::vm::instr_ops::band(i, vm, answer))
    } else if op == OP_BOR {
        asking_step(crate::vm::instr_ops::bor(i, vm, answer))
    } else if op == OP_BXOR {
        asking_step(crate::vm::instr_ops::bxor(i, vm, answer))
    } else if op == OP_SHL {
        asking_step(crate::vm::instr_ops::shl(i, vm, answer))
    } else if op == OP_SHR {
        asking_step(crate::vm::instr_ops::shr(i, vm, answer))
    } else if op == OP_MMBIN {
        Ok(Step::Continue)
    } else if op == OP_MMBINI {
        Ok(Step::Continue)
    } else if op == OP_MMBINK {
        Ok(Step::Continue)
    } else if op == OP_UNM {
        asking_step(crate::vm::instr_ops::unm(i, vm, answer))
    } else if op == OP_BNOT {
        asking_step(crate::vm::instr_ops::bnot(i, vm, answer))
    } else if op == OP_NOT {
        plain_step(crate::vm::instr_ops::not(i, vm))
    } else if op == OP_LEN {
        plain_step(crate::vm::instr_ops::len(i, vm))
    } else if op == OP_CONCAT {
        asking_step(crate::vm::instr_ops::concat(i, vm, answer))
    } else {
        Err(LuaError::CorruptChunk)
    }
}

/// Executes an instruction among the comparisons, jumps, calls and loops.
fn execute_control<V: LuaVM>(
    i: u32,
    vm: &mut V,
    answer: Option<&FloatAnswer>,
) -> (r: Result<Step, LuaError>)
    requires
        old(vm).valid(),
    ensures
        final(vm).valid(),
        proceeds(
            r,
            old(vm).state(),
            final(vm).state(),
            spec_execute_control(old(vm).state(), i, view_answer(answer)),
        ),
{
    let op = i.opcode();
    if op == OP_JMP {
        plain_step(crate::vm::instr_misc::jmp(i, vm))
    } else if op == OP_EQ {
        plain_step(crate::vm::instr_ops::eq(i, vm))
    } else if op == OP_LT {
        plain_step(crate::vm::instr_ops::lt(i, vm))
    } else if op == OP_LE {
        plain_step(crate::vm::instr_ops::le(i, vm))
    } else if op == OP_EQK {
        plain_step(crate::vm::instr_ops::eq_k(i, vm))
    } else if op == OP_EQI {
        plain_step(crate::vm::instr_ops::eq_i(i, vm))
    } else if op == OP_LTI {
        plain_step(crate::vm::instr_ops::lt_i(i, vm))
    } else if op == OP_LEI {
        plain_step(crate::vm::instr_ops::le_i(i, vm))
    } else if op == OP_GTI {
        plain_step(crate::vm::instr_ops::gt_i(i, vm))
    } else if op == OP_GEI {
        plain_step(crate::vm::instr_ops::ge_i(i, vm))
    } else if op == OP_TEST {
        plain_step(crate::vm::instr_ops::test(i, vm))
    } else if op == OP_TESTSET {
        plain_step(crate::vm::instr_ops::test_set(i, vm))
    } else if op == OP_CALL {
        crate::vm::instr_call::call(i, vm)
    } else if op == OP_TAILCALL {
        crate::vm::instr_call::tail_call(i, vm)
    } else if op == OP_RETURN {
        crate::vm::instr_call::_return(i, vm)
    } else if op == OP_RETURN0 {
        crate::vm::instr_call::return0(i, vm)
    } else if op == OP_RETURN1 {
        crate::vm::instr_call::return1(i, vm)
    } else if op == OP_FORLOOP {
        asking_step(crate::vm::instr_for::for_loop(i, vm, answer))
    } else if op == OP_FORPREP {
        plain_step(crate::vm::instr_for::for_prep(i, vm))
    } else if op == OP_SETLIST {
        plain_step(crate::vm::instr_table::set_list(i, vm))
    } else if op == OP_CLOSURE {
        plain_step(crate::vm::instr_call::closure(i, vm))
    } else if op == OP_VARARG {
        plain_step(crate::vm::instr_call::vararg(i, vm))
    } else if op == OP_VARARGPREP {
        Ok(Step::Continue)
    } else {
        Err(LuaError::CorruptChunk)
    }
}

/// Executes the instruction `i`, the program counter being behind it
/// already; see `spec_execute`.
pub fn execute<V: LuaVM>(
    i: u32,
    vm: &mut V,
    answer: Option<&FloatAnswer>,
) -> (r: Result<Step, LuaError>)
    requires
        old(vm).valid(),
    ensures
        final(vm).valid(),
        proceeds(
            r,
            old(vm).state(),
            final(vm).state(),
            spec_execute(old(vm).state(), i, view_answer(answer)),
        ),
{
    let op = i.opcode();
    if op <= OP_LOADNIL {
        execute_load(i, vm, answer)
    } else if op <= OP_SELF {
        execute_table(i, vm, answer)
    } else if op <= OP_CONCAT {
        execute_arith(i, vm, answer)
    } else {
        execute_control(i, vm, answer)
    }
}

/// Executes the instruction at the program counter; see `spec_step`.
pub fn step<V: LuaVM>(vm: &mut V, answer: Option<&FloatAnswer>) -> (r: Result<Step, LuaError>)
    requires
        old(vm).valid(),
    ensures
        final(vm).valid(),
        proceeds(
            r,
            old(vm).state(),
            final(vm).state(),
            spec_step(old(vm).state(), view_answer(answer)),
        ),
{
    proof {
        vm.lemma_valid();
    }
    let pc = vm.pc();
    let w = match vm.fetch() {
        Ok(w) => w,
        Err(e) => {
            return Err(e);
        },
    };
    match execute(w, vm, answer) {
        Ok(Step::Float(req)) => {
            vm.set_pc(pc);
            Ok(Step::Float(req))
        },
        Ok(s) => Ok(s),
        Err(e) => {
            vm.set_pc(pc);
            proof {
                lemma_with_pc(old(vm).state(), pc + 1, pc as int);
            }
            Err(e)
        },
    }
}

/// Executes instructions, at most `fuel` of them, until the frame that
/// runs has returned or the machine needs its caller; see `spec_run`.
pub fn run<V: LuaVM>(vm: &mut V, fuel: usize) -> (r: Result<Step, LuaError>)
    requires
        old(vm).valid(),
    ensures
        final(vm).valid(),
        final(vm).state() == spec_run(old(vm).state(), fuel as nat, old(vm).state().frames.len()).1,
        match spec_run(old(vm).state(), fuel as nat, old(vm).state().frames.len()).0 {
            Ok(step) => r.is_ok() && r.unwrap()@ == step,
            Err(e) => r.is_err() && r.unwrap_err() == e,
        },
{
    let depth = vm.depth();
    let mut left = fuel;
    while left > 0
        invariant
            vm.valid(),
            depth == old(vm).state().frames.len(),
            spec_run(vm.state(), left as nat, depth as nat) == spec_run(
                old(vm).state(),
                fuel as nat,
                depth as nat,
            ),
        decreases left,
    {
        match step(vm, None) {
            Ok(Step::Continue) => {},
            Ok(Step::Return) => {
                if vm.depth() < depth || depth <= 1 {
                    return Ok(Step::Return);
                }
            },
            Ok(s) => {
                return Ok(s);
            },
            Err(e) => {
                return Err(e);
            },
        }
        left -= 1;
    }
    Ok(Step::Continue)
}

} // verus!
