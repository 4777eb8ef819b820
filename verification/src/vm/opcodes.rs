use vstd::prelude::*;

verus! {

pub const OP_MOVE: u8 = 0;
pub const OP_LOADI: u8 = 1;
pub const OP_LOADF: u8 = 2;
pub const OP_LOADK: u8 = 3;
pub const OP_LOADKX: u8 = 4;
pub const OP_LOADFALSE: u8 = 5;
pub const OP_LFALSESKIP: u8 = 6;
pub const OP_LOADTRUE: u8 = 7;
pub const OP_LOADNIL: u8 = 8;
pub const OP_GETUPVAL: u8 = 9;
pub const OP_SETUPVAL: u8 = 10;
pub const OP_GETTABUP: u8 = 11;
pub const OP_GETTABLE: u8 = 12;
pub const OP_GETI: u8 = 13;
pub const OP_GETFIELD: u8 = 14;
pub const OP_SETTABUP: u8 = 15;
pub const OP_SETTABLE: u8 = 16;
pub const OP_SETI: u8 = 17;
pub const OP_SETFIELD: u8 = 18;
pub const OP_NEWTABLE: u8 = 19;
pub const OP_SELF: u8 = 20;
pub const OP_ADDI: u8 = 21;
pub const OP_ADDK: u8 = 22;
pub const OP_SUBK: u8 = 23;
pub const OP_MULK: u8 = 24;
pub const OP_MODK: u8 = 25;
pub const OP_POWK: u8 = 26;
pub const OP_DIVK: u8 = 27;
pub const OP_IDIVK: u8 = 28;
pub const OP_BANDK: u8 = 29;
pub const OP_BORK: u8 = 30;
pub const OP_BXORK: u8 = 31;
pub const OP_SHRI: u8 = 32;
pub const OP_SHLI: u8 = 33;
pub const OP_ADD: u8 = 34;
pub const OP_SUB: u8 = 35;
pub const OP_MUL: u8 = 36;
pub const OP_MOD: u8 = 37;
pub const OP_POW: u8 = 38;
pub const OP_DIV: u8 = 39;
pub const OP_IDIV: u8 = 40;
pub const OP_BAND: u8 = 41;
pub const OP_BOR: u8 = 42;
pub const OP_BXOR: u8 = 43;
pub const OP_SHL: u8 = 44;
pub const OP_SHR: u8 = 45;
pub const OP_MMBIN: u8 = 46;
pub const OP_MMBINI: u8 = 47;
pub const OP_MMBINK: u8 = 48;
pub const OP_UNM: u8 = 49;
pub const OP_BNOT: u8 = 50;
pub const OP_NOT: u8 = 51;
pub const OP_LEN: u8 = 52;
pub const OP_CONCAT: u8 = 53;
pub const OP_CLOSE: u8 = 54;
pub const OP_TBC: u8 = 55;
pub const OP_JMP: u8 = 56;
pub const OP_EQ: u8 = 57;
pub const OP_LT: u8 = 58;
pub const OP_LE: u8 = 59;
pub const OP_EQK: u8 = 60;
pub const OP_EQI: u8 = 61;
pub const OP_LTI: u8 = 62;
pub const OP_LEI: u8 = 63;
pub const OP_GTI: u8 = 64;
pub const OP_GEI: u8 = 65;
pub const OP_TEST: u8 = 66;
pub const OP_TESTSET: u8 = 67;
pub const OP_CALL: u8 = 68;
pub const OP_TAILCALL: u8 = 69;
pub const OP_RETURN: u8 = 70;
pub const OP_RETURN0: u8 = 71;
pub const OP_RETURN1: u8 = 72;
pub const OP_FORLOOP: u8 = 73;
pub const OP_FORPREP: u8 = 74;
pub const OP_TFORPREP: u8 = 75;
pub const OP_TFORCALL: u8 = 76;
pub const OP_TFORLOOP: u8 = 77;
pub const OP_SETLIST: u8 = 78;
pub const OP_CLOSURE: u8 = 79;
pub const OP_VARARG: u8 = 80;
pub const OP_VARARGPREP: u8 = 81;
pub const OP_EXTRAARG: u8 = 82;

/// The layouts of an instruction word.
#[derive(Debug, Clone, Copy, PartialEq, Eq, Structural)]
pub enum OpMode {
    IABC,
    IABx,
    IAsBx,
    IAx,
    IsJ,
}

impl OpMode {
    /// The number of the layout.
    pub open spec fn code(self) -> u8 {
        match self {
            OpMode::IABC => 0,
            OpMode::IABx => 1,
            OpMode::IAsBx => 2,
            OpMode::IAx => 3,
            OpMode::IsJ => 4,
        }
    }

    /// The layout with the given number.
    pub fn from_u8(value: u8) -> (r: OpMode)
        requires
            value <= 4,
        ensures
            r.code() == value,
    {
        match value {
            0 => OpMode::IABC,
            1 => OpMode::IABx,
            2 => OpMode::IAsBx,
            3 => OpMode::IAx,
            _ => OpMode::IsJ,
        }
    }

    /// The number of the layout.
    pub fn to_u8(self) -> (r: u8)
        ensures
            r == self.code(),
    {
        match self {
            OpMode::IABC => 0,
            OpMode::IABx => 1,
            OpMode::IAsBx => 2,
            OpMode::IAx => 3,
            OpMode::IsJ => 4,
        }
    }
}

/// What the machine knows of an opcode: whether it calls a metamethod,
/// whether it sets or uses the top of the stack, whether it is a test,
/// whether it sets register A, its layout and its name.
#[derive(Clone, Copy, Debug)]
pub struct OpCode {
    pub mm: u8,
    pub ot: u8,
    pub it: u8,
    pub t: u8,
    pub a: u8,
    pub opmode: OpMode,
    pub name: &'static str,
}

/// The layout of the instructions with opcode `op`.
pub open spec fn spec_opmode(op: u8) -> OpMode {
    if op == OP_LOADI || op == OP_LOADF {
        OpMode::IAsBx
    } else if op == OP_LOADK || op == OP_LOADKX || op == OP_FORLOOP || op == OP_FORPREP || op
        == OP_TFORPREP || op == OP_TFORLOOP || op == OP_CLOSURE {
        OpMode::IABx
    } else if op == OP_JMP {
        OpMode::IsJ
    } else if op == OP_EXTRAARG {
        OpMode::IAx
    } else {
        OpMode::IABC
    }
}

/// Is `op` one of the tests, which are followed by a jump?
pub open spec fn spec_is_test(op: u8) -> bool {
    OP_EQ <= op <= OP_TESTSET
}

/// Does an instruction with opcode `op` set register A?
pub open spec fn spec_sets_a(op: u8) -> bool {
    op <= OP_EXTRAARG && !(op == OP_SETUPVAL || OP_SETTABUP <= op <= OP_SETFIELD || OP_MMBIN <= op
        <= OP_MMBINK || op == OP_CLOSE || op == OP_TBC || OP_JMP <= op <= OP_TEST || OP_RETURN
        <= op <= OP_RETURN1 || op == OP_TFORPREP || op == OP_TFORCALL || op == OP_SETLIST || op
        == OP_EXTRAARG)
}

/// Builds an entry of the opcode table.
pub fn opcode(mm: u8, ot: u8, it: u8, t: u8, a: u8, opmode: OpMode, name: &'static str) -> (r:
    OpCode)
    ensures
        r.mm == mm,
        r.ot == ot,
        r.it == it,
        r.t == t,
        r.a == a,
        r.opmode == opmode,
        r.name == name,
{
    OpCode { mm, ot, it, t, a, opmode, name }
}

/// The name of opcode `op`.
pub open spec fn spec_opname(op: u8) -> &'static str {
    if op == OP_MOVE { "OP_MOVE" }
    else if op == OP_LOADI { "OP_LOADI" }
    else if op == OP_LOADF { "OP_LOADF" }
    else if op == OP_LOADK { "OP_LOADK" }
    else if op == OP_LOADKX { "OP_LOADKX" }
    else if op == OP_LOADFALSE { "OP_LOADFALSE" }
    else if op == OP_LFALSESKIP { "OP_LFALSESKIP" }
    else if op == OP_LOADTRUE { "OP_LOADTRUE" }
    else if op == OP_LOADNIL { "OP_LOADNIL" }
    else if op == OP_GETUPVAL { "OP_GETUPVAL" }
    else if op == OP_SETUPVAL { "OP_SETUPVAL" }
    else if op == OP_GETTABUP { "OP_GETTABUP" }
    else if op == OP_GETTABLE { "OP_GETTABLE" }
    else if op == OP_GETI { "OP_GETI" }
    else if op == OP_GETFIELD { "OP_GETFIELD" }
    else if op == OP_SETTABUP { "OP_SETTABUP" }
    else if op == OP_SETTABLE { "OP_SETTABLE" }
    else if op == OP_SETI { "OP_SETI" }
    else if op == OP_SETFIELD { "OP_SETFIELD" }
    else if op == OP_NEWTABLE { "OP_NEWTABLE" }
    else if op == OP_SELF { "OP_SELF" }
    else if op == OP_ADDI { "OP_ADDI" }
    else if op == OP_ADDK { "OP_ADDK" }
    else if op == OP_SUBK { "OP_SUBK" }
    else if op == OP_MULK { "OP_MULK" }
    else if op == OP_MODK { "OP_MODK" }
    else if op == OP_POWK { "OP_POWK" }
    else if op == OP_DIVK { "OP_DIVK" }
    else if op == OP_IDIVK { "OP_IDIVK" }
    else if op == OP_BANDK { "OP_BANDK" }
    else if op == OP_BORK { "OP_BORK" }
    else if op == OP_BXORK { "OP_BXORK" }
    else if op == OP_SHRI { "OP_SHRI" }
    else if op == OP_SHLI { "OP_SHLI" }
    else if op == OP_ADD { "OP_ADD" }
    else if op == OP_SUB { "OP_SUB" }
    else if op == OP_MUL { "OP_MUL" }
    else if op == OP_MOD { "OP_MOD" }
    else if op == OP_POW { "OP_POW" }
    else if op == OP_DIV { "OP_DIV" }
    else if op == OP_IDIV { "OP_IDIV" }
    else if op == OP_BAND { "OP_BAND" }
    else if op == OP_BOR { "OP_BOR" }
    else if op == OP_BXOR { "OP_BXOR" }
    else if op == OP_SHL { "OP_SHL" }
    else if op == OP_SHR { "OP_SHR" }
    else if op == OP_MMBIN { "OP_MMBIN" }
    else if op == OP_MMBINI { "OP_MMBINI" }
    else if op == OP_MMBINK { "OP_MMBINK" }
    else if op == OP_UNM { "OP_UNM" }
    else if op == OP_BNOT { "OP_BNOT" }
    else if op == OP_NOT { "OP_NOT" }
    else if op == OP_LEN { "OP_LEN" }
    else if op == OP_CONCAT { "OP_CONCAT" }
    else if op == OP_CLOSE { "OP_CLOSE" }
    else if op == OP_TBC { "OP_TBC" }
    else if op == OP_JMP { "OP_JMP" }
    else if op == OP_EQ { "OP_EQ" }
    else if op == OP_LT { "OP_LT" }
    else if op == OP_LE { "OP_LE" }
    else if op == OP_EQK { "OP_EQK" }
    else if op == OP_EQI { "OP_EQI" }
    else if op == OP_LTI { "OP_LTI" }
    else if op == OP_LEI { "OP_LEI" }
    else if op == OP_GTI { "OP_GTI" }
    else if op == OP_GEI { "OP_GEI" }
    else if op == OP_TEST { "OP_TEST" }
    else if op == OP_TESTSET { "OP_TESTSET" }
    else if op == OP_CALL { "OP_CALL" }
    else if op == OP_TAILCALL { "OP_TAILCALL" }
    else if op == OP_RETURN { "OP_RETURN" }
    else if op == OP_RETURN0 { "OP_RETURN0" }
    else if op == OP_RETURN1 { "OP_RETURN1" }
    else if op == OP_FORLOOP { "OP_FORLOOP" }
    else if op == OP_FORPREP { "OP_FORPREP" }
    else if op == OP_TFORPREP { "OP_TFORPREP" }
    else if op == OP_TFORCALL { "OP_TFORCALL" }
    else if op == OP_TFORLOOP { "OP_TFORLOOP" }
    else if op == OP_SETLIST { "OP_SETLIST" }
    else if op == OP_CLOSURE { "OP_CLOSURE" }
    else if op == OP_VARARG { "OP_VARARG" }
    else if op == OP_VARARGPREP { "OP_VARARGPREP" }
    else { "OP_EXTRAARG" }
}

/// The name of opcode `op`.
pub fn opcode_name(op: u8) -> (r: &'static str)
    requires
        op <= OP_EXTRAARG,
    ensures
        r == spec_opname(op),
{
    match op {
        0 => "OP_MOVE",
        1 => "OP_LOADI",
        2 => "OP_LOADF",
        3 => "OP_LOADK",
        4 => "OP_LOADKX",
        5 => "OP_LOADFALSE",
        6 => "OP_LFALSESKIP",
        7 => "OP_LOADTRUE",
        8 => "OP_LOADNIL",
        9 => "OP_GETUPVAL",
        10 => "OP_SETUPVAL",
        11 => "OP_GETTABUP",
        12 => "OP_GETTABLE",
        13 => "OP_GETI",
        14 => "OP_GETFIELD",
        15 => "OP_SETTABUP",
        16 => "OP_SETTABLE",
        17 => "OP_SETI",
        18 => "OP_SETFIELD",
        19 => "OP_NEWTABLE",
        20 => "OP_SELF",
        21 => "OP_ADDI",
        22 => "OP_ADDK",
        23 => "OP_SUBK",
        24 => "OP_MULK",
        25 => "OP_MODK",
        26 => "OP_POWK",
        27 => "OP_DIVK",
        28 => "OP_IDIVK",
        29 => "OP_BANDK",
        30 => "OP_BORK",
        31 => "OP_BXORK",
        32 => "OP_SHRI",
        33 => "OP_SHLI",
        34 => "OP_ADD",
        35 => "OP_SUB",
        36 => "OP_MUL",
        37 => "OP_MOD",
        38 => "OP_POW",
        39 => "OP_DIV",
        40 => "OP_IDIV",
        41 => "OP_BAND",
        42 => "OP_BOR",
        43 => "OP_BXOR",
        44 => "OP_SHL",
        45 => "OP_SHR",
        46 => "OP_MMBIN",
        47 => "OP_MMBINI",
        48 => "OP_MMBINK",
        49 => "OP_UNM",
        50 => "OP_BNOT",
        51 => "OP_NOT",
        52 => "OP_LEN",
        53 => "OP_CONCAT",
        54 => "OP_CLOSE",
        55 => "OP_TBC",
        56 => "OP_JMP",
        57 => "OP_EQ",
        58 => "OP_LT",
        59 => "OP_LE",
        60 => "OP_EQK",
        61 => "OP_EQI",
        62 => "OP_LTI",
        63 => "OP_LEI",
        64 => "OP_GTI",
        65 => "OP_GEI",
        66 => "OP_TEST",
        67 => "OP_TESTSET",
        68 => "OP_CALL",
        69 => "OP_TAILCALL",
        70 => "OP_RETURN",
        71 => "OP_RETURN0",
        72 => "OP_RETURN1",
        73 => "OP_FORLOOP",
        74 => "OP_FORPREP",
        75 => "OP_TFORPREP",
        76 => "OP_TFORCALL",
        77 => "OP_TFORLOOP",
        78 => "OP_SETLIST",
        79 => "OP_CLOSURE",
        80 => "OP_VARARG",
        81 => "OP_VARARGPREP",
        _ => "OP_EXTRAARG",
    }
}

/// The layout of the instructions with opcode `op`.
pub fn opcode_mode(op: u8) -> (r: OpMode)
    ensures
        r == spec_opmode(op),
{
    if op == OP_LOADI || op == OP_LOADF {
        OpMode::IAsBx
    } else if op == OP_LOADK || op == OP_LOADKX || op == OP_FORLOOP || op == OP_FORPREP || op
        == OP_TFORPREP || op == OP_TFORLOOP || op == OP_CLOSURE {
        OpMode::IABx
    } else if op == OP_JMP {
        OpMode::IsJ
    } else if op == OP_EXTRAARG {
        OpMode::IAx
    } else {
        OpMode::IABC
    }
}

/// The entry of the opcode table for `op`.
pub fn opcode_info(op: u8) -> (r: OpCode)
    requires
        op <= OP_EXTRAARG,
    ensures
        r.opmode == spec_opmode(op),
        r.name == spec_opname(op),
        r.mm == (if OP_MMBIN <= op <= OP_MMBINK { 1u8 } else { 0u8 }),
        r.ot == (if op == OP_CALL || op == OP_TAILCALL || op == OP_VARARG { 1u8 } else { 0u8 }),
        r.it == (if op == OP_CALL || op == OP_TAILCALL || op == OP_RETURN || op == OP_SETLIST || op
            == OP_VARARGPREP { 1u8 } else { 0u8 }),
        r.t == (if spec_is_test(op) { 1u8 } else { 0u8 }),
        r.a == (if spec_sets_a(op) { 1u8 } else { 0u8 }),
{
    let mm: u8 = if OP_MMBIN <= op && op <= OP_MMBINK { 1 } else { 0 };
    let ot: u8 = if op == OP_CALL || op == OP_TAILCALL || op == OP_VARARG { 1 } else { 0 };
    let it: u8 = if op == OP_CALL || op == OP_TAILCALL || op == OP_RETURN || op == OP_SETLIST || op
        == OP_VARARGPREP { 1 } else { 0 };
    let t: u8 = if OP_EQ <= op && op <= OP_TESTSET { 1 } else { 0 };
    let a: u8 = if op == OP_SETUPVAL || (OP_SETTABUP <= op && op <= OP_SETFIELD) || (OP_MMBIN <= op
        && op <= OP_MMBINK) || op == OP_CLOSE || op == OP_TBC || (OP_JMP <= op && op <= OP_TEST)
        || (OP_RETURN <= op && op <= OP_RETURN1) || op == OP_TFORPREP || op == OP_TFORCALL || op
        == OP_SETLIST || op == OP_EXTRAARG { 0 } else { 1 };
    opcode(mm, ot, it, t, a, opcode_mode(op), opcode_name(op))
}

} // verus!
