use vstd::prelude::*;
use crate::api::consts::{
    LUA_OPADD, LUA_OPBAND, LUA_OPBNOT, LUA_OPBOR, LUA_OPBXOR, LUA_OPDIV, LUA_OPEQ, LUA_OPGE, LUA_OPGT,
    LUA_OPIDIV, LUA_OPLE, LUA_OPLT, LUA_OPMOD, LUA_OPMUL, LUA_OPPOW, LUA_OPSHL, LUA_OPSHR, LUA_OPSUB,
    LUA_OPUNM,
};

verus! {

/// The arithmetic and bitwise operators, in the order of their codes.
#[allow(non_camel_case_types)]
#[derive(Debug, Clone, Copy, PartialEq, Eq, Structural)]
pub enum ArithOp {
    ADD,
    SUB,
    MUL,
    MOD,
    POW,
    DIV,
    IDIV,
    BAND,
    BOR,
    BXOR,
    SHL,
    SHR,
    UNM,
    BNOT,
}

impl ArithOp {
    /// The code of the operator.
    pub open spec fn code(self) -> u8 {
        match self {
            ArithOp::ADD => LUA_OPADD,
            ArithOp::SUB => LUA_OPSUB,
            ArithOp::MUL => LUA_OPMUL,
            ArithOp::MOD => LUA_OPMOD,
            ArithOp::POW => LUA_OPPOW,
            ArithOp::DIV => LUA_OPDIV,
            ArithOp::IDIV => LUA_OPIDIV,
            ArithOp::BAND => LUA_OPBAND,
            ArithOp::BOR => LUA_OPBOR,
            ArithOp::BXOR => LUA_OPBXOR,
            ArithOp::SHL => LUA_OPSHL,
            ArithOp::SHR => LUA_OPSHR,
            ArithOp::UNM => LUA_OPUNM,
            ArithOp::BNOT => LUA_OPBNOT,
        }
    }

    /// The operator with the given code, if there is one.
    pub fn from_u8(value: u8) -> (r: Option<ArithOp>)
        ensures
            value <= LUA_OPBNOT <==> r.is_some(),
            r matches Some(op) ==> op.code() == value,
    {
        match value {
            0 => Some(ArithOp::ADD),
            1 => Some(ArithOp::SUB),
            2 => Some(ArithOp::MUL),
            3 => Some(ArithOp::MOD),
            4 => Some(ArithOp::POW),
            5 => Some(ArithOp::DIV),
            6 => Some(ArithOp::IDIV),
            7 => Some(ArithOp::BAND),
            8 => Some(ArithOp::BOR),
            9 => Some(ArithOp::BXOR),
            10 => Some(ArithOp::SHL),
            11 => Some(ArithOp::SHR),
            12 => Some(ArithOp::UNM),
            13 => Some(ArithOp::BNOT),
            _ => None,
        }
    }

    /// The code of the operator.
    pub fn to_u8(self) -> (r: u8)
        ensures
            r == self.code(),
    {
        match self {
            ArithOp::ADD => 0,
            ArithOp::SUB => 1,
            ArithOp::MUL => 2,
            ArithOp::MOD => 3,
            ArithOp::POW => 4,
            ArithOp::DIV => 5,
            ArithOp::IDIV => 6,
            ArithOp::BAND => 7,
            ArithOp::BOR => 8,
            ArithOp::BXOR => 9,
            ArithOp::SHL => 10,
            ArithOp::SHR => 11,
            ArithOp::UNM => 12,
            ArithOp::BNOT => 13,
        }
    }
}

/// The comparison operators, in the order of their codes.
#[allow(non_camel_case_types)]
#[derive(Debug, Clone, Copy, PartialEq, Eq, Structural)]
pub enum CmpOp {
    EQ,
    LT,
    LE,
    GT,
    GE,
}

impl CmpOp {
    /// The code of the operator.
    pub open spec fn code(self) -> u8 {
        match self {
            CmpOp::EQ => LUA_OPEQ,
            CmpOp::LT => LUA_OPLT,
            CmpOp::LE => LUA_OPLE,
            CmpOp::GT => LUA_OPGT,
            CmpOp::GE => LUA_OPGE,
        }
    }

    /// The operator with the given code, if there is one.
    pub fn from_u8(value: u8) -> (r: Option<CmpOp>)
        ensures
            value <= LUA_OPGE <==> r.is_some(),
            r matches Some(op) ==> op.code() == value,
    {
        match value {
            0 => Some(CmpOp::EQ),
            1 => Some(CmpOp::LT),
            2 => Some(CmpOp::LE),
            3 => Some(CmpOp::GT),
            4 => Some(CmpOp::GE),
            _ => None,
        }
    }

    /// The code of the operator.
    pub fn to_u8(self) -> (r: u8)
        ensures
            r == self.code(),
    {
        match self {
            CmpOp::EQ => 0,
            CmpOp::LT => 1,
            CmpOp::LE => 2,
            CmpOp::GT => 3,
            CmpOp::GE => 4,
        }
    }
}

} // verus!
