use vstd::prelude::*;
use crate::api::consts::{
    LUA_NUMTYPES, LUA_TBOOLEAN, LUA_TDEADKEY, LUA_TFUNCTION, LUA_TLIGHTUSERDATA, LUA_TNIL, LUA_TNONE,
    LUA_TNUMBER, LUA_TOLALTYPES, LUA_TPROTO, LUA_TSTRING, LUA_TTABLE, LUA_TTHREAD, LUA_TUSERDATA,
};

verus! {

/// The types of values, as the host sees them.
#[derive(Debug, Clone, Copy, PartialEq, Eq, Structural)]
pub enum Type {
    /// The type of a stack slot that does not exist.
    NoValue,
    Nil,
    Boolean,
    LightUserData,
    Number,
    String,
    Table,
    Function,
    UserData,
    Thread,
    NumTypes,
    Proto,
    DeadKey,
    TolalTypes,
}

impl Type {
    /// The identifier of the type.
    pub open spec fn spec_id(self) -> i8 {
        match self {
            Type::NoValue => LUA_TNONE,
            Type::Nil => LUA_TNIL,
            Type::Boolean => LUA_TBOOLEAN,
            Type::LightUserData => LUA_TLIGHTUSERDATA,
            Type::Number => LUA_TNUMBER,
            Type::String => LUA_TSTRING,
            Type::Table => LUA_TTABLE,
            Type::Function => LUA_TFUNCTION,
            Type::UserData => LUA_TUSERDATA,
            Type::Thread => LUA_TTHREAD,
            Type::NumTypes => LUA_NUMTYPES,
            Type::Proto => LUA_TPROTO,
            Type::DeadKey => LUA_TDEADKEY,
            Type::TolalTypes => LUA_TOLALTYPES,
        }
    }

    /// The identifier of the type.
    #[verifier::when_used_as_spec(spec_id)]
    pub fn id(self) -> (r: i8)
        ensures
            r == self.spec_id(),
    {
        match self {
            Type::NoValue => -1,
            Type::Nil => 0,
            Type::Boolean => 1,
            Type::LightUserData => 2,
            Type::Number => 3,
            Type::String => 4,
            Type::Table => 5,
            Type::Function => 6,
            Type::UserData => 7,
            Type::Thread => 8,
            Type::NumTypes => 9,
            Type::Proto => 10,
            Type::DeadKey => 11,
            Type::TolalTypes => 12,
        }
    }

    /// The type with the given identifier, if there is one.
    pub fn from_i8(value: i8) -> (r: Option<Self>)
        ensures
            LUA_TNONE <= value <= LUA_TOLALTYPES <==> r.is_some(),
            r matches Some(t) ==> t.spec_id() == value,
    {
        match value {
            -1 => Some(Type::NoValue),
            0 => Some(Type::Nil),
            1 => Some(Type::Boolean),
            2 => Some(Type::LightUserData),
            3 => Some(Type::Number),
            4 => Some(Type::String),
            5 => Some(Type::Table),
            6 => Some(Type::Function),
            7 => Some(Type::UserData),
            8 => Some(Type::Thread),
            9 => Some(Type::NumTypes),
            10 => Some(Type::Proto),
            11 => Some(Type::DeadKey),
            12 => Some(Type::TolalTypes),
            _ => None,
        }
    }
}

/// A tag byte: a type in the low four bits, a variant of it above them.
pub open spec fn variant_tag(t: Type, v: i8) -> i8 {
    (t.spec_id() + 16 * v) as i8
}

/// The tag byte of variant `v` of type `t`.
pub fn make_variant(t: Type, v: i8) -> (r: i8)
    requires
        0 <= v < 7,
    ensures
        r == variant_tag(t, v),
{
    t.id() + 16 * v
}

/// The tagged variants of the types, as a chunk encodes them.
#[derive(Debug, Clone, Copy, PartialEq, Eq, Structural)]
pub enum VType {
    VNil,
    VEmpty,
    VAbstKey,
    VFalse,
    VTrue,
    VThread,
    VNumInt,
    VNumFlt,
    VShrStr,
    VLngStr,
    VLightUserData,
    VUserData,
    VProto,
    VUpval,
    VLCL,
    VLCF,
    VCCL,
    VTable,
}

impl VType {
    /// The type that this is a variant of.
    pub open spec fn kind(self) -> Type {
        match self {
            VType::VNil | VType::VEmpty | VType::VAbstKey => Type::Nil,
            VType::VFalse | VType::VTrue => Type::Boolean,
            VType::VThread => Type::Thread,
            VType::VNumInt | VType::VNumFlt => Type::Number,
            VType::VShrStr | VType::VLngStr => Type::String,
            VType::VLightUserData => Type::LightUserData,
            VType::VUserData => Type::UserData,
            VType::VProto => Type::Proto,
            VType::VUpval => Type::NumTypes,
            VType::VLCL | VType::VLCF | VType::VCCL => Type::Function,
            VType::VTable => Type::Table,
        }
    }

    /// The number of the variant within its type.
    pub open spec fn variant(self) -> i8 {
        match self {
            VType::VEmpty | VType::VTrue | VType::VNumFlt | VType::VLngStr | VType::VLCF => 1,
            VType::VAbstKey | VType::VCCL => 2,
            _ => 0,
        }
    }

    /// The tag byte of the variant.
    pub open spec fn tag(self) -> u8 {
        variant_tag(self.kind(), self.variant()) as u8
    }

    /// The variant with the given tag byte, if there is one.
    pub fn from_u8(value: u8) -> (r: Option<Self>)
        ensures
            r matches Some(t) ==> t.tag() == value,
            r.is_none() ==> forall|t: VType| t.tag() != value,
    {
        match value {
            0x00 => Some(VType::VNil),
            0x10 => Some(VType::VEmpty),
            0x20 => Some(VType::VAbstKey),
            0x01 => Some(VType::VFalse),
            0x11 => Some(VType::VTrue),
            0x08 => Some(VType::VThread),
            0x03 => Some(VType::VNumInt),
            0x13 => Some(VType::VNumFlt),
            0x04 => Some(VType::VShrStr),
            0x14 => Some(VType::VLngStr),
            0x02 => Some(VType::VLightUserData),
            0x07 => Some(VType::VUserData),
            0x0a => Some(VType::VProto),
            0x09 => Some(VType::VUpval),
            0x06 => Some(VType::VLCL),
            0x16 => Some(VType::VLCF),
            0x26 => Some(VType::VCCL),
            0x05 => Some(VType::VTable),
            _ => None,
        }
    }
}

} // verus!
