//! Reading a precompiled chunk.
//!
//! The format is stated as spec functions from a byte sequence and a
//! position to the value read and the position after it, or to nothing where
//! the bytes do not hold such a value. The reader's functions return what
//! these functions say.
use vstd::prelude::*;
use vstd::utf8::{decode_utf8, valid_utf8};
use std::rc::Rc;
use crate::api::types::VType;
use crate::binary::chunk::{
    view_constants, view_loc_vars, view_opt, view_strings, AbsLineInfo, Constant, ConstantView,
    LocVar, LocVarView, Prototype, PrototypeView, Upvalue, INSTRUCTION_SIZE, LUAC_FORMAT, LUAC_INT,
    LUAC_NUM, LUAC_VERSION, LUA_INTEGER_SIZE, LUA_NUMBER_SIZE,
};
use crate::error::{HeaderField, LuaError};

verus! {

/// One byte.
pub open spec fn spec_byte(data: Seq<u8>, pos: int) -> Option<(u8, int)> {
    if 0 <= pos < data.len() {
        Some((data[pos], pos + 1))
    } else {
        None
    }
}

/// `n` bytes.
pub open spec fn spec_bytes(data: Seq<u8>, pos: int, n: int) -> Option<(Seq<u8>, int)> {
    if 0 <= pos && 0 <= n && pos + n <= data.len() {
        Some((data.subrange(pos, pos + n), pos + n))
    } else {
        None
    }
}

/// Four bytes, the lowest first.
pub open spec fn spec_u32(data: Seq<u8>, pos: int) -> Option<(u32, int)> {
    if 0 <= pos && pos + 4 <= data.len() {
        Some(
            (
                (data[pos] + data[pos + 1] * 0x100 + data[pos + 2] * 0x1_0000 + data[pos + 3]
                    * 0x100_0000) as u32,
                pos + 4,
            ),
        )
    } else {
        None
    }
}

/// Eight bytes, the lowest first.
pub open spec fn spec_u64(data: Seq<u8>, pos: int) -> Option<(u64, int)> {
    match (spec_u32(data, pos), spec_u32(data, pos + 4)) {
        (Some((lo, _)), Some((hi, p))) => Some(((lo + hi * 0x1_0000_0000) as u64, p)),
        _ => None,
    }
}

/// An integer: eight bytes in two's complement.
pub open spec fn spec_integer(data: Seq<u8>, pos: int) -> Option<(i64, int)> {
    match spec_u64(data, pos) {
        Some((x, p)) => Some((x as i64, p)),
        None => None,
    }
}

/// The largest value that a size may have before seven more bits are appended.
pub open spec fn size_limit() -> usize {
    (usize::MAX / 128) as usize
}

/// The rest of a size, `acc` being what the bytes before `pos` gave. Each
/// byte holds seven bits of the size, the highest first; the byte with its top
/// bit set is the last.
pub open spec fn spec_size_from(data: Seq<u8>, pos: int, acc: usize) -> Option<(usize, int)>
    decreases data.len() - pos,
{
    if pos < 0 || pos >= data.len() || acc >= size_limit() {
        None
    } else {
        let x = (acc * 128 + data[pos] % 128) as usize;
        if data[pos] >= 128 {
            Some((x, pos + 1))
        } else {
            spec_size_from(data, pos + 1, x)
        }
    }
}

/// A size or a count.
pub open spec fn spec_size(data: Seq<u8>, pos: int) -> Option<(usize, int)> {
    spec_size_from(data, pos, 0)
}

/// The text of a run of bytes: none where they are not UTF-8.
pub open spec fn text_of(bytes: Seq<u8>) -> Option<Seq<char>> {
    if valid_utf8(bytes) {
        Some(decode_utf8(bytes))
    } else {
        None
    }
}

/// A string that may be absent: its length plus one, then its bytes. A
/// length field of zero stands for an absent string.
pub open spec fn spec_string0(data: Seq<u8>, pos: int) -> Option<(Option<Seq<char>>, int)> {
    match spec_size(data, pos) {
        Some((size, p)) => if size == 0 {
            Some((None, p))
        } else {
            match spec_bytes(data, p, size - 1) {
                Some((bytes, q)) => Some((text_of(bytes), q)),
                None => None,
            }
        },
        None => None,
    }
}

/// A string; an absent one reads as the empty string.
pub open spec fn spec_string(data: Seq<u8>, pos: int) -> Option<(Seq<char>, int)> {
    match spec_string0(data, pos) {
        Some((Some(s), p)) => Some((s, p)),
        Some((None, p)) => Some((Seq::empty(), p)),
        None => None,
    }
}

/// `n` values in a row, each read by `elem`.
pub open spec fn spec_seq<T>(
    data: Seq<u8>,
    pos: int,
    n: nat,
    elem: spec_fn(Seq<u8>, int) -> Option<(T, int)>,
) -> Option<(Seq<T>, int)>
    decreases n,
{
    if n == 0 {
        Some((Seq::empty(), pos))
    } else {
        match spec_seq(data, pos, (n - 1) as nat, elem) {
            Some((s, p)) => match elem(data, p) {
                Some((v, q)) => Some((s.push(v), q)),
                None => None,
            },
            None => None,
        }
    }
}

/// A count, then that many values, each read by `elem`.
pub open spec fn spec_vec<T>(
    data: Seq<u8>,
    pos: int,
    elem: spec_fn(Seq<u8>, int) -> Option<(T, int)>,
) -> Option<(Seq<T>, int)> {
    match spec_size(data, pos) {
        Some((n, p)) => spec_seq(data, p, n as nat, elem),
        None => None,
    }
}

/// A constant: a tag byte, then what the tag asks for.
pub open spec fn spec_constant(data: Seq<u8>, pos: int) -> Option<(ConstantView, int)> {
    match spec_byte(data, pos) {
        Some((tag, p)) => if tag == VType::VNil.tag() {
            Some((ConstantView::Nil, p))
        } else if tag == VType::VFalse.tag() {
            Some((ConstantView::Boolean(false), p))
        } else if tag == VType::VTrue.tag() {
            Some((ConstantView::Boolean(true), p))
        } else if tag == VType::VNumInt.tag() {
            match spec_integer(data, p) {
                Some((i, q)) => Some((ConstantView::Integer(i), q)),
                None => None,
            }
        } else if tag == VType::VNumFlt.tag() {
            match spec_u64(data, p) {
                Some((n, q)) => Some((ConstantView::Number(n), q)),
                None => None,
            }
        } else if tag == VType::VShrStr.tag() || tag == VType::VLngStr.tag() {
            match spec_string(data, p) {
                Some((s, q)) => Some((ConstantView::Str(s), q)),
                None => None,
            }
        } else {
            None
        },
        None => None,
    }
}

/// An upvalue descriptor: three bytes.
pub open spec fn spec_upvalue(data: Seq<u8>, pos: int) -> Option<(Upvalue, int)> {
    if 0 <= pos && pos + 3 <= data.len() {
        Some((Upvalue { instack: data[pos], idx: data[pos + 1], kind: data[pos + 2] }, pos + 3))
    } else {
        None
    }
}

/// A byte as a signed line difference.
pub open spec fn spec_line(data: Seq<u8>, pos: int) -> Option<(i8, int)> {
    match spec_byte(data, pos) {
        Some((b, p)) => Some((b as i8, p)),
        None => None,
    }
}

/// An absolute line entry: two sizes.
pub open spec fn spec_abs_line_info(data: Seq<u8>, pos: int) -> Option<(AbsLineInfo, int)> {
    match spec_size(data, pos) {
        Some((pc, p)) => match spec_size(data, p) {
            Some((line, q)) => Some((AbsLineInfo { pc, line }, q)),
            None => None,
        },
        None => None,
    }
}

/// A local variable: its name and two sizes.
pub open spec fn spec_loc_var(data: Seq<u8>, pos: int) -> Option<(LocVarView, int)> {
    match spec_string(data, pos) {
        Some((var_name, p)) => match spec_size(data, p) {
            Some((start_pc, q)) => match spec_size(data, q) {
                Some((end_pc, r)) => Some((LocVarView { var_name, start_pc, end_pc }, r)),
                None => None,
            },
            None => None,
        },
        None => None,
    }
}

/// An instruction word, as a value of a list.
pub open spec fn elem_u32() -> spec_fn(Seq<u8>, int) -> Option<(u32, int)> {
    |d: Seq<u8>, p: int| spec_u32(d, p)
}

/// A constant, as a value of a list.
pub open spec fn elem_constant() -> spec_fn(Seq<u8>, int) -> Option<(ConstantView, int)> {
    |d: Seq<u8>, p: int| spec_constant(d, p)
}

/// An upvalue descriptor, as a value of a list.
pub open spec fn elem_upvalue() -> spec_fn(Seq<u8>, int) -> Option<(Upvalue, int)> {
    |d: Seq<u8>, p: int| spec_upvalue(d, p)
}

/// A line difference, as a value of a list.
pub open spec fn elem_line() -> spec_fn(Seq<u8>, int) -> Option<(i8, int)> {
    |d: Seq<u8>, p: int| spec_line(d, p)
}

/// An absolute line entry, as a value of a list.
pub open spec fn elem_abs_line_info() -> spec_fn(Seq<u8>, int) -> Option<(AbsLineInfo, int)> {
    |d: Seq<u8>, p: int| spec_abs_line_info(d, p)
}

/// A local variable, as a value of a list.
pub open spec fn elem_loc_var() -> spec_fn(Seq<u8>, int) -> Option<(LocVarView, int)> {
    |d: Seq<u8>, p: int| spec_loc_var(d, p)
}

/// A string, as a value of a list.
pub open spec fn elem_string() -> spec_fn(Seq<u8>, int) -> Option<(Seq<char>, int)> {
    |d: Seq<u8>, p: int| spec_string(d, p)
}

/// What a function holds before its nested functions.
pub struct ProtoHead {
    pub source: Option<Seq<char>>,
    pub line_defined: usize,
    pub last_line_defined: usize,
    pub num_params: u8,
    pub is_vararg: u8,
    pub max_stack_size: u8,
    pub code: Seq<u32>,
    pub constants: Seq<ConstantView>,
    pub upvalues: Seq<Upvalue>,
}

/// What a function holds after its nested functions: the debug information.
pub struct ProtoTail {
    pub line_info: Seq<i8>,
    pub abs_line_info: Seq<AbsLineInfo>,
    pub loc_vars: Seq<LocVarView>,
    pub upvalue_names: Seq<Seq<char>>,
}

/// The source name of a function: its own, or its parent's where it has none.
pub open spec fn source_or(own: Option<Seq<char>>, parent: Option<Seq<char>>) -> Option<Seq<char>> {
    match own {
        Some(s) => Some(s),
        None => parent,
    }
}

/// The part of a function before its nested functions.
pub open spec fn spec_proto_head(data: Seq<u8>, pos: int, parent: Option<Seq<char>>) -> Option<
    (ProtoHead, int),
> {
    match spec_string0(data, pos) {
        Some((own, pos1)) => match spec_size(data, pos1) {
            Some((line_defined, pos2)) => match spec_size(data, pos2) {
                Some((last_line_defined, pos3)) => match spec_bytes(data, pos3, 3) {
                    Some((b, pos4)) => match spec_vec(data, pos4, elem_u32()) {
                        Some((code, pos5)) => match spec_vec(data, pos5, elem_constant()) {
                            Some((constants, pos6)) => match spec_vec(data, pos6, elem_upvalue()) {
                                Some((upvalues, pos7)) => Some(
                                    (
                                        ProtoHead {
                                            source: source_or(own, parent),
                                            line_defined,
                                            last_line_defined,
                                            num_params: b[0],
                                            is_vararg: b[1],
                                            max_stack_size: b[2],
                                            code,
                                            constants,
                                            upvalues,
                                        },
                                        pos7,
                                    ),
                                ),
                                None => None,
                            },
                            None => None,
                        },
                        None => None,
                    },
                    None => None,
                },
                None => None,
            },
            None => None,
        },
        None => None,
    }
}

/// The debug information of a function.
pub open spec fn spec_proto_tail(data: Seq<u8>, pos: int) -> Option<(ProtoTail, int)> {
    match spec_vec(data, pos, elem_line()) {
        Some((line_info, pos1)) => match spec_vec(data, pos1, elem_abs_line_info()) {
            Some((abs_line_info, pos2)) => match spec_vec(data, pos2, elem_loc_var()) {
                Some((loc_vars, pos3)) => match spec_vec(data, pos3, elem_string()) {
                    Some((upvalue_names, pos4)) => Some(
                        (ProtoTail { line_info, abs_line_info, loc_vars, upvalue_names }, pos4),
                    ),
                    None => None,
                },
                None => None,
            },
            None => None,
        },
        None => None,
    }
}

/// A function: its head, the count of its nested functions and these
/// functions, which inherit its source name, and its debug information.
pub open spec fn spec_proto(data: Seq<u8>, pos: int, parent: Option<Seq<char>>) -> Option<
    (PrototypeView, int),
>
    decreases data.len() - pos, 0int, 0int,
{
    match spec_proto_head(data, pos, parent) {
        Some((head, pos1)) => match spec_size(data, pos1) {
            Some((n, pos2)) => if pos < pos2 <= data.len() {
                match spec_protos(data, pos2, n as nat, head.source) {
                    Some((protos, pos3)) => match spec_proto_tail(data, pos3) {
                        Some((tail, pos4)) => Some(
                            (
                                PrototypeView {
                                    source: head.source,
                                    line_defined: head.line_defined,
                                    last_line_defined: head.last_line_defined,
                                    num_params: head.num_params,
                                    is_vararg: head.is_vararg,
                                    max_stack_size: head.max_stack_size,
                                    code: head.code,
                                    constants: head.constants,
                                    upvalues: head.upvalues,
                                    protos,
                                    line_info: tail.line_info,
                                    abs_line_info: tail.abs_line_info,
                                    loc_vars: tail.loc_vars,
                                    upvalue_names: tail.upvalue_names,
                                },
                                pos4,
                            ),
                        ),
                        None => None,
                    },
                    None => None,
                }
            } else {
                None
            },
            None => None,
        },
        None => None,
    }
}

/// `n` functions in a row, nested in a function whose source name is `parent`.
pub open spec fn spec_protos(data: Seq<u8>, pos: int, n: nat, parent: Option<Seq<char>>) -> Option<
    (Seq<PrototypeView>, int),
>
    decreases data.len() - pos, 1int, n,
{
    if n == 0 {
        Some((Seq::empty(), pos))
    } else {
        match spec_protos(data, pos, (n - 1) as nat, parent) {
            Some((s, p)) => if pos <= p <= data.len() {
                match spec_proto(data, p, parent) {
                    Some((v, q)) => Some((s.push(v), q)),
                    None => None,
                }
            } else {
                None
            },
            None => None,
        }
    }
}

/// The signature: escape, then "Lua".
pub open spec fn signature_bytes() -> Seq<u8> {
    seq![0x1bu8, 0x4cu8, 0x75u8, 0x61u8]
}

/// The data tag: bytes that a transfer as text would have changed.
pub open spec fn data_tag_bytes() -> Seq<u8> {
    seq![0x19u8, 0x93u8, 0x0du8, 0x0au8, 0x1au8, 0x0au8]
}

/// The views of a list of functions.
pub open spec fn view_protos(s: Seq<Rc<Prototype>>) -> Seq<PrototypeView> {
    Seq::new(s.len(), |i: int| s[i].view())
}

/// Bytes that must be the `expected` ones: the position after them, or
/// what is wrong. Too few bytes are a corrupt chunk, other bytes a mismatch
/// of `field`.
pub open spec fn expect_bytes(data: Seq<u8>, pos: int, expected: Seq<u8>, field: HeaderField) -> Result<
    int,
    LuaError,
> {
    match spec_bytes(data, pos, expected.len() as int) {
        Some((b, p)) => if b == expected {
            Ok(p)
        } else {
            Err(LuaError::HeaderMismatch(field))
        },
        None => Err(LuaError::CorruptChunk),
    }
}

/// Eight bytes that must hold `expected`, the lowest byte first.
pub open spec fn expect_u64(data: Seq<u8>, pos: int, expected: u64, field: HeaderField) -> Result<
    int,
    LuaError,
> {
    match spec_u64(data, pos) {
        Some((x, p)) => if x == expected {
            Ok(p)
        } else {
            Err(LuaError::HeaderMismatch(field))
        },
        None => Err(LuaError::CorruptChunk),
    }
}

/// `expect_bytes` after what came before, if that went well.
pub open spec fn then_bytes(
    prev: Result<int, LuaError>,
    data: Seq<u8>,
    expected: Seq<u8>,
    field: HeaderField,
) -> Result<int, LuaError> {
    match prev {
        Ok(p) => expect_bytes(data, p, expected, field),
        Err(e) => Err(e),
    }
}

/// `expect_u64` after what came before, if that went well.
pub open spec fn then_u64(
    prev: Result<int, LuaError>,
    data: Seq<u8>,
    expected: u64,
    field: HeaderField,
) -> Result<int, LuaError> {
    match prev {
        Ok(p) => expect_u64(data, p, expected, field),
        Err(e) => Err(e),
    }
}

/// The prelude, from `pos` on: the position after it, or the first thing
/// that is wrong with it. Its fields are the signature, the version, the
/// format, the data tag, the sizes of an instruction, an integer and a
/// number, and an integer and a number with known values.
pub open spec fn spec_check_header(data: Seq<u8>, pos: int) -> Result<int, LuaError> {
    let r1 = expect_bytes(data, pos, signature_bytes(), HeaderField::Signature);
    let r2 = then_bytes(r1, data, seq![LUAC_VERSION], HeaderField::Version);
    let r3 = then_bytes(r2, data, seq![LUAC_FORMAT], HeaderField::Format);
    let r4 = then_bytes(r3, data, data_tag_bytes(), HeaderField::Data);
    let r5 = then_bytes(r4, data, seq![INSTRUCTION_SIZE], HeaderField::InstructionSize);
    let r6 = then_bytes(r5, data, seq![LUA_INTEGER_SIZE], HeaderField::IntegerSize);
    let r7 = then_bytes(r6, data, seq![LUA_NUMBER_SIZE], HeaderField::NumberSize);
    let r8 = then_u64(r7, data, LUAC_INT as u64, HeaderField::IntegerCanary);
    then_u64(r8, data, LUAC_NUM, HeaderField::NumberCanary)
}

/// A whole chunk: the prelude, one byte that counts the upvalues of the main
/// function, and the main function.
pub open spec fn spec_undump(data: Seq<u8>) -> Result<PrototypeView, LuaError> {
    match spec_check_header(data, 0) {
        Ok(p) => match spec_byte(data, p) {
            Some((_, q)) => match spec_proto(data, q, None) {
                Some((proto, _)) => Ok(proto),
                None => Err(LuaError::CorruptChunk),
            },
            None => Err(LuaError::CorruptChunk),
        },
        Err(e) => Err(e),
    }
}

/// Where `k` values cannot be read, more cannot be read either.
pub proof fn lemma_seq_fails_on<T>(
    data: Seq<u8>,
    pos: int,
    k: nat,
    n: nat,
    elem: spec_fn(Seq<u8>, int) -> Option<(T, int)>,
)
    requires
        k <= n,
        spec_seq(data, pos, k, elem).is_none(),
    ensures
        spec_seq(data, pos, n, elem).is_none(),
    decreases n,
{
    if k < n {
        lemma_seq_fails_on(data, pos, k, (n - 1) as nat, elem);
    }
}

/// Where `k` functions cannot be read, more cannot be read either.
pub proof fn lemma_protos_fail_on(data: Seq<u8>, pos: int, k: nat, n: nat, parent: Option<Seq<char>>)
    requires
        k <= n,
        spec_protos(data, pos, k, parent).is_none(),
    ensures
        spec_protos(data, pos, n, parent).is_none(),
    decreases n,
{
    if k < n {
        lemma_protos_fail_on(data, pos, k, (n - 1) as nat, parent);
    }
}

/// A reader of a chunk: the bytes and the position of the next byte to read.
pub struct Reader {
    pub data: Vec<u8>,
    pub pos: usize,
}

/// `String::from_utf8`: the text of `bytes` where they are valid UTF-8, and
/// nothing where they are not.
#[verifier::external_body]
fn string_from_utf8(bytes: Vec<u8>) -> (r: Option<String>)
    ensures
        r.is_some() == valid_utf8(bytes@),
        r matches Some(s) ==> s@ == decode_utf8(bytes@),
{
    String::from_utf8(bytes).ok()
}

/// A copy of a source name.
fn clone_source(s: &Option<String>) -> (r: Option<String>)
    ensures
        view_opt(r) == view_opt(*s),
{
    match s {
        Some(s) => Some(s.clone()),
        None => None,
    }
}

impl Reader {
    /// The position lies within the bytes or just behind them.
    pub open spec fn wf(&self) -> bool {
        self.pos <= self.data.len()
    }

    /// What an operation leaves of the reader: the same bytes, and a position
    /// that has not gone back.
    pub open spec fn advanced_from(&self, before: &Reader) -> bool {
        &&& self.data == before.data
        &&& before.pos <= self.pos
        &&& self.wf()
    }

    /// A reader at the start of `data`.
    pub fn new(data: Vec<u8>) -> (r: Self)
        ensures
            r.data == data,
            r.pos == 0,
            r.wf(),
    {
        Reader { data, pos: 0 }
    }

    /// Reads one byte.
    pub fn read_byte(&mut self) -> (r: Result<u8, LuaError>)
        requires
            old(self).wf(),
        ensures
            final(self).advanced_from(old(self)),
            match r {
                Ok(b) => spec_byte(old(self).data@, old(self).pos as int) == Some(
                    (b, final(self).pos as int),
                ),
                Err(e) => e == LuaError::CorruptChunk && spec_byte(
                    old(self).data@,
                    old(self).pos as int,
                ).is_none(),
            },
    {
        if self.pos < self.data.len() {
            let b = self.data[self.pos];
            self.pos += 1;
            Ok(b)
        } else {
            Err(LuaError::CorruptChunk)
        }
    }

    /// Reads four bytes as a number, the lowest byte first.
    pub fn read_u32(&mut self) -> (r: Result<u32, LuaError>)
        requires
            old(self).wf(),
        ensures
            final(self).advanced_from(old(self)),
            match r {
                Ok(x) => spec_u32(old(self).data@, old(self).pos as int) == Some(
                    (x, final(self).pos as int),
                ),
                Err(e) => e == LuaError::CorruptChunk && spec_u32(
                    old(self).data@,
                    old(self).pos as int,
                ).is_none(),
            },
    {
        if self.data.len() - self.pos < 4 {
            return Err(LuaError::CorruptChunk);
        }
        let a0 = self.data[self.pos] as u32;
        let a1 = self.data[self.pos + 1] as u32;
        let a2 = self.data[self.pos + 2] as u32;
        let a3 = self.data[self.pos + 3] as u32;
        self.pos += 4;
        Ok(a0 + a1 * 0x100 + a2 * 0x1_0000 + a3 * 0x100_0000)
    }

    /// Reads eight bytes as a number, the lowest byte first.
    pub fn read_u64(&mut self) -> (r: Result<u64, LuaError>)
        requires
            old(self).wf(),
        ensures
            final(self).advanced_from(old(self)),
            match r {
                Ok(x) => spec_u64(old(self).data@, old(self).pos as int) == Some(
                    (x, final(self).pos as int),
                ),
                Err(e) => e == LuaError::CorruptChunk && spec_u64(
                    old(self).data@,
                    old(self).pos as int,
                ).is_none(),
            },
    {
        if self.data.len() - self.pos < 8 {
            return Err(LuaError::CorruptChunk);
        }
        let lo = self.read_u32()?;
        let hi = self.read_u32()?;
        Ok(lo as u64 + hi as u64 * 0x1_0000_0000)
    }

    /// Reads an integer.
    pub fn read_lua_integer(&mut self) -> (r: Result<i64, LuaError>)
        requires
            old(self).wf(),
        ensures
            final(self).advanced_from(old(self)),
            match r {
                Ok(x) => spec_integer(old(self).data@, old(self).pos as int) == Some(
                    (x, final(self).pos as int),
                ),
                Err(e) => e == LuaError::CorruptChunk && spec_integer(
                    old(self).data@,
                    old(self).pos as int,
                ).is_none(),
            },
    {
        let x = self.read_u64()?;
        Ok(x as i64)
    }

    /// Reads a number: the bits of a double.
    pub fn read_lua_number(&mut self) -> (r: Result<u64, LuaError>)
        requires
            old(self).wf(),
        ensures
            final(self).advanced_from(old(self)),
            match r {
                Ok(x) => spec_u64(old(self).data@, old(self).pos as int) == Some(
                    (x, final(self).pos as int),
                ),
                Err(e) => e == LuaError::CorruptChunk && spec_u64(
                    old(self).data@,
                    old(self).pos as int,
                ).is_none(),
            },
    {
        self.read_u64()
    }

    /// Reads `n` bytes.
    pub fn read_bytes(&mut self, n: usize) -> (r: Result<Vec<u8>, LuaError>)
        requires
            old(self).wf(),
        ensures
            final(self).advanced_from(old(self)),
            match r {
                Ok(v) => spec_bytes(old(self).data@, old(self).pos as int, n as int) == Some(
                    (v@, final(self).pos as int),
                ),
                Err(e) => e == LuaError::CorruptChunk && spec_bytes(
                    old(self).data@,
                    old(self).pos as int,
                    n as int,
                ).is_none(),
            },
    {
        if self.data.len() - self.pos < n {
            return Err(LuaError::CorruptChunk);
        }
        let mut vec: Vec<u8> = Vec::new();
        let start = self.pos;
        let mut i: usize = 0;
        while i < n
            invariant
                i <= n,
                start + n <= self.data.len(),
                self.pos == start + i,
                self.data == old(self).data,
                vec@ == self.data@.subrange(start as int, start + i),
            decreases n - i,
        {
            vec.push(self.data[self.pos]);
            self.pos += 1;
            i += 1;
            assert(vec@ =~= self.data@.subrange(start as int, start + i));
        }
        Ok(vec)
    }

    /// Reads a size or a count.
    pub fn read_size(&mut self) -> (r: Result<usize, LuaError>)
        requires
            old(self).wf(),
        ensures
            final(self).advanced_from(old(self)),
            match r {
                Ok(x) => spec_size(old(self).data@, old(self).pos as int) == Some(
                    (x, final(self).pos as int),
                ) && old(self).pos < final(self).pos,
                Err(e) => e == LuaError::CorruptChunk && spec_size(
                    old(self).data@,
                    old(self).pos as int,
                ).is_none(),
            },
    {
        let mut x: usize = 0;
        let limit: usize = usize::MAX / 128;
        loop
            invariant
                self.wf(),
                self.data == old(self).data,
                old(self).pos <= self.pos,
                limit == size_limit(),
                spec_size_from(self.data@, self.pos as int, x) == spec_size(
                    old(self).data@,
                    old(self).pos as int,
                ),
            decreases self.data.len() - self.pos,
        {
            if self.pos >= self.data.len() || x >= limit {
                return Err(LuaError::CorruptChunk);
            }
            let b = self.data[self.pos];
            self.pos += 1;
            x = x * 128 + (b % 128) as usize;
            if b >= 128 {
                return Ok(x);
            }
        }
    }

    /// Reads a string that may be absent.
    pub fn read_string0(&mut self) -> (r: Result<Option<String>, LuaError>)
        requires
            old(self).wf(),
        ensures
            final(self).advanced_from(old(self)),
            match r {
                Ok(s) => spec_string0(old(self).data@, old(self).pos as int) == Some(
                    (view_opt(s), final(self).pos as int),
                ) && old(self).pos < final(self).pos,
                Err(e) => e == LuaError::CorruptChunk && spec_string0(
                    old(self).data@,
                    old(self).pos as int,
                ).is_none(),
            },
    {
        let size = self.read_size()?;
        if size == 0 {
            return Ok(None);
        }
        let bytes = self.read_bytes(size - 1)?;
        Ok(string_from_utf8(bytes))
    }

    /// Reads a string; an absent one reads as the empty string.
    pub fn read_string(&mut self) -> (r: Result<String, LuaError>)
        requires
            old(self).wf(),
        ensures
            final(self).advanced_from(old(self)),
            match r {
                Ok(s) => spec_string(old(self).data@, old(self).pos as int) == Some(
                    (s@, final(self).pos as int),
                ) && old(self).pos < final(self).pos,
                Err(e) => e == LuaError::CorruptChunk && spec_string(
                    old(self).data@,
                    old(self).pos as int,
                ).is_none(),
            },
    {
        match self.read_string0()? {
            Some(s) => Ok(s),
            None => Ok(String::new()),
        }
    }

    /// Reads a constant.
    pub fn read_constant(&mut self) -> (r: Result<Constant, LuaError>)
        requires
            old(self).wf(),
        ensures
            final(self).advanced_from(old(self)),
            match r {
                Ok(c) => spec_constant(old(self).data@, old(self).pos as int) == Some(
                    (c@, final(self).pos as int),
                ),
                Err(e) => e == LuaError::CorruptChunk && spec_constant(
                    old(self).data@,
                    old(self).pos as int,
                ).is_none(),
            },
    {
        let tag = self.read_byte()?;
        match VType::from_u8(tag) {
            Some(VType::VNil) => Ok(Constant::Nil),
            Some(VType::VFalse) => Ok(Constant::Boolean(false)),
            Some(VType::VTrue) => Ok(Constant::Boolean(true)),
            Some(VType::VNumInt) => {
                let i = self.read_lua_integer()?;
                Ok(Constant::Integer(i))
            },
            Some(VType::VNumFlt) => {
                let n = self.read_lua_number()?;
                Ok(Constant::Number(n))
            },
            Some(VType::VShrStr) => {
                let s = self.read_string()?;
                Ok(Constant::Str(s))
            },
            Some(VType::VLngStr) => {
                let s = self.read_string()?;
                Ok(Constant::Str(s))
            },
            _ => Err(LuaError::CorruptChunk),
        }
    }

    /// Reads an upvalue descriptor.
    pub fn read_upvalue(&mut self) -> (r: Result<Upvalue, LuaError>)
        requires
            old(self).wf(),
        ensures
            final(self).advanced_from(old(self)),
            match r {
                Ok(u) => spec_upvalue(old(self).data@, old(self).pos as int) == Some(
                    (u, final(self).pos as int),
                ),
                Err(e) => e == LuaError::CorruptChunk && spec_upvalue(
                    old(self).data@,
                    old(self).pos as int,
                ).is_none(),
            },
    {
        if self.data.len() - self.pos < 3 {
            return Err(LuaError::CorruptChunk);
        }
        let instack = self.read_byte()?;
        let idx = self.read_byte()?;
        let kind = self.read_byte()?;
        Ok(Upvalue { instack, idx, kind })
    }

    /// Reads an absolute line entry.
    pub fn read_abs_line_info(&mut self) -> (r: Result<AbsLineInfo, LuaError>)
        requires
            old(self).wf(),
        ensures
            final(self).advanced_from(old(self)),
            match r {
                Ok(a) => spec_abs_line_info(old(self).data@, old(self).pos as int) == Some(
                    (a, final(self).pos as int),
                ),
                Err(e) => e == LuaError::CorruptChunk && spec_abs_line_info(
                    old(self).data@,
                    old(self).pos as int,
                ).is_none(),
            },
    {
        let pc = self.read_size()?;
        let line = self.read_size()?;
        Ok(AbsLineInfo { pc, line })
    }

    /// Reads a local variable.
    pub fn read_loc_var(&mut self) -> (r: Result<LocVar, LuaError>)
        requires
            old(self).wf(),
        ensures
            final(self).advanced_from(old(self)),
            match r {
                Ok(v) => spec_loc_var(old(self).data@, old(self).pos as int) == Some(
                    (v@, final(self).pos as int),
                ),
                Err(e) => e == LuaError::CorruptChunk && spec_loc_var(
                    old(self).data@,
                    old(self).pos as int,
                ).is_none(),
            },
    {
        let var_name = self.read_string()?;
        let start_pc = self.read_size()?;
        let end_pc = self.read_size()?;
        Ok(LocVar { var_name, start_pc, end_pc })
    }

    /// Reads the instructions of a function: a count, then the words.
    pub fn read_code(&mut self) -> (r: Result<Vec<u32>, LuaError>)
        requires
            old(self).wf(),
        ensures
            final(self).advanced_from(old(self)),
            match r {
                Ok(v) => spec_vec(old(self).data@, old(self).pos as int, elem_u32()) == Some(
                    (v@, final(self).pos as int),
                ) && old(self).pos < final(self).pos,
                Err(e) => e == LuaError::CorruptChunk && spec_vec(
                    old(self).data@,
                    old(self).pos as int,
                    elem_u32(),
                ).is_none(),
            },
    {
        let n = self.read_size()?;
        let ghost start = self.pos as int;
        let mut vec: Vec<u32> = Vec::new();
        let mut i: usize = 0;
        while i < n
            invariant
                i <= n,
                self.advanced_from(old(self)),
                spec_size(old(self).data@, old(self).pos as int) == Some((n, start)),
                old(self).pos < self.pos,
                spec_seq(self.data@, start, i as nat, elem_u32()) == Some((vec@, self.pos as int)),
            decreases n - i,
        {
            match self.read_u32() {
                Ok(x) => {
                    vec.push(x);
                },
                Err(e) => {
                    proof {
                        lemma_seq_fails_on(self.data@, start, (i + 1) as nat, n as nat, elem_u32());
                    }
                    return Err(e);
                },
            }
            i += 1;
        }
        Ok(vec)
    }

    /// Reads the constant pool of a function.
    pub fn read_constants(&mut self) -> (r: Result<Vec<Constant>, LuaError>)
        requires
            old(self).wf(),
        ensures
            final(self).advanced_from(old(self)),
            match r {
                Ok(v) => spec_vec(old(self).data@, old(self).pos as int, elem_constant()) == Some(
                    (view_constants(v@), final(self).pos as int),
                ),
                Err(e) => e == LuaError::CorruptChunk && spec_vec(
                    old(self).data@,
                    old(self).pos as int,
                    elem_constant(),
                ).is_none(),
            },
    {
        let n = self.read_size()?;
        let ghost start = self.pos as int;
        let mut vec: Vec<Constant> = Vec::new();
        let mut i: usize = 0;
        assert(view_constants(vec@) =~= Seq::empty());
        while i < n
            invariant
                i <= n,
                self.advanced_from(old(self)),
                spec_size(old(self).data@, old(self).pos as int) == Some((n, start)),
                spec_seq(self.data@, start, i as nat, elem_constant()) == Some(
                    (view_constants(vec@), self.pos as int),
                ),
            decreases n - i,
        {
            let ghost before = view_constants(vec@);
            match self.read_constant() {
                Ok(x) => {
                    vec.push(x);
                    assert(view_constants(vec@) =~= before.push(x@));
                },
                Err(e) => {
                    proof {
                        lemma_seq_fails_on(
                            self.data@,
                            start,
                            (i + 1) as nat,
                            n as nat,
                            elem_constant(),
                        );
                    }
                    return Err(e);
                },
            }
            i += 1;
        }
        Ok(vec)
    }

    /// Reads the upvalue descriptors of a function.
    pub fn read_upvalues(&mut self) -> (r: Result<Vec<Upvalue>, LuaError>)
        requires
            old(self).wf(),
        ensures
            final(self).advanced_from(old(self)),
            match r {
                Ok(v) => spec_vec(old(self).data@, old(self).pos as int, elem_upvalue()) == Some(
                    (v@, final(self).pos as int),
                ),
                Err(e) => e == LuaError::CorruptChunk && spec_vec(
                    old(self).data@,
                    old(self).pos as int,
                    elem_upvalue(),
                ).is_none(),
            },
    {
        let n = self.read_size()?;
        let ghost start = self.pos as int;
        let mut vec: Vec<Upvalue> = Vec::new();
        let mut i: usize = 0;
        while i < n
            invariant
                i <= n,
                self.advanced_from(old(self)),
                spec_size(old(self).data@, old(self).pos as int) == Some((n, start)),
                spec_seq(self.data@, start, i as nat, elem_upvalue()) == Some(
                    (vec@, self.pos as int),
                ),
            decreases n - i,
        {
            match self.read_upvalue() {
                Ok(x) => {
                    vec.push(x);
                },
                Err(e) => {
                    proof {
                        lemma_seq_fails_on(
                            self.data@,
                            start,
                            (i + 1) as nat,
                            n as nat,
                            elem_upvalue(),
                        );
                    }
                    return Err(e);
                },
            }
            i += 1;
        }
        Ok(vec)
    }

    /// Reads the line differences of the instructions of a function.
    pub fn read_line_info(&mut self) -> (r: Result<Vec<i8>, LuaError>)
        requires
            old(self).wf(),
        ensures
            final(self).advanced_from(old(self)),
            match r {
                Ok(v) => spec_vec(old(self).data@, old(self).pos as int, elem_line()) == Some(
                    (v@, final(self).pos as int),
                ),
                Err(e) => e == LuaError::CorruptChunk && spec_vec(
                    old(self).data@,
                    old(self).pos as int,
                    elem_line(),
                ).is_none(),
            },
    {
        let n = self.read_size()?;
        let ghost start = self.pos as int;
        let mut vec: Vec<i8> = Vec::new();
        let mut i: usize = 0;
        while i < n
            invariant
                i <= n,
                self.advanced_from(old(self)),
                spec_size(old(self).data@, old(self).pos as int) == Some((n, start)),
                spec_seq(self.data@, start, i as nat, elem_line()) == Some((vec@, self.pos as int)),
            decreases n - i,
        {
            match self.read_byte() {
                Ok(x) => {
                    vec.push(#[verifier::truncate] (x as i8));
                },
                Err(e) => {
                    proof {
                        lemma_seq_fails_on(
                            self.data@,
                            start,
                            (i + 1) as nat,
                            n as nat,
                            elem_line(),
                        );
                    }
                    return Err(e);
                },
            }
            i += 1;
        }
        Ok(vec)
    }

    /// Reads the absolute line entries of a function.
    pub fn read_abs_line_infos(&mut self) -> (r: Result<Vec<AbsLineInfo>, LuaError>)
        requires
            old(self).wf(),
        ensures
            final(self).advanced_from(old(self)),
            match r {
                Ok(v) => spec_vec(old(self).data@, old(self).pos as int, elem_abs_line_info())
                    == Some((v@, final(self).pos as int)),
                Err(e) => e == LuaError::CorruptChunk && spec_vec(
                    old(self).data@,
                    old(self).pos as int,
                    elem_abs_line_info(),
                ).is_none(),
            },
    {
        let n = self.read_size()?;
        let ghost start = self.pos as int;
        let mut vec: Vec<AbsLineInfo> = Vec::new();
        let mut i: usize = 0;
        while i < n
            invariant
                i <= n,
                self.advanced_from(old(self)),
                spec_size(old(self).data@, old(self).pos as int) == Some((n, start)),
                spec_seq(self.data@, start, i as nat, elem_abs_line_info()) == Some(
                    (vec@, self.pos as int),
                ),
            decreases n - i,
        {
            match self.read_abs_line_info() {
                Ok(x) => {
                    vec.push(x);
                },
                Err(e) => {
                    proof {
                        lemma_seq_fails_on(
                            self.data@,
                            start,
                            (i + 1) as nat,
                            n as nat,
                            elem_abs_line_info(),
                        );
                    }
                    return Err(e);
                },
            }
            i += 1;
        }
        Ok(vec)
    }

    /// Reads the local variables of a function.
    pub fn read_loc_vars(&mut self) -> (r: Result<Vec<LocVar>, LuaError>)
        requires
            old(self).wf(),
        ensures
            final(self).advanced_from(old(self)),
            match r {
                Ok(v) => spec_vec(old(self).data@, old(self).pos as int, elem_loc_var()) == Some(
                    (view_loc_vars(v@), final(self).pos as int),
                ),
                Err(e) => e == LuaError::CorruptChunk && spec_vec(
                    old(self).data@,
                    old(self).pos as int,
                    elem_loc_var(),
                ).is_none(),
            },
    {
        let n = self.read_size()?;
        let ghost start = self.pos as int;
        let mut vec: Vec<LocVar> = Vec::new();
        let mut i: usize = 0;
        assert(view_loc_vars(vec@) =~= Seq::empty());
        while i < n
            invariant
                i <= n,
                self.advanced_from(old(self)),
                spec_size(old(self).data@, old(self).pos as int) == Some((n, start)),
                spec_seq(self.data@, start, i as nat, elem_loc_var()) == Some(
                    (view_loc_vars(vec@), self.pos as int),
                ),
            decreases n - i,
        {
            let ghost before = view_loc_vars(vec@);
            match self.read_loc_var() {
                Ok(x) => {
                    vec.push(x);
                    assert(view_loc_vars(vec@) =~= before.push(x@));
                },
                Err(e) => {
                    proof {
                        lemma_seq_fails_on(
                            self.data@,
                            start,
                            (i + 1) as nat,
                            n as nat,
                            elem_loc_var(),
                        );
                    }
                    return Err(e);
                },
            }
            i += 1;
        }
        Ok(vec)
    }

    /// Reads the names of the upvalues of a function.
    pub fn read_upvalue_names(&mut self) -> (r: Result<Vec<String>, LuaError>)
        requires
            old(self).wf(),
        ensures
            final(self).advanced_from(old(self)),
            match r {
                Ok(v) => spec_vec(old(self).data@, old(self).pos as int, elem_string()) == Some(
                    (view_strings(v@), final(self).pos as int),
                ),
                Err(e) => e == LuaError::CorruptChunk && spec_vec(
                    old(self).data@,
                    old(self).pos as int,
                    elem_string(),
                ).is_none(),
            },
    {
        let n = self.read_size()?;
        let ghost start = self.pos as int;
        let mut vec: Vec<String> = Vec::new();
        let mut i: usize = 0;
        assert(view_strings(vec@) =~= Seq::empty());
        while i < n
            invariant
                i <= n,
                self.advanced_from(old(self)),
                spec_size(old(self).data@, old(self).pos as int) == Some((n, start)),
                spec_seq(self.data@, start, i as nat, elem_string()) == Some(
                    (view_strings(vec@), self.pos as int),
                ),
            decreases n - i,
        {
            let ghost before = view_strings(vec@);
            match self.read_string() {
                Ok(x) => {
                    vec.push(x);
                    assert(view_strings(vec@) =~= before.push(x@));
                },
                Err(e) => {
                    proof {
                        lemma_seq_fails_on(
                            self.data@,
                            start,
                            (i + 1) as nat,
                            n as nat,
                            elem_string(),
                        );
                    }
                    return Err(e);
                },
            }
            i += 1;
        }
        Ok(vec)
    }

    /// Reads bytes that must be the `expected` ones.
    fn expect(&mut self, expected: &Vec<u8>, field: HeaderField) -> (r: Result<(), LuaError>)
        requires
            old(self).wf(),
        ensures
            final(self).advanced_from(old(self)),
            match r {
                Ok(_) => expect_bytes(old(self).data@, old(self).pos as int, expected@, field) == Ok::<
                    int,
                    LuaError,
                >(final(self).pos as int),
                Err(e) => expect_bytes(old(self).data@, old(self).pos as int, expected@, field)
                    == Err::<int, LuaError>(e),
            },
    {
        let n = expected.len();
        if self.data.len() - self.pos < n {
            return Err(LuaError::CorruptChunk);
        }
        let start = self.pos;
        let mut i: usize = 0;
        while i < n
            invariant
                i <= n,
                n == expected.len(),
                start + n <= self.data.len(),
                self.pos == start,
                self.data == old(self).data,
                self.data@.subrange(start as int, start + i) == expected@.subrange(0, i as int),
            decreases n - i,
        {
            if self.data[start + i] != expected[i] {
                assert(self.data@.subrange(start as int, start + n)[i as int] != expected@[i as int]);
                return Err(LuaError::HeaderMismatch(field));
            }
            i += 1;
            assert(self.data@.subrange(start as int, start + i) =~= expected@.subrange(0, i as int))
                by {
                assert forall|j: int| 0 <= j < i implies self.data@.subrange(
                    start as int,
                    start + i,
                )[j] == expected@.subrange(0, i as int)[j] by {
                    if j < i - 1 {
                        assert(self.data@.subrange(start as int, start + i - 1)[j]
                            == expected@.subrange(0, i - 1)[j]);
                    }
                }
            }
        }
        assert(expected@.subrange(0, n as int) =~= expected@);
        self.pos = start + n;
        Ok(())
    }

    /// Reads eight bytes that must hold `expected`.
    fn expect_number(&mut self, expected: u64, field: HeaderField) -> (r: Result<(), LuaError>)
        requires
            old(self).wf(),
        ensures
            final(self).advanced_from(old(self)),
            match r {
                Ok(_) => expect_u64(old(self).data@, old(self).pos as int, expected, field) == Ok::<
                    int,
                    LuaError,
                >(final(self).pos as int),
                Err(e) => expect_u64(old(self).data@, old(self).pos as int, expected, field)
                    == Err::<int, LuaError>(e),
            },
    {
        let x = self.read_u64()?;
        if x == expected {
            Ok(())
        } else {
            Err(LuaError::HeaderMismatch(field))
        }
    }

    /// Reads the prelude and holds it against what this machine expects.
    pub fn check_header(&mut self) -> (r: Result<(), LuaError>)
        requires
            old(self).wf(),
        ensures
            final(self).advanced_from(old(self)),
            match r {
                Ok(_) => spec_check_header(old(self).data@, old(self).pos as int) == Ok::<
                    int,
                    LuaError,
                >(final(self).pos as int),
                Err(e) => spec_check_header(old(self).data@, old(self).pos as int) == Err::<
                    int,
                    LuaError,
                >(e),
            },
    {
        let signature: Vec<u8> = vec![0x1bu8, 0x4cu8, 0x75u8, 0x61u8];
        let version: Vec<u8> = vec![LUAC_VERSION];
        let format: Vec<u8> = vec![LUAC_FORMAT];
        let data_tag: Vec<u8> = vec![0x19u8, 0x93u8, 0x0du8, 0x0au8, 0x1au8, 0x0au8];
        let instruction_size: Vec<u8> = vec![INSTRUCTION_SIZE];
        let integer_size: Vec<u8> = vec![LUA_INTEGER_SIZE];
        let number_size: Vec<u8> = vec![LUA_NUMBER_SIZE];
        assert(signature@ =~= signature_bytes());
        assert(version@ =~= seq![LUAC_VERSION]);
        assert(format@ =~= seq![LUAC_FORMAT]);
        assert(data_tag@ =~= data_tag_bytes());
        assert(instruction_size@ =~= seq![INSTRUCTION_SIZE]);
        assert(integer_size@ =~= seq![LUA_INTEGER_SIZE]);
        assert(number_size@ =~= seq![LUA_NUMBER_SIZE]);
        self.expect(&signature, HeaderField::Signature)?;
        self.expect(&version, HeaderField::Version)?;
        self.expect(&format, HeaderField::Format)?;
        self.expect(&data_tag, HeaderField::Data)?;
        self.expect(&instruction_size, HeaderField::InstructionSize)?;
        self.expect(&integer_size, HeaderField::IntegerSize)?;
        self.expect(&number_size, HeaderField::NumberSize)?;
        self.expect_number(LUAC_INT as u64, HeaderField::IntegerCanary)?;
        self.expect_number(LUAC_NUM, HeaderField::NumberCanary)?;
        Ok(())
    }

    /// Reads the main function of a chunk.
    pub fn read_proto(&mut self) -> (r: Result<Prototype, LuaError>)
        requires
            old(self).wf(),
        ensures
            final(self).advanced_from(old(self)),
            match r {
                Ok(p) => spec_proto(old(self).data@, old(self).pos as int, None) == Some(
                    (p.view(), final(self).pos as int),
                ),
                Err(e) => e == LuaError::CorruptChunk && spec_proto(
                    old(self).data@,
                    old(self).pos as int,
                    None,
                ).is_none(),
            },
    {
        self.read_proto0(None)
    }

    /// Reads a function that is nested in one whose source name is
    /// `parent_source`.
    pub fn read_proto0(&mut self, parent_source: Option<String>) -> (r: Result<Prototype, LuaError>)
        requires
            old(self).wf(),
        ensures
            final(self).advanced_from(old(self)),
            match r {
                Ok(p) => spec_proto(
                    old(self).data@,
                    old(self).pos as int,
                    view_opt(parent_source),
                ) == Some((p.view(), final(self).pos as int)) && old(self).pos < final(self).pos,
                Err(e) => e == LuaError::CorruptChunk && spec_proto(
                    old(self).data@,
                    old(self).pos as int,
                    view_opt(parent_source),
                ).is_none(),
            },
        decreases old(self).data.len() - old(self).pos,
    {
        let ghost data = self.data@;
        let ghost pos0 = self.pos as int;
        let ghost parent = view_opt(parent_source);
        let own = self.read_string0()?;
        let source = match own {
            Some(s) => Some(s),
            None => parent_source,
        };
        let line_defined = self.read_size()?;
        let last_line_defined = self.read_size()?;
        let ghost pos3 = self.pos as int;
        if self.data.len() - self.pos < 3 {
            return Err(LuaError::CorruptChunk);
        }
        let num_params = self.read_byte()?;
        let is_vararg = self.read_byte()?;
        let max_stack_size = self.read_byte()?;
        assert(spec_bytes(data, pos3, 3) == Some((data.subrange(pos3, pos3 + 3), pos3 + 3)));
        let code = self.read_code()?;
        let constants = self.read_constants()?;
        let upvalues = self.read_upvalues()?;
        let ghost head = ProtoHead {
            source: view_opt(source),
            line_defined,
            last_line_defined,
            num_params,
            is_vararg,
            max_stack_size,
            code: code@,
            constants: view_constants(constants@),
            upvalues: upvalues@,
        };
        let ghost pos1 = self.pos as int;
        assert(spec_proto_head(data, pos0, parent) == Some((head, pos1)));
        let n = self.read_size()?;
        let ghost start = self.pos as int;
        let mut protos: Vec<Rc<Prototype>> = Vec::new();
        let mut i: usize = 0;
        assert(view_protos(protos@) =~= Seq::empty());
        while i < n
            invariant
                i <= n,
                self.advanced_from(old(self)),
                data == self.data@,
                pos0 == old(self).pos,
                pos0 < start <= self.pos,
                parent == view_opt(parent_source),
                spec_proto_head(data, pos0, parent) == Some((head, pos1)),
                spec_size(data, pos1) == Some((n, start)),
                head.source == view_opt(source),
                spec_protos(data, start, i as nat, view_opt(source)) == Some(
                    (view_protos(protos@), self.pos as int),
                ),
            decreases n - i,
        {
            let ghost before = view_protos(protos@);
            let src = clone_source(&source);
            match self.read_proto0(src) {
                Ok(x) => {
                    let rc = Rc::new(x);
                    protos.push(rc);
                    assert(view_protos(protos@) =~= before.push(x.view()));
                },
                Err(e) => {
                    proof {
                        lemma_protos_fail_on(
                            data,
                            start,
                            (i + 1) as nat,
                            n as nat,
                            view_opt(source),
                        );
                    }
                    return Err(e);
                },
            }
            i += 1;
        }
        let line_info = self.read_line_info()?;
        let abs_line_info = self.read_abs_line_infos()?;
        let loc_vars = self.read_loc_vars()?;
        let upvalue_names = self.read_upvalue_names()?;
        let p = Prototype {
            source,
            line_defined,
            last_line_defined,
            num_params,
            is_vararg,
            max_stack_size,
            code,
            constants,
            upvalues,
            protos,
            line_info,
            abs_line_info,
            loc_vars,
            upvalue_names,
        };
        assert(p.view().protos =~= view_protos(p.protos@));
        Ok(p)
    }
}

} // verus!
