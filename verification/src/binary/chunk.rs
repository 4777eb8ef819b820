//! The parts of a precompiled chunk.
use vstd::prelude::*;
use std::rc::Rc;

verus! {

/// The four bytes that open a chunk: escape, then "Lua".
pub const LUA_SIGNATURE: [u8; 4] = [0x1b, 0x4c, 0x75, 0x61];
/// The version of the format: 5.4.
pub const LUAC_VERSION: u8 = 0x54;
/// The official format.
pub const LUAC_FORMAT: u8 = 0;
/// Six bytes that a text-mode transfer would have damaged.
pub const LUAC_DATA: [u8; 6] = [0x19, 0x93, 0x0d, 0x0a, 0x1a, 0x0a];
/// The number of bytes of an instruction.
pub const INSTRUCTION_SIZE: u8 = 4;
/// The number of bytes of an integer.
pub const LUA_INTEGER_SIZE: u8 = 8;
/// The number of bytes of a number.
pub const LUA_NUMBER_SIZE: u8 = 8;
/// An integer whose bytes show the byte order.
pub const LUAC_INT: i64 = 0x5678;
/// The bits of the double 370.5, which show the number format.
pub const LUAC_NUM: u64 = 0x4077_2800_0000_0000;
/// The length of the prelude in bytes.
pub const HEADER_SIZE: usize = 31;

/// The prelude of a chunk.
#[derive(Debug)]
pub struct Header {
    pub lua_signature: [u8; 4],
    pub luac_version: u8,
    pub luac_format: u8,
    pub luac_data: [u8; 6],
    pub size_of_instruction: u8,
    pub size_of_lua_int: u8,
    pub size_of_lua_num: u8,
    pub luac_int: i64,
    pub luac_num: u64,
}

/// A whole chunk: the prelude, the number of upvalues of the main function,
/// and the main function.
#[derive(Debug)]
pub struct BinaryChunk {
    pub header: Header,
    pub size_of_upvalues: u8,
    pub function: Prototype,
}

/// How a function finds one of its upvalues.
#[derive(Debug, Clone, Copy, PartialEq, Eq, Structural)]
pub struct Upvalue {
    pub instack: u8,
    pub idx: u8,
    pub kind: u8,
}

/// The line of an instruction, for the instructions whose line is stored in full.
#[derive(Debug, Clone, Copy, PartialEq, Eq, Structural)]
pub struct AbsLineInfo {
    pub pc: usize,
    pub line: usize,
}

/// A local variable and the instructions over which it lives.
#[derive(Debug)]
pub struct LocVar {
    pub var_name: String,
    pub start_pc: usize,
    pub end_pc: usize,
}

/// A local variable, as a mathematical value.
pub struct LocVarView {
    pub var_name: Seq<char>,
    pub start_pc: usize,
    pub end_pc: usize,
}

impl View for LocVar {
    type V = LocVarView;

    open spec fn view(&self) -> LocVarView {
        LocVarView { var_name: self.var_name@, start_pc: self.start_pc, end_pc: self.end_pc }
    }
}

/// An entry of a constant pool. A number is the bit pattern of a double.
#[derive(Debug)]
pub enum Constant {
    Nil,
    Boolean(bool),
    Number(u64),
    Integer(i64),
    Str(String),
}

/// An entry of a constant pool, as a mathematical value.
pub enum ConstantView {
    Nil,
    Boolean(bool),
    Number(u64),
    Integer(i64),
    Str(Seq<char>),
}

impl View for Constant {
    type V = ConstantView;

    open spec fn view(&self) -> ConstantView {
        match self {
            Constant::Nil => ConstantView::Nil,
            Constant::Boolean(b) => ConstantView::Boolean(*b),
            Constant::Number(n) => ConstantView::Number(*n),
            Constant::Integer(i) => ConstantView::Integer(*i),
            Constant::Str(s) => ConstantView::Str(s@),
        }
    }
}

/// The compiled form of a function. It does not change once it is loaded.
#[derive(Debug, Default)]
pub struct Prototype {
    pub source: Option<String>,
    pub line_defined: usize,
    pub last_line_defined: usize,
    pub num_params: u8,
    pub is_vararg: u8,
    pub max_stack_size: u8,
    pub code: Vec<u32>,
    pub constants: Vec<Constant>,
    pub upvalues: Vec<Upvalue>,
    pub protos: Vec<Rc<Prototype>>,
    pub line_info: Vec<i8>,
    pub abs_line_info: Vec<AbsLineInfo>,
    pub loc_vars: Vec<LocVar>,
    pub upvalue_names: Vec<String>,
}

/// The compiled form of a function, as a mathematical value.
pub struct PrototypeView {
    pub source: Option<Seq<char>>,
    pub line_defined: usize,
    pub last_line_defined: usize,
    pub num_params: u8,
    pub is_vararg: u8,
    pub max_stack_size: u8,
    pub code: Seq<u32>,
    pub constants: Seq<ConstantView>,
    pub upvalues: Seq<Upvalue>,
    pub protos: Seq<PrototypeView>,
    pub line_info: Seq<i8>,
    pub abs_line_info: Seq<AbsLineInfo>,
    pub loc_vars: Seq<LocVarView>,
    pub upvalue_names: Seq<Seq<char>>,
}

/// The view of an optional string.
pub open spec fn view_opt(s: Option<String>) -> Option<Seq<char>> {
    match s {
        Some(s) => Some(s@),
        None => None,
    }
}

/// The views of the constants of a pool.
pub open spec fn view_constants(s: Seq<Constant>) -> Seq<ConstantView> {
    Seq::new(s.len(), |i: int| s[i]@)
}

/// The views of a list of local variables.
pub open spec fn view_loc_vars(s: Seq<LocVar>) -> Seq<LocVarView> {
    Seq::new(s.len(), |i: int| s[i]@)
}

/// The views of a list of strings.
pub open spec fn view_strings(s: Seq<String>) -> Seq<Seq<char>> {
    Seq::new(s.len(), |i: int| s[i]@)
}

impl Prototype {
    /// The function as a mathematical value.
    pub open spec fn view(&self) -> PrototypeView
        decreases self,
    {
        PrototypeView {
            source: view_opt(self.source),
            line_defined: self.line_defined,
            last_line_defined: self.last_line_defined,
            num_params: self.num_params,
            is_vararg: self.is_vararg,
            max_stack_size: self.max_stack_size,
            code: self.code@,
            constants: view_constants(self.constants@),
            upvalues: self.upvalues@,
            protos: Seq::new(
                self.protos.len() as nat,
                |i: int|
                    if 0 <= i < self.protos.len() {
                        self.protos[i].view()
                    } else {
                        arbitrary()
                    },
            ),
            line_info: self.line_info@,
            abs_line_info: self.abs_line_info@,
            loc_vars: view_loc_vars(self.loc_vars@),
            upvalue_names: view_strings(self.upvalue_names@),
        }
    }

    /// A function without code, constants or parameters.
    pub fn new() -> (r: Prototype)
        ensures
            r.view() == PrototypeView::empty(),
    {
        let r = Prototype {
            source: None,
            line_defined: 0,
            last_line_defined: 0,
            num_params: 0,
            is_vararg: 0,
            max_stack_size: 0,
            code: Vec::new(),
            constants: Vec::new(),
            upvalues: Vec::new(),
            protos: Vec::new(),
            line_info: Vec::new(),
            abs_line_info: Vec::new(),
            loc_vars: Vec::new(),
            upvalue_names: Vec::new(),
        };
        assert(r.view().constants =~= Seq::empty());
        assert(r.view().protos =~= Seq::empty());
        assert(r.view().loc_vars =~= Seq::empty());
        assert(r.view().upvalue_names =~= Seq::empty());
        assert(r.view().code =~= Seq::empty());
        assert(r.view().upvalues =~= Seq::empty());
        assert(r.view().line_info =~= Seq::empty());
        assert(r.view().abs_line_info =~= Seq::empty());
        r
    }
}

impl PrototypeView {
    /// A function without code, constants or parameters.
    pub open spec fn empty() -> PrototypeView {
        PrototypeView {
            source: None,
            line_defined: 0,
            last_line_defined: 0,
            num_params: 0,
            is_vararg: 0,
            max_stack_size: 0,
            code: Seq::empty(),
            constants: Seq::empty(),
            upvalues: Seq::empty(),
            protos: Seq::empty(),
            line_info: Seq::empty(),
            abs_line_info: Seq::empty(),
            loc_vars: Seq::empty(),
            upvalue_names: Seq::empty(),
        }
    }
}

} // verus!
