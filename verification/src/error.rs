use vstd::prelude::*;
use vstd::string::StringExecFns;

verus! {

/// The part of the binary prelude that did not hold the expected value.
#[derive(Debug, Clone, Copy, PartialEq, Eq, Structural)]
pub enum HeaderField {
    Signature,
    Version,
    Format,
    Data,
    InstructionSize,
    IntegerSize,
    NumberSize,
    IntegerCanary,
    NumberCanary,
}

/// The ways in which an operation of the machine can fail.
#[derive(Debug, Clone, Copy, PartialEq, Eq, Structural)]
pub enum LuaError {
    /// The binary prelude fails a check.
    HeaderMismatch(HeaderField),
    /// The chunk is truncated, holds an invalid tag or an oversized count,
    /// or its code refers to something the chunk does not hold.
    CorruptChunk,
    /// An operand cannot be coerced for the chosen operator.
    ArithError,
    /// The operands of an ordered comparison have incompatible tags.
    CompareError,
    /// A stack index is out of range.
    IndexError,
    /// A nil or NaN key, or a table operation on a value that is no table.
    TableError,
    /// The callee is no function, or an operand has the wrong type.
    TypeError,
    /// The chunk could not be loaded.
    LoadError,
}

impl LuaError {
    /// The text of the message for this error, as a string literal.
    pub open spec fn text(self) -> &'static str {
        match self {
            LuaError::HeaderMismatch(HeaderField::Signature) => "HeaderMismatch: not a precompiled chunk",
            LuaError::HeaderMismatch(HeaderField::Version) => "HeaderMismatch: version mismatch",
            LuaError::HeaderMismatch(HeaderField::Format) => "HeaderMismatch: format mismatch",
            LuaError::HeaderMismatch(HeaderField::Data) => "HeaderMismatch: corrupted data tag",
            LuaError::HeaderMismatch(HeaderField::InstructionSize) => "HeaderMismatch: instruction size mismatch",
            LuaError::HeaderMismatch(HeaderField::IntegerSize) => "HeaderMismatch: integer size mismatch",
            LuaError::HeaderMismatch(HeaderField::NumberSize) => "HeaderMismatch: number size mismatch",
            LuaError::HeaderMismatch(HeaderField::IntegerCanary) => "HeaderMismatch: endianness mismatch",
            LuaError::HeaderMismatch(HeaderField::NumberCanary) => "HeaderMismatch: number format mismatch",
            LuaError::CorruptChunk => "CorruptChunk: malformed chunk",
            LuaError::ArithError => "ArithError: operand cannot be coerced",
            LuaError::CompareError => "CompareError: operands cannot be ordered",
            LuaError::IndexError => "IndexError: stack index out of range",
            LuaError::TableError => "TableError: invalid key or not a table",
            LuaError::TypeError => "TypeError: operand has the wrong type",
            LuaError::LoadError => "LoadError: chunk cannot be loaded",
        }
    }

    /// The user-visible message: the kind, a colon and a short explanation.
    pub fn message(&self) -> (r: String)
        ensures
            r@ == self.text()@,
    {
        let s: &'static str = match self {
            LuaError::HeaderMismatch(HeaderField::Signature) => "HeaderMismatch: not a precompiled chunk",
            LuaError::HeaderMismatch(HeaderField::Version) => "HeaderMismatch: version mismatch",
            LuaError::HeaderMismatch(HeaderField::Format) => "HeaderMismatch: format mismatch",
            LuaError::HeaderMismatch(HeaderField::Data) => "HeaderMismatch: corrupted data tag",
            LuaError::HeaderMismatch(HeaderField::InstructionSize) => "HeaderMismatch: instruction size mismatch",
            LuaError::HeaderMismatch(HeaderField::IntegerSize) => "HeaderMismatch: integer size mismatch",
            LuaError::HeaderMismatch(HeaderField::NumberSize) => "HeaderMismatch: number size mismatch",
            LuaError::HeaderMismatch(HeaderField::IntegerCanary) => "HeaderMismatch: endianness mismatch",
            LuaError::HeaderMismatch(HeaderField::NumberCanary) => "HeaderMismatch: number format mismatch",
            LuaError::CorruptChunk => "CorruptChunk: malformed chunk",
            LuaError::ArithError => "ArithError: operand cannot be coerced",
            LuaError::CompareError => "CompareError: operands cannot be ordered",
            LuaError::IndexError => "IndexError: stack index out of range",
            LuaError::TableError => "TableError: invalid key or not a table",
            LuaError::TypeError => "TypeError: operand has the wrong type",
            LuaError::LoadError => "LoadError: chunk cannot be loaded",
        };
        String::from_str(s)
    }
}

} // verus!
