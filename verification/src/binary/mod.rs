//! Precompiled chunks and how they are read.
use vstd::prelude::*;
use std::rc::Rc;
use crate::binary::chunk::Prototype;
use crate::binary::reader::{spec_undump, Reader};
use crate::error::LuaError;

pub mod chunk;
pub mod reader;

verus! {

/// Reads a chunk: its prelude, which must be the one this machine expects,
/// and its main function.
pub fn undump(data: Vec<u8>) -> (r: Result<Rc<Prototype>, LuaError>)
    ensures
        match r {
            Ok(p) => spec_undump(data@) == Ok::<_, LuaError>(p.view()),
            Err(e) => spec_undump(data@) == Err::<crate::binary::chunk::PrototypeView, _>(e),
        },
{
    let mut r = Reader::new(data);
    r.check_header()?;
    r.read_byte()?;
    let proto = r.read_proto()?;
    Ok(Rc::new(proto))
}

} // verus!
