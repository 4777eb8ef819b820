//! Functions as values.
use vstd::prelude::*;
use std::rc::Rc;
use crate::binary::chunk::{Prototype, PrototypeView};

verus! {

/// The name of a function of the host. The host keeps the functions; the
/// machine knows them by these names alone.
pub type RustFn = usize;

/// A function: a prototype to run, or a function of the host to call.
#[derive(Debug)]
pub struct Closure {
    pub proto: Rc<Prototype>,
    pub rust_fn: Option<RustFn>,
}

impl Closure {
    /// A function that runs `proto`.
    pub fn new(proto: Rc<Prototype>) -> (r: Closure)
        ensures
            r.proto == proto,
            r.rust_fn.is_none(),
    {
        Closure { proto, rust_fn: None }
    }

    /// A function that calls the function `f` of the host.
    pub fn new_rust_closure(f: RustFn) -> (r: Closure)
        ensures
            r.rust_fn == Some(f),
            r.proto.view() == PrototypeView::empty(),
    {
        Closure { proto: Rc::new(Prototype::new()), rust_fn: Some(f) }
    }

    /// A function that does nothing: an empty prototype.
    pub fn new_fake_closure() -> (r: Closure)
        ensures
            r.rust_fn.is_none(),
            r.proto.view() == PrototypeView::empty(),
    {
        Closure { proto: Rc::new(Prototype::new()), rust_fn: None }
    }
}

} // verus!
