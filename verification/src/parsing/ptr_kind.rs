//! Kinds of owning pointers.

use vstd::prelude::*;

verus! {

/// The kind of pointer that a heap-allocation expression asks for.
#[derive(Debug, Clone, Copy, PartialEq, Eq, Structural)]
pub enum PtrKind {
    Box,
    Rc,
}

} // verus!
