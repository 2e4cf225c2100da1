//! The kinds of values.

use vstd::prelude::*;

verus! {

/// The kind of a value, as reported in type errors.
#[derive(Debug, Clone, Copy, PartialEq, Eq, Structural)]
pub enum Type {
    Int,
    Bool,
    Unit,
    Address,
}

} // verus!
