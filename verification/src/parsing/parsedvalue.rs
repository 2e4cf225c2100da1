//! Literals.

use vstd::prelude::*;

verus! {

/// A literal as it occurs in the source text.
#[derive(Debug, Clone, Copy, PartialEq, Eq, Structural)]
pub enum ParsedValue {
    Integer(isize),
    Boolean(bool),
    Unit,
}

} // verus!
