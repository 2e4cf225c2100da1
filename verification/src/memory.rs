//! Addresses of storage locations.

use vstd::prelude::*;
use crate::identifier::Identifier;

verus! {

/// Where a value is stored: on the scope stack, by the depth of the owning
/// scope (counted from the bottom) and the name; or in the heap, by slot.
#[derive(Debug, PartialEq)]
pub enum Address {
    StackAddress(usize, Identifier),
    HeapAddress(usize),
}

/// The mathematical view of an [`Address`].
pub enum AddressView {
    StackAddress(nat, Seq<char>),
    HeapAddress(nat),
}

impl View for Address {
    type V = AddressView;

    open spec fn view(&self) -> AddressView {
        match self {
            Address::StackAddress(depth, id) => AddressView::StackAddress(*depth as nat, id@),
            Address::HeapAddress(slot) => AddressView::HeapAddress(*slot as nat),
        }
    }
}

impl Clone for Address {
    fn clone(&self) -> (a: Address)
        ensures
            a == *self,
    {
        match self {
            Address::StackAddress(depth, id) => Address::StackAddress(*depth, id.clone()),
            Address::HeapAddress(slot) => Address::HeapAddress(*slot),
        }
    }
}

} // verus!
