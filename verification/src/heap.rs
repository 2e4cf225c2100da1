//! A growable heap of memory cells.

use vstd::prelude::*;
use crate::memory::{Address, AddressView};
use crate::memorycell::{CellView, MemoryCell};
use crate::parsing::value::Value;

verus! {

/// The heap: a sequence of cells, addressed by their index. Allocation
/// reuses the first free slot and grows the heap when there is none.
#[derive(Debug)]
pub struct Heap(Vec<MemoryCell>);

impl View for Heap {
    type V = Seq<CellView>;

    closed spec fn view(&self) -> Seq<CellView> {
        Seq::new(self.0@.len(), |i: int| self.0@[i]@)
    }
}

impl Clone for Heap {
    fn clone(&self) -> (heap: Heap)
        ensures
            heap@ == self@,
    {
        let mut cells: Vec<MemoryCell> = Vec::new();
        let mut i: usize = 0;
        while i < self.0.len()
            invariant
                i <= self.0@.len(),
                cells@.len() == i,
                forall|j: int| 0 <= j < i ==> cells@[j] == self.0@[j],
            decreases self.0@.len() - i,
        {
            cells.push(self.0[i].clone());
            i = i + 1;
        }
        let heap = Heap(cells);
        assert(heap@ =~= self@);
        heap
    }
}

/// Whether `slot` is where the next allocation goes: the first slot that is
/// not allocated, or the end of the heap when every slot is allocated.
pub open spec fn is_first_free(cells: Seq<CellView>, slot: int) -> bool {
    &&& 0 <= slot <= cells.len()
    &&& forall|i: int| 0 <= i < slot ==> cells[i] is Allocated
    &&& slot < cells.len() ==> cells[slot] is NotAllocated
}

/// The heap after `cell` has been put at `slot`, which is a slot of the
/// heap or its end.
pub open spec fn with_cell(cells: Seq<CellView>, slot: int, cell: CellView) -> Seq<CellView> {
    if slot < cells.len() {
        cells.update(slot, cell)
    } else {
        cells.push(cell)
    }
}

impl Heap {
    /// The empty heap.
    pub fn new() -> (heap: Heap)
        ensures
            heap@ == Seq::<CellView>::empty(),
    {
        Heap(Vec::new())
    }

    /// Allocates a cell that holds `value` in the first free slot, and
    /// returns the address of that slot.
    pub fn malloc(&mut self, mutable: bool, value: Value) -> (addr: Address)
        ensures
            addr matches Address::HeapAddress(slot) && is_first_free(old(self)@, slot as int)
                && final(self)@ == with_cell(
                old(self)@,
                slot as int,
                CellView::fresh(mutable, value@),
            ),
    {
        let mut slot: usize = 0;
        while slot < self.0.len()
            invariant
                slot <= self.0@.len(),
                *self == *old(self),
                forall|i: int| 0 <= i < slot ==> self@[i] is Allocated,
            decreases self.0@.len() - slot,
        {
            if !self.0[slot].is_allocated() {
                self.0.set(slot, MemoryCell::new(mutable, value));
                assert(self@ == old(self)@.update(slot as int, CellView::fresh(mutable, value@)));
                return Address::HeapAddress(slot);
            }
            slot = slot + 1;
        }
        self.0.push(MemoryCell::new(mutable, value));
        assert(self@ == old(self)@.push(CellView::fresh(mutable, value@)));
        Address::HeapAddress(slot)
    }
}

} // verus!
