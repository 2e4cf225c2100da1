//! Storage slots.

use vstd::prelude::*;
use crate::error::{EvalError, EvalErrorView};
use crate::parsing::value::{Value, ValueView};

verus! {

/// A storage slot: not allocated, or allocated with a mutability flag and,
/// once initialised, a value.
#[derive(Debug)]
pub enum MemoryCell {
    NotAllocated,
    AllocatedCell(AllocatedCell),
}

/// The contents of an allocated slot.
#[derive(Debug)]
pub struct AllocatedCell {
    mutable: bool,
    value: Option<Value>,
}

/// The mathematical view of a [`MemoryCell`].
pub enum CellView {
    NotAllocated,
    Allocated { mutable: bool, value: Option<ValueView> },
}

impl CellView {
    /// The cell that an allocation with an initial value creates.
    pub open spec fn fresh(mutable: bool, value: ValueView) -> CellView {
        CellView::Allocated { mutable, value: Some(value) }
    }
}

impl View for AllocatedCell {
    type V = CellView;

    closed spec fn view(&self) -> CellView {
        CellView::Allocated {
            mutable: self.mutable,
            value: match self.value {
                Some(v) => Some(v@),
                None => None,
            },
        }
    }
}

impl View for MemoryCell {
    type V = CellView;

    open spec fn view(&self) -> CellView {
        match self {
            MemoryCell::NotAllocated => CellView::NotAllocated,
            MemoryCell::AllocatedCell(cell) => cell@,
        }
    }
}

/// The contents of an allocated slot are seen as an allocated cell: a cell is
/// seen as allocated exactly when it is one that holds such contents.
pub proof fn lemma_allocated_view(cell: MemoryCell)
    ensures
        cell@ is Allocated <==> cell is AllocatedCell,
        cell matches MemoryCell::AllocatedCell(contents) ==> contents@ is Allocated && cell@
            == contents@,
{
}

impl Clone for AllocatedCell {
    fn clone(&self) -> (cell: AllocatedCell)
        ensures
            cell == *self,
    {
        AllocatedCell {
            mutable: self.mutable,
            value: match &self.value {
                Some(v) => Some(v.clone()),
                None => None,
            },
        }
    }
}

impl Clone for MemoryCell {
    fn clone(&self) -> (cell: MemoryCell)
        ensures
            cell == *self,
    {
        match self {
            MemoryCell::NotAllocated => MemoryCell::NotAllocated,
            MemoryCell::AllocatedCell(cell) => MemoryCell::AllocatedCell(cell.clone()),
        }
    }
}

impl MemoryCell {
    /// An allocated cell that holds `value`.
    pub fn new(mutable: bool, value: Value) -> (cell: MemoryCell)
        ensures
            cell@ == CellView::fresh(mutable, value@),
    {
        MemoryCell::AllocatedCell(AllocatedCell { mutable, value: Some(value) })
    }

    /// Whether the cell may be written: it is allocated, and as mutable.
    pub fn is_mutable(&self) -> (b: bool)
        ensures
            b == (self@ matches CellView::Allocated { mutable, .. } && mutable),
    {
        match self {
            MemoryCell::NotAllocated => false,
            MemoryCell::AllocatedCell(cell) => cell.mutable,
        }
    }

    /// The value in the cell; fails on a cell that is not allocated, and on
    /// one that holds no value.
    pub fn get_value(&self) -> (r: Result<&Value, EvalError>)
        ensures
            match self@ {
                CellView::NotAllocated => r matches Err(e) && e@ == EvalErrorView::NonAllocatedCell(
                    None,
                ),
                CellView::Allocated { value: None, .. } => r matches Err(e) && e@
                    == EvalErrorView::NonInitializedValue(None),
                CellView::Allocated { value: Some(v), .. } => r matches Ok(w) && w@ == v,
            },
    {
        match self {
            MemoryCell::NotAllocated => Err(EvalError::NonAllocatedCell(None)),
            MemoryCell::AllocatedCell(cell) => match &cell.value {
                Some(value) => Ok(value),
                None => Err(EvalError::NonInitializedValue(None)),
            },
        }
    }

    /// Stores `value` in the cell if the cell is allocated and mutable, and
    /// leaves the cell as it is otherwise.
    pub fn set_value(&mut self, value: Value) -> (r: Result<(), EvalError>)
        ensures
            match old(self)@ {
                CellView::NotAllocated => r matches Err(e) && e@ == EvalErrorView::NonAllocatedCell(
                    None,
                ) && final(self)@ == old(self)@,
                CellView::Allocated { mutable: false, .. } => r matches Err(e) && e@
                    == EvalErrorView::NotMutable(None) && final(self)@ == old(self)@,
                CellView::Allocated { mutable: true, .. } => r is Ok && final(self)@
                    == CellView::fresh(true, value@),
            },
    {
        match self {
            MemoryCell::NotAllocated => Err(EvalError::NonAllocatedCell(None)),
            MemoryCell::AllocatedCell(cell) => {
                if cell.mutable {
                    cell.value = Some(value);
                    Ok(())
                } else {
                    Err(EvalError::NotMutable(None))
                }
            },
        }
    }

    /// Whether the cell is allocated.
    pub fn is_allocated(&self) -> (b: bool)
        ensures
            b == (self@ is Allocated),
    {
        match self {
            MemoryCell::NotAllocated => false,
            MemoryCell::AllocatedCell(_) => true,
        }
    }
}

impl AllocatedCell {
    /// The contents of an allocated cell that holds `value`.
    pub fn new(mutable: bool, value: Value) -> (cell: AllocatedCell)
        ensures
            cell@ == CellView::fresh(mutable, value@),
    {
        AllocatedCell { mutable, value: Some(value) }
    }

    /// The value in the cell, if it holds one.
    pub fn get_value(&self) -> (r: Option<&Value>)
        ensures
            match self@ {
                CellView::Allocated { value: Some(v), .. } => r matches Some(w) && w@ == v,
                _ => r is None,
            },
    {
        self.value.as_ref()
    }
}

} // verus!
