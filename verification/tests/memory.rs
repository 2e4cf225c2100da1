use murust::error::EvalError;
use murust::heap::Heap;
use murust::memory::Address;
use murust::memorycell::{AllocatedCell, MemoryCell};
use murust::parsing::value::Value;

#[test]
fn new_cell_is_allocated_and_holds_its_value() {
    let cell = MemoryCell::new(true, Value::Integer(4));
    assert!(cell.is_allocated());
    assert!(cell.is_mutable());
    assert_eq!(cell.get_value(), Ok(&Value::Integer(4)));
    let fixed = MemoryCell::new(false, Value::Boolean(true));
    assert!(fixed.is_allocated());
    assert!(!fixed.is_mutable());
    assert_eq!(fixed.get_value(), Ok(&Value::Boolean(true)));
}

#[test]
fn cell_that_is_not_allocated_refuses_access() {
    let mut cell = MemoryCell::NotAllocated;
    assert!(!cell.is_allocated());
    assert!(!cell.is_mutable());
    assert_eq!(cell.get_value(), Err(EvalError::NonAllocatedCell(None)));
    assert_eq!(cell.set_value(Value::Unit), Err(EvalError::NonAllocatedCell(None)));
    assert!(!cell.is_allocated());
}

#[test]
fn cell_write_obeys_mutability() {
    let mut cell = MemoryCell::new(true, Value::Integer(4));
    assert_eq!(cell.set_value(Value::Boolean(false)), Ok(()));
    assert_eq!(cell.get_value(), Ok(&Value::Boolean(false)));
    assert!(cell.is_mutable());
    let mut fixed = MemoryCell::new(false, Value::Integer(4));
    assert_eq!(fixed.set_value(Value::Integer(5)), Err(EvalError::NotMutable(None)));
    assert_eq!(fixed.get_value(), Ok(&Value::Integer(4)));
}

#[test]
fn cell_clone_is_equal_in_every_part() {
    let cell = MemoryCell::new(false, Value::Integer(4));
    let copy = cell.clone();
    assert!(copy.is_allocated());
    assert!(!copy.is_mutable());
    assert_eq!(copy.get_value(), Ok(&Value::Integer(4)));
    assert!(!MemoryCell::NotAllocated.clone().is_allocated());
}

#[test]
fn allocated_cell_holds_its_value() {
    let cell = AllocatedCell::new(true, Value::Integer(7));
    assert_eq!(cell.get_value(), Some(&Value::Integer(7)));
    assert_eq!(cell.clone().get_value(), Some(&Value::Integer(7)));
    let wrapped = MemoryCell::AllocatedCell(cell);
    assert!(wrapped.is_mutable());
    assert_eq!(wrapped.get_value(), Ok(&Value::Integer(7)));
}

#[test]
fn heap_allocates_slot_after_slot() {
    let mut heap = Heap::new();
    assert_eq!(heap.malloc(true, Value::Integer(1)), Address::HeapAddress(0));
    assert_eq!(heap.malloc(false, Value::Boolean(true)), Address::HeapAddress(1));
    assert_eq!(heap.malloc(true, Value::Unit), Address::HeapAddress(2));
    let mut copy = heap.clone();
    assert_eq!(copy.malloc(true, Value::Unit), Address::HeapAddress(3));
    assert_eq!(heap.malloc(true, Value::Unit), Address::HeapAddress(3));
}

#[test]
fn address_clone_is_equal() {
    let heap = Address::HeapAddress(3);
    assert_eq!(heap.clone(), heap);
    let stack = Address::StackAddress(2, murust::identifier::Identifier::from("x"));
    assert_eq!(stack.clone(), stack);
    assert_ne!(stack, heap);
}
