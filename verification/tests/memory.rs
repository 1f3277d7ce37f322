use nusa_vm::budget::Budget;
use nusa_vm::memory::{LinearMemory, MAX_PAGES, PAGE_SIZE};
use nusa_vm::{MemoryError, Trap};

#[test]
fn new_memory_is_zeroed() {
    let m = LinearMemory::new(1, 2).unwrap();
    assert_eq!(m.size(), PAGE_SIZE);
    assert_eq!(m.size_pages(), 1);
    assert_eq!(m.max_pages(), 2);
    assert_eq!(m.read(0, 4), Ok(vec![0, 0, 0, 0]));
    assert_eq!(m.read(65532, 4), Ok(vec![0, 0, 0, 0]));
}

#[test]
fn new_memory_respects_limits() {
    assert_eq!(LinearMemory::new(3, 2).err(), Some(MemoryError::LimitExceeded));
    assert_eq!(LinearMemory::new(0, MAX_PAGES + 1).err(), Some(MemoryError::LimitExceeded));
    assert!(LinearMemory::new(0, 0).is_ok());
}

#[test]
fn write_then_read() {
    let mut m = LinearMemory::new(1, 1).unwrap();
    assert_eq!(m.write(10, &[1, 2, 3]), Ok(()));
    assert_eq!(m.read(9, 5), Ok(vec![0, 1, 2, 3, 0]));
    assert_eq!(m.write(65533, &[7, 8, 9]), Ok(()));
    assert_eq!(m.read(65533, 3), Ok(vec![7, 8, 9]));
}

#[test]
fn straddling_write_changes_nothing() {
    let mut m = LinearMemory::new(1, 1).unwrap();
    assert_eq!(m.write(65534, &[1, 2, 3]), Err(Trap::OutOfBoundsMemoryAccess));
    assert_eq!(m.read(65534, 2), Ok(vec![0, 0]));
    assert_eq!(m.write(u64::MAX, &[1]), Err(Trap::OutOfBoundsMemoryAccess));
}

#[test]
fn read_is_checked_against_current_size() {
    let mut m = LinearMemory::new(1, 2).unwrap();
    assert_eq!(m.read(65536, 1), Err(Trap::OutOfBoundsMemoryAccess));
    assert_eq!(m.read(65535, 2), Err(Trap::OutOfBoundsMemoryAccess));
    assert_eq!(m.read(u64::MAX, u64::MAX), Err(Trap::OutOfBoundsMemoryAccess));
    assert_eq!(m.read(65536, 0), Ok(vec![]));
    assert_eq!(m.grow(1), Ok(2));
    assert_eq!(m.read(65536, 1), Ok(vec![0]));
}

#[test]
fn grow_stops_at_the_maximum() {
    let mut m = LinearMemory::new(1, 2).unwrap();
    m.write(0, &[5]).unwrap();
    assert_eq!(m.grow(2), Err(MemoryError::LimitExceeded));
    assert_eq!(m.size_pages(), 1);
    assert_eq!(m.grow(1), Ok(2));
    assert_eq!(m.size(), 2 * PAGE_SIZE);
    assert_eq!(m.read(0, 1), Ok(vec![5]));
    assert_eq!(m.grow(0), Ok(2));
    assert_eq!(m.grow(1), Err(MemoryError::LimitExceeded));
}

#[test]
fn budget_charges_until_it_is_spent() {
    let mut b = Budget::new(10);
    assert!(b.charge(4));
    assert_eq!(b.units_consumed(), 4);
    assert!(b.charge(6));
    assert_eq!(b.units_consumed(), 10);
    assert!(!b.charge(1));
    assert_eq!(b.units_consumed(), 10);
    let mut c = Budget::new(3);
    assert!(!c.charge(4));
    assert_eq!(c.units_consumed(), 3);
    assert_eq!(c.units_limit(), 3);
}
