//! Memory and its segments.

use cairo_vm_core::bigint::BigInt;
use cairo_vm_core::errors::MemoryError;
use cairo_vm_core::memory::{Memory, MemorySegmentManager};
use cairo_vm_core::relocatable::{MaybeRelocatable, Relocatable};

fn felt(value: i64) -> MaybeRelocatable {
    MaybeRelocatable::Int(BigInt::from_i64(value))
}

fn addr(segment_index: usize, offset: usize) -> MaybeRelocatable {
    MaybeRelocatable::from((segment_index, offset))
}

fn one_segment() -> Memory {
    let mut memory = Memory::new();
    MemorySegmentManager::new().add(&mut memory, None);
    memory
}

#[test]
fn what_was_written_is_read_back() {
    let mut memory = one_segment();
    assert_eq!(memory.insert(&addr(0, 2), &felt(7)), Ok(()));
    assert_eq!(memory.get(&addr(0, 2)), Ok(Some(&felt(7))));
    assert_eq!(memory.data, vec![vec![None, None, Some(felt(7))]]);
}

#[test]
fn a_gap_can_be_filled_later() {
    let mut memory = one_segment();
    memory.insert(&addr(0, 2), &felt(7)).unwrap();
    assert_eq!(memory.get(&addr(0, 1)), Ok(None));
    assert_eq!(memory.insert(&addr(0, 1), &addr(0, 2)), Ok(()));
    assert_eq!(memory.get(&addr(0, 1)), Ok(Some(&addr(0, 2))));
    assert_eq!(memory.get(&addr(0, 2)), Ok(Some(&felt(7))));
}

#[test]
fn a_cell_is_written_once() {
    let mut memory = one_segment();
    memory.insert(&addr(0, 0), &felt(7)).unwrap();
    assert_eq!(memory.insert(&addr(0, 0), &felt(7)), Ok(()));
    assert_eq!(
        memory.insert(&addr(0, 0), &felt(8)),
        Err(MemoryError::InconsistentMemory(addr(0, 0), felt(7), felt(8)))
    );
    assert_eq!(memory.data, vec![vec![Some(felt(7))]]);
}

#[test]
fn a_segment_must_exist_to_be_written() {
    let mut memory = one_segment();
    assert_eq!(
        memory.insert(&addr(3, 0), &felt(7)),
        Err(MemoryError::UnallocatedSegment(3, 1))
    );
    assert_eq!(memory.get(&addr(3, 0)), Ok(None));
    assert_eq!(memory.data, vec![vec![]]);
}

#[test]
fn an_integer_is_no_address() {
    let mut memory = one_segment();
    assert_eq!(memory.get(&felt(0)), Err(MemoryError::AddressNotRelocatable));
    assert_eq!(
        memory.insert(&felt(0), &felt(7)),
        Err(MemoryError::AddressNotRelocatable)
    );
}

#[test]
fn segments_are_handed_out_in_order() {
    let mut memory = Memory::new();
    let mut segments = MemorySegmentManager::new();
    assert_eq!(
        segments.add(&mut memory, None),
        Relocatable { segment_index: 0, offset: 0 }
    );
    assert_eq!(
        segments.add(&mut memory, Some(9)),
        Relocatable { segment_index: 1, offset: 0 }
    );
    assert_eq!(segments.num_segments, 2);
    assert_eq!(segments.segment_sizes.get(&0), None);
    assert_eq!(segments.segment_sizes.get(&1), Some(&9));
    assert_eq!(memory.data.len(), 2);
}
