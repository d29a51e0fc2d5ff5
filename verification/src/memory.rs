//! Memory: segments of cells, each of which is written at most once.

use crate::errors::{outcome, MemoryError, MemoryFault};
use crate::relocatable::{address_of, MaybeRelocatable, Relocatable, Value};
use std::collections::HashMap;
use vstd::prelude::*;

verus! {

/// The segments of a memory, each with its cells from offset zero on. A cell that holds nothing
/// is a gap.
pub type Cells = Seq<Seq<Option<Value>>>;

/// What the cell at `at` holds. Beyond the end of a segment, and in a segment that does not exist,
/// there is nothing.
pub open spec fn cell(cells: Cells, at: Relocatable) -> Option<Value> {
    if at.segment_index < cells.len() && at.offset < cells[at.segment_index as int].len() {
        cells[at.segment_index as int][at.offset as int]
    } else {
        None
    }
}

/// What reading at `address` gives.
pub open spec fn read(cells: Cells, address: Value) -> Result<Option<Value>, MemoryFault> {
    match address_of(address) {
        Ok(at) => Ok(cell(cells, at)),
        Err(fault) => Err(fault),
    }
}

/// A segment after `value` has come into the cell at `offset`. The segment grows as far as it must,
/// by gaps.
pub open spec fn filled(segment: Seq<Option<Value>>, offset: nat, value: Value) -> Seq<
    Option<Value>,
> {
    Seq::new(
        if offset < segment.len() {
            segment.len()
        } else {
            offset + 1
        },
        |i: int|
            if i == offset {
                Some(value)
            } else if i < segment.len() {
                segment[i]
            } else {
                None
            },
    )
}

/// What is said of writing `value` at `address`. A cell that holds a value can only be written
/// with that value again.
pub open spec fn write_outcome(cells: Cells, address: Value, value: Value) -> Result<
    (),
    MemoryFault,
> {
    match address_of(address) {
        Err(fault) => Err(fault),
        Ok(at) => if at.segment_index >= cells.len() {
            Err(MemoryFault::UnallocatedSegment(at.segment_index, cells.len() as usize))
        } else {
            match cell(cells, at) {
                Some(held) => if held == value {
                    Ok(())
                } else {
                    Err(MemoryFault::InconsistentMemory(address, held, value))
                },
                None => Ok(()),
            }
        },
    }
}

/// The memory after `value` was written at `address`; it stays as it was where that fails.
pub open spec fn written(cells: Cells, address: Value, value: Value) -> Cells {
    match address {
        Value::RelocatableValue(at) => if at.segment_index < cells.len() && cell(
            cells,
            at,
        ) is None {
            cells.update(
                at.segment_index as int,
                filled(cells[at.segment_index as int], at.offset as nat, value),
            )
        } else {
            cells
        },
        Value::Int(_) => cells,
    }
}

/// Segments of cells.
pub struct Memory {
    pub data: Vec<Vec<Option<MaybeRelocatable>>>,
}

impl View for Memory {
    type V = Cells;

    open spec fn view(&self) -> Cells {
        self.data.deep_view()
    }
}

impl Memory {
    /// A memory without segments.
    pub fn new() -> (r: Memory)
        ensures
            r@ == Seq::<Seq<Option<Value>>>::empty(),
    {
        let r = Memory { data: Vec::new() };
        assert(r@ =~= Seq::<Seq<Option<Value>>>::empty());
        r
    }

    /// The value in the cell at `key`, if it holds one.
    pub fn get(&self, key: &MaybeRelocatable) -> (r: Result<Option<&MaybeRelocatable>, MemoryError>)
        ensures
            outcome(r) == read(self@, key@),
    {
        let at: Relocatable = match key.as_relocatable() {
            Ok(at) => at,
            Err(error) => return Err(error),
        };
        if at.segment_index < self.data.len() && at.offset < self.data[at.segment_index].len() {
            assert(self@[at.segment_index as int] == self.data@[at.segment_index as int].deep_view());
            match &self.data[at.segment_index][at.offset] {
                Some(value) => Ok(Some(value)),
                None => Ok(None),
            }
        } else {
            Ok(None)
        }
    }

    /// After every cell there is one more offset.
    pub proof fn lemma_cells_are_addressable(&self)
        ensures
            forall|i: int| 0 <= i < self@.len() ==> (#[trigger] self@[i]).len() <= usize::MAX,
    {
        assert forall|i: int| 0 <= i < self@.len() implies (#[trigger] self@[i]).len()
            <= usize::MAX by {
            assert(self@[i].len() == self.data@[i].len());
        }
    }

    /// Writes `val` into the cell at `key`. The cell must be empty or hold that value already.
    pub fn insert(&mut self, key: &MaybeRelocatable, val: &MaybeRelocatable) -> (r: Result<
        (),
        MemoryError,
    >)
        ensures
            outcome(r) == write_outcome(old(self)@, key@, val@),
            final(self)@ == written(old(self)@, key@, val@),
    {
        let at: Relocatable = match key.as_relocatable() {
            Ok(at) => at,
            Err(error) => return Err(error),
        };
        let segment_count: usize = self.data.len();
        if at.segment_index >= segment_count {
            return Err(MemoryError::UnallocatedSegment(at.segment_index, segment_count));
        }
        let ghost cells = self@;
        let ghost s = at.segment_index as int;
        assert(cells[s] == self.data@[s].deep_view());
        let len: usize = self.data[at.segment_index].len();
        if at.offset < len {
            if let Some(held) = &self.data[at.segment_index][at.offset] {
                if *held == *val {
                    return Ok(());
                }
                return Err(
                    MemoryError::InconsistentMemory(key.clone(), held.clone(), val.clone()),
                );
            }
            self.data[at.segment_index][at.offset] = Some(val.clone());
            assert(self.data@[s].deep_view() =~= filled(cells[s], at.offset as nat, val@));
        } else {
            let mut end: usize = len;
            while end < at.offset
                invariant
                    len <= end <= at.offset,
                    s == at.segment_index,
                    0 <= s < self.data@.len(),
                    self.data@.len() == old(self).data@.len(),
                    forall|i: int|
                        0 <= i < self.data@.len() && i != s ==> self.data@[i] == old(self).data@[i],
                    self.data@[s]@.len() == end,
                    old(self).data@[s]@.len() == len,
                    forall|j: int|
                        0 <= j < end ==> self.data@[s]@[j] == if j < len {
                            old(self).data@[s]@[j]
                        } else {
                            None
                        },
                decreases at.offset - end,
            {
                self.data[at.segment_index].push(None);
                end = end + 1;
            }
            self.data[at.segment_index].push(Some(val.clone()));
            assert(self.data@[s].deep_view() =~= filled(cells[s], at.offset as nat, val@));
        }
        assert(self@ =~= written(cells, key@, val@)) by {
            assert forall|i: int| 0 <= i < self.data@.len() implies self@[i] == written(
                cells,
                key@,
                val@,
            )[i] by {
                if i != s {
                    assert(self.data@[i] == old(self).data@[i]);
                    assert(cells[i] == old(self).data@[i].deep_view());
                }
            }
        }
        Ok(())
    }
}

/// Hands out segments.
pub struct MemorySegmentManager {
    pub num_segments: usize,
    /// The sizes of the segments for which one was given.
    pub segment_sizes: HashMap<usize, usize>,
}

impl MemorySegmentManager {
    /// A manager that has not handed out a segment.
    pub fn new() -> (r: MemorySegmentManager)
        ensures
            r.num_segments == 0,
            r.segment_sizes@ == Map::<usize, usize>::empty(),
    {
        MemorySegmentManager { num_segments: 0, segment_sizes: HashMap::new() }
    }

    /// Adds an empty segment to `memory` and returns the address of its start.
    pub fn add(&mut self, memory: &mut Memory, size: Option<usize>) -> (r: Relocatable)
        requires
            old(self).num_segments < usize::MAX,
        ensures
            r == (Relocatable { segment_index: old(self).num_segments, offset: 0 }),
            final(self).num_segments == old(self).num_segments + 1,
            final(self).segment_sizes@ == (match size {
                Some(n) => old(self).segment_sizes@.insert(old(self).num_segments, n),
                None => old(self).segment_sizes@,
            }),
            final(memory)@ == old(memory)@.push(Seq::<Option<Value>>::empty()),
    {
        broadcast use vstd::std_specs::hash::group_hash_axioms;

        let segment_index: usize = self.num_segments;
        self.num_segments = segment_index + 1;
        if let Some(n) = size {
            self.segment_sizes.insert(segment_index, n);
        }
        memory.data.push(Vec::new());
        assert(memory@ =~= old(memory)@.push(Seq::<Option<Value>>::empty())) by {
            assert(memory.data@.last().deep_view() =~= Seq::<Option<Value>>::empty());
        }
        Relocatable { segment_index, offset: 0 }
    }
}

} // verus!
