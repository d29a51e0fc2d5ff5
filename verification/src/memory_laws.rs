//! What holds of reading and writing memory.

use crate::errors::MemoryFault;
use crate::memory::{cell, read, write_outcome, written, Cells};
use crate::relocatable::{Relocatable, Value};
use vstd::prelude::*;

verus! {

/// A cell holds a value exactly if its segment has one at its offset.
pub proof fn law_cells_are_found_by_segment_and_offset(cells: Cells, at: Relocatable, value: Value)
    ensures
        cell(cells, at) == Some(value) <==> {
            &&& at.segment_index < cells.len()
            &&& at.offset < cells[at.segment_index as int].len()
            &&& cells[at.segment_index as int][at.offset as int] == Some(value)
        },
{
}

/// Reading at an address gives what the cell there holds, and an integer is no address.
pub proof fn law_read(cells: Cells, at: Relocatable, n: int)
    ensures
        read(cells, Value::RelocatableValue(at)) == Ok::<Option<Value>, MemoryFault>(
            cell(cells, at),
        ),
        read(cells, Value::Int(n)) == Err::<Option<Value>, MemoryFault>(
            MemoryFault::AddressNotRelocatable,
        ),
{
}

/// A write is refused for three reasons, and for no other: what is given is no address, there is no
/// such segment, or the cell holds another value.
pub proof fn law_writes_are_refused_for_a_reason(cells: Cells, address: Value, value: Value)
    requires
        cells.len() <= usize::MAX,
    ensures
        match write_outcome(cells, address, value) {
            Ok(()) => {
                &&& address matches Value::RelocatableValue(at)
                &&& at.segment_index < cells.len()
                &&& cell(cells, at) is None || cell(cells, at) == Some(value)
            },
            Err(MemoryFault::AddressNotRelocatable) => address is Int,
            Err(MemoryFault::UnallocatedSegment(index, count)) => {
                &&& address matches Value::RelocatableValue(at)
                &&& index == at.segment_index
                &&& count == cells.len()
                &&& index >= count
            },
            Err(MemoryFault::InconsistentMemory(place, held, new)) => {
                &&& address matches Value::RelocatableValue(at)
                &&& place == address
                &&& cell(cells, at) == Some(held)
                &&& new == value
                &&& held != new
            },
        },
{
}

/// A write leaves every other segment as it was, and makes its own no longer than it must.
pub proof fn law_writes_grow_one_segment(
    cells: Cells,
    at: Relocatable,
    value: Value,
    segment_index: int,
)
    requires
        at.segment_index < cells.len(),
        0 <= segment_index < cells.len(),
    ensures
        ({
            let after = written(cells, Value::RelocatableValue(at), value);
            let before = cells[segment_index].len();
            &&& after.len() == cells.len()
            &&& segment_index != at.segment_index ==> after[segment_index]
                == cells[segment_index]
            &&& segment_index == at.segment_index ==> after[segment_index].len() == if at.offset
                < before {
                before as int
            } else {
                at.offset + 1
            }
            &&& cell(after, at) is Some
        }),
{
}

/// Writing what a cell holds changes nothing.
pub proof fn law_writing_twice_is_writing_once(cells: Cells, at: Relocatable, value: Value)
    requires
        cell(cells, at) == Some(value),
    ensures
        written(cells, Value::RelocatableValue(at), value) == cells,
        write_outcome(cells, Value::RelocatableValue(at), value) is Ok,
{
}

} // verus!
