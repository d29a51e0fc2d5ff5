//! Checking memory against what the builtins deduce of it.

use crate::builtin_runner::{owns, same_but, Runners};
use crate::errors::{Fault, RunnerFault};
use crate::memory::Cells;
use crate::relocatable::{Relocatable, Value};
use vstd::prelude::*;

verus! {

/// One thing to check: the cell at `offset` of the segment against the builtin at `runner`.
pub struct Visit {
    pub segment_index: int,
    pub offset: int,
    pub runner: int,
}

impl Visit {
    /// The address of the cell.
    pub open spec fn address(self) -> Value {
        Value::RelocatableValue(
            Relocatable {
                segment_index: self.segment_index as usize,
                offset: self.offset as usize,
            },
        )
    }
}

/// The checks of one cell against each of `n` builtins.
pub open spec fn cell_visits(n: nat, segment_index: int, offset: int) -> Seq<Visit> {
    Seq::new(n, |runner: int| Visit { segment_index, offset, runner })
}

/// The checks of the first `len` cells of a segment, from offset zero on.
pub open spec fn segment_visits(n: nat, segment_index: int, len: nat) -> Seq<Visit>
    decreases len,
{
    if len == 0 {
        Seq::empty()
    } else {
        segment_visits(n, segment_index, (len - 1) as nat) + cell_visits(
            n,
            segment_index,
            len - 1,
        )
    }
}

/// The checks of the first `count` segments of a memory, from the first on.
pub open spec fn memory_visits(n: nat, cells: Cells, count: nat) -> Seq<Visit>
    decreases count,
{
    if count == 0 {
        Seq::empty()
    } else {
        memory_visits(n, cells, (count - 1) as nat) + segment_visits(
            n,
            count - 1,
            cells[count - 1].len(),
        )
    }
}

/// What is said of a cell that holds `held`, of which the builtin `name` makes `deduction`. A cell
/// that holds nothing agrees with every value.
pub open spec fn judged(
    name: Seq<char>,
    deduction: Result<Option<Value>, RunnerFault>,
    held: Option<Value>,
) -> Result<(), Fault> {
    match deduction {
        Err(_) => Err(Fault::InvalidInstructionEncoding),
        Ok(None) => Ok(()),
        Ok(Some(deduced)) => if held is Some && held != Some(deduced) {
            Err(Fault::InconsistentAutoDeduction(name, deduced, held))
        } else {
            Ok(())
        },
    }
}

/// Making one check with the builtins `before` gives `result` and leaves them as `after`. A builtin
/// is only asked about its own segment, and it must have one.
pub open spec fn visited(
    visit: Visit,
    before: Runners,
    cells: Cells,
    result: Result<(), Fault>,
    after: Runners,
) -> bool {
    let runner = before[visit.runner];
    if runner.1.segment_base() is None {
        &&& result == Err::<(), Fault>(Fault::InvalidInstructionEncoding)
        &&& after == before
    } else if owns(runner, visit.segment_index as usize) {
        &&& result == judged(
            runner.0@,
            runner.1.deduction(visit.address(), cells),
            cells[visit.segment_index][visit.offset],
        )
        &&& same_but(before, after, visit.runner)
    } else {
        &&& result == Ok::<(), Fault>(())
        &&& after == before
    }
}

/// Making the checks in order, starting with the builtins `before`, finds nothing wrong and can
/// leave them as `after`.
pub open spec fn visits_passed(
    visits: Seq<Visit>,
    before: Runners,
    cells: Cells,
    after: Runners,
) -> bool
    decreases visits.len(),
{
    if visits.len() == 0 {
        after == before
    } else {
        exists|between: Runners|
            {
                &&& visits_passed(visits.drop_last(), before, cells, between)
                &&& #[trigger] visited(visits.last(), between, cells, Ok(()), after)
            }
    }
}

/// Making the checks in order, starting with the builtins `before`, can give `fault` at one of them
/// and leave the builtins as `after`.
pub open spec fn visit_failed(
    visits: Seq<Visit>,
    before: Runners,
    cells: Cells,
    fault: Fault,
    after: Runners,
) -> bool {
    exists|p: int, between: Runners|
        {
            &&& 0 <= p < visits.len()
            &&& visits_passed(visits.take(p), before, cells, between)
            &&& #[trigger] visited(visits[p], between, cells, Err(fault), after)
        }
}

/// Checking `visits` in order up to the first that fails can give `result` and leave the builtins
/// as `after`.
pub open spec fn visits_made(
    visits: Seq<Visit>,
    before: Runners,
    cells: Cells,
    result: Result<(), Fault>,
    after: Runners,
) -> bool {
    match result {
        Ok(()) => visits_passed(visits, before, cells, after),
        Err(fault) => visit_failed(visits, before, cells, fault, after),
    }
}

/// Checking all of memory with the builtins `before` can give `result` and leave them as `after`:
/// segment by segment, cell by cell, builtin by builtin, up to the first check that fails.
pub open spec fn deductions_verified(
    before: Runners,
    cells: Cells,
    result: Result<(), Fault>,
    after: Runners,
) -> bool {
    visits_made(memory_visits(before.len(), cells, cells.len()), before, cells, result, after)
}

/// Checks in a row: those that came first and passed, then the others.
pub proof fn lemma_visits_in_a_row(
    first: Seq<Visit>,
    second: Seq<Visit>,
    before: Runners,
    cells: Cells,
    between: Runners,
    result: Result<(), Fault>,
    after: Runners,
)
    requires
        visits_passed(first, before, cells, between),
        visits_made(second, between, cells, result, after),
    ensures
        visits_made(first + second, before, cells, result, after),
    decreases second.len(),
{
    match result {
        Ok(()) => {
            if second.len() == 0 {
                assert(first + second =~= first);
            } else {
                let last = choose|last: Runners|
                    {
                        &&& visits_passed(second.drop_last(), between, cells, last)
                        &&& #[trigger] visited(second.last(), last, cells, Ok(()), after)
                    };
                lemma_visits_in_a_row(
                    first,
                    second.drop_last(),
                    before,
                    cells,
                    between,
                    Ok(()),
                    last,
                );
                assert((first + second).drop_last() =~= first + second.drop_last());
                assert((first + second).last() == second.last());
            }
        },
        Err(fault) => {
            let (p, last) = choose|p: int, last: Runners|
                {
                    &&& 0 <= p < second.len()
                    &&& visits_passed(second.take(p), between, cells, last)
                    &&& #[trigger] visited(second[p], last, cells, Err(fault), after)
                };
            lemma_visits_in_a_row(first, second.take(p), before, cells, between, Ok(()), last);
            assert((first + second).take(first.len() + p) =~= first + second.take(p));
            assert((first + second)[first.len() + p] == second[p]);
        },
    }
}

/// A check that fails stays the outcome when more would have followed.
pub proof fn lemma_failure_stands(
    first: Seq<Visit>,
    second: Seq<Visit>,
    before: Runners,
    cells: Cells,
    fault: Fault,
    after: Runners,
)
    requires
        visit_failed(first, before, cells, fault, after),
    ensures
        visit_failed(first + second, before, cells, fault, after),
{
    let (p, last) = choose|p: int, last: Runners|
        {
            &&& 0 <= p < first.len()
            &&& visits_passed(first.take(p), before, cells, last)
            &&& #[trigger] visited(first[p], last, cells, Err(fault), after)
        };
    assert((first + second).take(p) =~= first.take(p));
    assert((first + second)[p] == first[p]);
}

/// A shorter stretch of a segment is checked first.
pub proof fn lemma_segment_visits_extend(n: nat, segment_index: int, first: nat, len: nat) -> (rest:
    Seq<Visit>)
    requires
        first <= len,
    ensures
        segment_visits(n, segment_index, len) == segment_visits(n, segment_index, first) + rest,
    decreases len,
{
    if first == len {
        let rest = Seq::empty();
        assert(segment_visits(n, segment_index, len) =~= segment_visits(n, segment_index, len)
            + rest);
        rest
    } else {
        let most = lemma_segment_visits_extend(n, segment_index, first, (len - 1) as nat);
        let rest = most + cell_visits(n, segment_index, len - 1);
        assert(segment_visits(n, segment_index, len) =~= segment_visits(n, segment_index, first)
            + rest);
        rest
    }
}

/// Earlier segments are checked first.
pub proof fn lemma_memory_visits_extend(n: nat, cells: Cells, first: nat, count: nat) -> (rest: Seq<
    Visit,
>)
    requires
        first <= count,
    ensures
        memory_visits(n, cells, count) == memory_visits(n, cells, first) + rest,
    decreases count,
{
    if first == count {
        let rest = Seq::empty();
        assert(memory_visits(n, cells, count) =~= memory_visits(n, cells, count) + rest);
        rest
    } else {
        let most = lemma_memory_visits_extend(n, cells, first, (count - 1) as nat);
        let rest = most + segment_visits(n, count - 1, cells[count - 1].len());
        assert(memory_visits(n, cells, count) =~= memory_visits(n, cells, first) + rest);
        rest
    }
}

} // verus!
