//! What holds of checking memory against the builtins.

use crate::auto_deduction::{
    cell_visits, deductions_verified, memory_visits, segment_visits, visited, visits_passed, Visit,
};
use crate::builtin_laws::{only_changed, sits_in};
use crate::builtin_runner::Runners;
use crate::errors::Fault;
use crate::laws::lemma_memory_visits_reach;
use crate::memory::Cells;
use crate::relocatable::{Relocatable, Value};
use vstd::prelude::*;

verus! {

/// The check `a` comes before the check `b`: in an earlier segment, at an earlier offset, or of an
/// earlier builtin.
pub open spec fn comes_before(a: Visit, b: Visit) -> bool {
    ||| a.segment_index < b.segment_index
    ||| a.segment_index == b.segment_index && a.offset < b.offset
    ||| a.segment_index == b.segment_index && a.offset == b.offset && a.runner < b.runner
}

/// The check is of a cell that is there, against one of `n` builtins.
pub open spec fn is_of(visit: Visit, n: nat, cells: Cells) -> bool {
    &&& 0 <= visit.segment_index < cells.len()
    &&& 0 <= visit.offset < cells[visit.segment_index].len()
    &&& 0 <= visit.runner < n
}

/// The address of the cell that is checked.
pub open spec fn checked_address(visit: Visit) -> Value {
    Value::RelocatableValue(
        Relocatable { segment_index: visit.segment_index as usize, offset: visit.offset as usize },
    )
}

proof fn lemma_segment_visits_in_order(n: nat, segment_index: int, len: nat)
    ensures
        forall|p: int|
            0 <= p < segment_visits(n, segment_index, len).len() ==> {
                let visit = #[trigger] segment_visits(n, segment_index, len)[p];
                &&& visit.segment_index == segment_index
                &&& 0 <= visit.offset < len
                &&& 0 <= visit.runner < n
            },
        forall|p: int, q: int|
            0 <= p < q < segment_visits(n, segment_index, len).len() ==> comes_before(
                #[trigger] segment_visits(n, segment_index, len)[p],
                #[trigger] segment_visits(n, segment_index, len)[q],
            ),
    decreases len,
{
    if len > 0 {
        lemma_segment_visits_in_order(n, segment_index, (len - 1) as nat);
        let earlier = segment_visits(n, segment_index, (len - 1) as nat);
        let last = cell_visits(n, segment_index, len - 1);
        assert(segment_visits(n, segment_index, len) == earlier + last);
    }
}

proof fn lemma_memory_visits_in_order(n: nat, cells: Cells, count: nat)
    requires
        count <= cells.len(),
    ensures
        forall|p: int|
            0 <= p < memory_visits(n, cells, count).len() ==> {
                let visit = #[trigger] memory_visits(n, cells, count)[p];
                is_of(visit, n, cells) && visit.segment_index < count
            },
        forall|p: int, q: int|
            0 <= p < q < memory_visits(n, cells, count).len() ==> comes_before(
                #[trigger] memory_visits(n, cells, count)[p],
                #[trigger] memory_visits(n, cells, count)[q],
            ),
    decreases count,
{
    if count > 0 {
        lemma_memory_visits_in_order(n, cells, (count - 1) as nat);
        lemma_segment_visits_in_order(n, count - 1, cells[count - 1].len());
        let earlier = memory_visits(n, cells, (count - 1) as nat);
        let last = segment_visits(n, count - 1, cells[count - 1].len());
        assert(memory_visits(n, cells, count) == earlier + last);
    }
}

/// Every cell is checked against every builtin, and the checks go by segment, then by offset, then
/// by builtin. Nothing else is checked.
pub proof fn law_checks_go_in_order(n: nat, cells: Cells)
    ensures
        forall|p: int|
            0 <= p < memory_visits(n, cells, cells.len()).len() ==> is_of(
                #[trigger] memory_visits(n, cells, cells.len())[p],
                n,
                cells,
            ),
        forall|p: int, q: int|
            0 <= p < q < memory_visits(n, cells, cells.len()).len() ==> comes_before(
                #[trigger] memory_visits(n, cells, cells.len())[p],
                #[trigger] memory_visits(n, cells, cells.len())[q],
            ),
        forall|visit: Visit| #[trigger]
            is_of(visit, n, cells) ==> memory_visits(n, cells, cells.len()).contains(visit),
{
    lemma_memory_visits_in_order(n, cells, cells.len());
    assert forall|visit: Visit| #[trigger] is_of(visit, n, cells) implies memory_visits(
        n,
        cells,
        cells.len(),
    ).contains(visit) by {
        let p = lemma_memory_visits_reach(n, cells, cells.len(), visit);
    }
}

/// A check finds nothing wrong: the builtin has a segment; if that is the cell's, the builtin, asked
/// about the cell, deduces nothing, or what the cell holds, or the cell holds nothing; and only
/// then can the builtin have changed.
pub open spec fn agrees(visit: Visit, before: Runners, cells: Cells, after: Runners) -> bool {
    let runner = before[visit.runner];
    let held = cells[visit.segment_index][visit.offset];
    &&& runner.1.segment_base() is Some
    &&& if sits_in(runner, visit.segment_index as usize) {
        &&& runner.1.deduction(checked_address(visit), cells) is Ok
        &&& {
            ||| runner.1.deduction(checked_address(visit), cells)->Ok_0 is None
            ||| held is None
            ||| runner.1.deduction(checked_address(visit), cells)->Ok_0 == held
        }
        &&& only_changed(before, after, visit.runner)
    } else {
        after == before
    }
}

/// A check fails with `fault`: the builtin has no segment, or fails itself, or, asked about a cell
/// of its segment, deduces something else than what the cell holds.
pub open spec fn disagrees(
    visit: Visit,
    before: Runners,
    cells: Cells,
    fault: Fault,
    after: Runners,
) -> bool {
    let runner = before[visit.runner];
    let held = cells[visit.segment_index][visit.offset];
    ||| {
        &&& fault == Fault::InvalidInstructionEncoding
        &&& runner.1.segment_base() is None
        &&& after == before
    }
    ||| {
        &&& sits_in(runner, visit.segment_index as usize)
        &&& only_changed(before, after, visit.runner)
        &&& match runner.1.deduction(checked_address(visit), cells) {
            Err(_) => fault == Fault::InvalidInstructionEncoding,
            Ok(None) => false,
            Ok(Some(deduced)) => {
                &&& held is Some && held->0 != deduced
                &&& fault == Fault::InconsistentAutoDeduction(runner.0@, deduced, held)
            },
        }
    }
}

/// What one check says.
pub proof fn law_what_a_check_says(
    visit: Visit,
    before: Runners,
    cells: Cells,
    result: Result<(), Fault>,
    after: Runners,
)
    requires
        0 <= visit.runner < before.len(),
        visited(visit, before, cells, result, after),
    ensures
        result is Ok ==> agrees(visit, before, cells, after),
        result is Err ==> disagrees(visit, before, cells, result->Err_0, after),
        after.len() == before.len(),
{
}

proof fn lemma_check_history(
    visits: Seq<Visit>,
    before: Runners,
    cells: Cells,
    after: Runners,
) -> (history: Seq<Runners>)
    requires
        visits_passed(visits, before, cells, after),
        forall|p: int|
            0 <= p < visits.len() ==> 0 <= (#[trigger] visits[p]).runner < before.len(),
    ensures
        history.len() == visits.len() + 1,
        history[0] == before,
        history.last() == after,
        after.len() == before.len(),
        forall|p: int|
            0 <= p < visits.len() ==> agrees(
                #[trigger] visits[p],
                history[p],
                cells,
                history[p + 1],
            ),
    decreases visits.len(),
{
    if visits.len() == 0 {
        seq![before]
    } else {
        let between = choose|between: Runners|
            {
                &&& visits_passed(visits.drop_last(), before, cells, between)
                &&& #[trigger] visited(visits.last(), between, cells, Ok(()), after)
            };
        assert forall|p: int| 0 <= p < visits.drop_last().len() implies 0 <= (
        #[trigger] visits.drop_last()[p]).runner < before.len() by {
            assert(visits.drop_last()[p] == visits[p]);
        }
        let earlier = lemma_check_history(visits.drop_last(), before, cells, between);
        assert(visits.last() == visits[visits.len() - 1]);
        law_what_a_check_says(visits.last(), between, cells, Ok(()), after);
        let history = earlier.push(after);
        assert forall|p: int| 0 <= p < visits.len() implies agrees(
            #[trigger] visits[p],
            history[p],
            cells,
            history[p + 1],
        ) by {
            if p < visits.len() - 1 {
                assert(visits.drop_last()[p] == visits[p]);
            }
        }
        history
    }
}

/// How memory is verified: check by check, each made with the builtins as the one before it left
/// them. If all find nothing wrong, so does the whole; else the first that does is the outcome.
pub proof fn law_how_memory_is_verified(
    before: Runners,
    cells: Cells,
    result: Result<(), Fault>,
    after: Runners,
) -> (history: Seq<Runners>)
    requires
        deductions_verified(before, cells, result, after),
    ensures
        ({
            let visits = memory_visits(before.len(), cells, cells.len());
            let done = history.len() - 1;
            &&& 0 <= done <= visits.len()
            &&& history[0] == before
            &&& forall|p: int|
                0 <= p < done ==> agrees(#[trigger] visits[p], history[p], cells, history[p + 1])
            &&& result is Ok ==> done == visits.len() && history[done] == after
            &&& result is Err ==> done < visits.len() && disagrees(
                visits[done],
                history[done],
                cells,
                result->Err_0,
                after,
            )
        }),
{
    let visits = memory_visits(before.len(), cells, cells.len());
    law_checks_go_in_order(before.len(), cells);
    match result {
        Ok(()) => lemma_check_history(visits, before, cells, after),
        Err(fault) => {
            let (p, between) = choose|p: int, between: Runners|
                {
                    &&& 0 <= p < visits.len()
                    &&& visits_passed(visits.take(p), before, cells, between)
                    &&& #[trigger] visited(visits[p], between, cells, Err(fault), after)
                };
            assert forall|q: int| 0 <= q < visits.take(p).len() implies 0 <= (
            #[trigger] visits.take(p)[q]).runner < before.len() by {
                assert(visits.take(p)[q] == visits[q]);
            }
            let history = lemma_check_history(visits.take(p), before, cells, between);
            assert forall|q: int| 0 <= q < p implies agrees(
                #[trigger] visits[q],
                history[q],
                cells,
                history[q + 1],
            ) by {
                assert(visits.take(p)[q] == visits[q]);
            }
            law_what_a_check_says(visits[p], between, cells, Err(fault), after);
            history
        },
    }
}

} // verus!
