//! What holds of asking the builtins.

use crate::builtin_runner::{asked, is_first_owner, owns, BuiltinRunner, Runners};
use crate::errors::{Fault, RunnerFault};
use crate::memory::Cells;
use crate::relocatable::{Relocatable, Value};
use vstd::prelude::*;

verus! {

/// The builtin sits in the segment.
pub open spec fn sits_in(runner: (String, Box<dyn BuiltinRunner>), segment_index: usize) -> bool {
    runner.1.segment_base() is Some && runner.1.segment_base()->0.segment_index == segment_index
}

/// Only the builtin at `k` can have changed, and it kept its name.
pub open spec fn only_changed(before: Runners, after: Runners, k: int) -> bool {
    &&& after.len() == before.len()
    &&& after[k].0 == before[k].0
    &&& forall|j: int| 0 <= j < before.len() && j != k ==> #[trigger] after[j] == before[j]
}

/// Where nobody sits in the segment of an address, there is no answer, and nobody changes.
pub proof fn law_without_owner_nobody_answers(
    before: Runners,
    at: Relocatable,
    cells: Cells,
    result: Result<Option<Value>, Fault>,
    after: Runners,
)
    requires
        asked(before, Value::RelocatableValue(at), cells, result, after),
        forall|k: int| 0 <= k < before.len() ==> !sits_in(#[trigger] before[k], at.segment_index),
    ensures
        result == Ok::<Option<Value>, Fault>(None),
        after == before,
{
    assert(forall|k: int|
        0 <= k < before.len() ==> !owns(#[trigger] before[k], at.segment_index));
}

/// The first builtin that sits in the segment of an address answers, with what it deduces of the
/// cell in that memory; what goes wrong with it is passed on; and nobody else changes.
pub proof fn law_the_first_owner_answers(
    before: Runners,
    at: Relocatable,
    cells: Cells,
    result: Result<Option<Value>, Fault>,
    after: Runners,
    k: int,
)
    requires
        asked(before, Value::RelocatableValue(at), cells, result, after),
        0 <= k < before.len(),
        sits_in(before[k], at.segment_index),
        forall|j: int| 0 <= j < k ==> !sits_in(#[trigger] before[j], at.segment_index),
    ensures
        only_changed(before, after, k),
        before[k].1.deduction(Value::RelocatableValue(at), cells) matches Ok(value) ==> result
            == Ok::<Option<Value>, Fault>(value),
        before[k].1.deduction(Value::RelocatableValue(at), cells) matches Err(fault) ==> result
            == Err::<Option<Value>, Fault>(Fault::RunnerError(fault)),
{
    assert(owns(before[k], at.segment_index));
    assert(forall|j: int| 0 <= j < k ==> !owns(#[trigger] before[j], at.segment_index));
    let i = choose|i: int| #[trigger] is_first_owner(before, at.segment_index, i);
    assert(is_first_owner(before, at.segment_index, k));
    assert(forall|i: int| #[trigger] is_first_owner(before, at.segment_index, i) ==> i == k);
}

/// Nobody is asked about an integer.
pub proof fn law_integers_are_not_asked_about(
    before: Runners,
    n: int,
    cells: Cells,
    result: Result<Option<Value>, Fault>,
    after: Runners,
)
    requires
        asked(before, Value::Int(n), cells, result, after),
    ensures
        result == Err::<Option<Value>, Fault>(
            Fault::RunnerError(RunnerFault::NonRelocatableAddress),
        ),
        after == before,
{
}

/// Asking the builtins `before` about the cell at `at` gives `answer` and leaves them as `after`.
pub open spec fn answered(
    before: Runners,
    at: Relocatable,
    cells: Cells,
    answer: Result<Option<Value>, Fault>,
    after: Runners,
) -> bool {
    ||| {
        &&& forall|k: int|
            0 <= k < before.len() ==> !sits_in(#[trigger] before[k], at.segment_index)
        &&& answer == Ok::<Option<Value>, Fault>(None)
        &&& after == before
    }
    ||| exists|k: int|
        {
            &&& 0 <= k < before.len()
            &&& sits_in(before[k], at.segment_index)
            &&& forall|j: int| 0 <= j < k ==> !sits_in(#[trigger] before[j], at.segment_index)
            &&& #[trigger] only_changed(before, after, k)
            &&& match before[k].1.deduction(Value::RelocatableValue(at), cells) {
                Ok(value) => answer == Ok::<Option<Value>, Fault>(value),
                Err(fault) => answer == Err::<Option<Value>, Fault>(Fault::RunnerError(fault)),
            }
        }
}

/// Whoever sits in the segment first answers, or else nobody.
pub proof fn law_asking_is_answered(
    before: Runners,
    at: Relocatable,
    cells: Cells,
    result: Result<Option<Value>, Fault>,
    after: Runners,
)
    requires
        asked(before, Value::RelocatableValue(at), cells, result, after),
    ensures
        answered(before, at, cells, result, after),
{
    if exists|k: int| 0 <= k < before.len() && sits_in(#[trigger] before[k], at.segment_index) {
        let k = choose|k: int|
            0 <= k < before.len() && sits_in(#[trigger] before[k], at.segment_index);
        let k = lemma_first_to_sit(before, at.segment_index, k);
        law_the_first_owner_answers(before, at, cells, result, after, k);
    } else {
        law_without_owner_nobody_answers(before, at, cells, result, after);
    }
}

/// The first builtin that sits in the segment, where the one at `k` does.
proof fn lemma_first_to_sit(runners: Runners, segment_index: usize, k: int) -> (first: int)
    requires
        0 <= k < runners.len(),
        sits_in(runners[k], segment_index),
    ensures
        0 <= first <= k,
        sits_in(runners[first], segment_index),
        forall|j: int| 0 <= j < first ==> !sits_in(#[trigger] runners[j], segment_index),
    decreases k,
{
    if exists|j: int| 0 <= j < k && sits_in(#[trigger] runners[j], segment_index) {
        let j = choose|j: int| 0 <= j < k && sits_in(#[trigger] runners[j], segment_index);
        lemma_first_to_sit(runners, segment_index, j)
    } else {
        k
    }
}

} // verus!
