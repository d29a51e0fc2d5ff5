//! Builtins: segments whose cells follow from other cells by a rule.

use crate::errors::{outcome, Fault, RunnerError, RunnerFault};
use crate::memory::{Cells, Memory};
use crate::relocatable::{MaybeRelocatable, Relocatable, Value};
use vstd::prelude::*;

verus! {

/// A builtin. It owns a segment and deduces values of its cells.
pub trait BuiltinRunner {
    /// The start of the segment, once the builtin has one.
    spec fn segment_base(&self) -> Option<Relocatable>;

    /// What the builtin, as it is now, says of the cell at `address` of a memory.
    spec fn deduction(&self, address: Value, cells: Cells) -> Result<Option<Value>, RunnerFault>;

    /// The start of the segment.
    fn base(&self) -> (r: Option<Relocatable>)
        ensures
            r == self.segment_base(),
    ;

    /// The value that the cell at `address` must have, if the builtin can tell. The builtin may
    /// keep a note of having been asked.
    fn deduce_memory_cell(&mut self, address: &MaybeRelocatable, memory: &Memory) -> (r: Result<
        Option<MaybeRelocatable>,
        RunnerError,
    >)
        ensures
            outcome(r) == old(self).deduction(address@, memory@),
    ;
}

/// Builtins with their names, in the order in which they are asked.
pub type Runners = Seq<(String, Box<dyn BuiltinRunner>)>;

/// The builtin owns the segment.
pub open spec fn owns(runner: (String, Box<dyn BuiltinRunner>), segment_index: usize) -> bool {
    runner.1.segment_base() matches Some(base) && base.segment_index == segment_index
}

/// The `i`-th builtin is the first that owns the segment.
pub open spec fn is_first_owner(runners: Runners, segment_index: usize, i: int) -> bool {
    &&& 0 <= i < runners.len()
    &&& owns(runners[i], segment_index)
    &&& forall|j: int| 0 <= j < i ==> !owns(#[trigger] runners[j], segment_index)
}

/// At most the state of the `i`-th builtin differs.
pub open spec fn same_but(before: Runners, after: Runners, i: int) -> bool {
    &&& after.len() == before.len()
    &&& 0 <= i < before.len() ==> after[i].0 == before[i].0
    &&& forall|j: int| 0 <= j < before.len() && j != i ==> #[trigger] after[j] == before[j]
}

/// What a builtin says, as the machine passes it on.
pub open spec fn passed_on(deduction: Result<Option<Value>, RunnerFault>) -> Result<
    Option<Value>,
    Fault,
> {
    match deduction {
        Ok(value) => Ok(value),
        Err(fault) => Err(Fault::RunnerError(fault)),
    }
}

/// Asking the builtins `before` for the cell at `address` gives `result` and leaves them as
/// `after`: the first builtin that owns the segment is asked, and no other.
pub open spec fn asked(
    before: Runners,
    address: Value,
    cells: Cells,
    result: Result<Option<Value>, Fault>,
    after: Runners,
) -> bool {
    match address {
        Value::Int(_) => {
            &&& result == Err::<Option<Value>, Fault>(
                Fault::RunnerError(RunnerFault::NonRelocatableAddress),
            )
            &&& after == before
        },
        Value::RelocatableValue(at) => {
            ||| {
                &&& forall|i: int| 0 <= i < before.len() ==> !owns(
                    #[trigger] before[i],
                    at.segment_index,
                )
                &&& result == Ok::<Option<Value>, Fault>(None)
                &&& after == before
            }
            ||| exists|i: int|
                {
                    &&& #[trigger] is_first_owner(before, at.segment_index, i)
                    &&& result == passed_on(before[i].1.deduction(address, cells))
                    &&& same_but(before, after, i)
                }
        },
    }
}

/// The first of the first `n` builtins that owns the segment, if one does.
proof fn lemma_first_owner(runners: Runners, segment_index: usize, n: nat) -> (r: Option<int>)
    requires
        n <= runners.len(),
    ensures
        match r {
            Some(i) => i < n && is_first_owner(runners, segment_index, i),
            None => forall|j: int| 0 <= j < n ==> !owns(#[trigger] runners[j], segment_index),
        },
    decreases n,
{
    if n == 0 {
        None
    } else {
        let r = lemma_first_owner(runners, segment_index, (n - 1) as nat);
        if r is None && owns(runners[n - 1], segment_index) {
            Some(n - 1)
        } else {
            r
        }
    }
}

/// Whatever is asked, there is an answer.
pub proof fn lemma_some_answer(runners: Runners, address: Value, cells: Cells) -> (r: Result<
    Option<Value>,
    Fault,
>)
    ensures
        asked(runners, address, cells, r, runners),
{
    match address {
        Value::Int(_) => Err(Fault::RunnerError(RunnerFault::NonRelocatableAddress)),
        Value::RelocatableValue(at) => {
            match lemma_first_owner(runners, at.segment_index, runners.len()) {
                Some(i) => {
                    let r = passed_on(runners[i].1.deduction(address, cells));
                    assert(same_but(runners, runners, i));
                    r
                },
                None => Ok(None),
            }
        },
    }
}

} // verus!
