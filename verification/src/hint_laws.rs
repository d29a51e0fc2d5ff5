//! What holds of steps: which hints run, what they see and change, and what comes after them.

use crate::builtin_runner::Runners;
use crate::errors::{Fault, MemoryFault};
use crate::hint_processor::{changed, shown, stepped, HintProcessor, ProxyState};
use crate::laws::law_step_runs_hints_in_order;
use crate::model::{current_instruction, current_instruction_ran, instruction_ran, MachineState};
use crate::relocatable::{Relocatable, Value};
use vstd::prelude::*;

verus! {

/// What hints see of a machine: its registers, its memory, its segments, its prime and its builtins.
pub proof fn law_what_hints_see(s: MachineState, runners: Runners)
    ensures
        ({
            let seen = shown(s, runners);
            &&& seen.pc == s.registers.pc && seen.ap == s.registers.ap && seen.fp == s.registers.fp
            &&& seen.cells == s.cells
            &&& seen.num_segments == s.num_segments && seen.segment_sizes == s.segment_sizes
            &&& seen.prime == s.prime
            &&& seen.runners == runners
        }),
{
}

/// What hints change in a machine: its registers, its memory and its segments, to what they leave
/// them as, and nothing else.
pub proof fn law_what_hints_change(s: MachineState, seen: ProxyState)
    ensures
        ({
            let t = changed(s, seen);
            &&& t.registers.pc == seen.pc && t.registers.ap == seen.ap && t.registers.fp == seen.fp
            &&& t.registers.prime == s.registers.prime
            &&& t.cells == seen.cells
            &&& t.num_segments == seen.num_segments && t.segment_sizes == seen.segment_sizes
            &&& t.prime == s.prime
            &&& t.program_base == s.program_base
            &&& t.accessed_addresses == s.accessed_addresses
            &&& t.trace == s.trace
            &&& t.current_step == s.current_step
            &&& t.skip_instruction_execution == s.skip_instruction_execution
        }),
{
}

/// Running the instruction at pc fails where there is none, and then changes nothing.
pub proof fn law_the_instruction_at_pc_runs(
    s: MachineState,
    before: Runners,
    result: Result<(), Fault>,
    next: MachineState,
    after: Runners,
)
    requires
        current_instruction_ran(s, before, result, next, after),
    ensures
        match current_instruction(s) {
            Ok(instruction) => instruction_ran(s, before, instruction, result, next, after),
            Err(fault) => result == Err::<(), Fault>(fault) && next == s && after == before,
        },
{
}

/// A step from an integer fails and changes nothing.
pub proof fn law_steps_start_at_an_address<P: HintProcessor>(
    processor: P,
    dictionary: Map<usize, Vec<P::HintData>>,
    s: MachineState,
    before: Runners,
    scopes_before: P::ExecutionScopes,
    result: Result<(), Fault>,
    next: MachineState,
    after: Runners,
    scopes_after: P::ExecutionScopes,
)
    requires
        stepped(
            processor,
            dictionary,
            s,
            before,
            scopes_before,
            result,
            next,
            after,
            scopes_after,
        ),
        s.registers.pc is Int,
    ensures
        result == Err::<(), Fault>(Fault::MemoryError(MemoryFault::AddressNotRelocatable)),
        next == s,
        after == before,
        scopes_after == scopes_before,
{
}

/// Where the dictionary has no hints for the offset of pc, none runs: the scopes stay, and the
/// instruction at pc runs.
pub proof fn law_without_an_entry_no_hint_runs<P: HintProcessor>(
    processor: P,
    dictionary: Map<usize, Vec<P::HintData>>,
    s: MachineState,
    pc: Relocatable,
    before: Runners,
    scopes_before: P::ExecutionScopes,
    result: Result<(), Fault>,
    next: MachineState,
    after: Runners,
    scopes_after: P::ExecutionScopes,
)
    requires
        stepped(
            processor,
            dictionary,
            s,
            before,
            scopes_before,
            result,
            next,
            after,
            scopes_after,
        ),
        s.registers.pc == Value::RelocatableValue(pc),
        !dictionary.contains_key(pc.offset),
    ensures
        scopes_after == scopes_before,
        current_instruction_ran(
            MachineState { skip_instruction_execution: false, ..s },
            before,
            result,
            next,
            after,
        ),
{
    let (states, scopes, seen) = law_step_runs_hints_in_order(
        processor,
        dictionary,
        s,
        before,
        scopes_before,
        result,
        next,
        after,
        scopes_after,
    );
    assert(changed(s, shown(s, before)) == s);
}

/// Where the dictionary has hints for the offset of pc, these run, from the first on, each once and
/// in this order, each from where the one before it led, the first from what it sees of the
/// machine. If one fails, that is the outcome, and no later hint and no instruction runs. Else the
/// instruction at the pc to which they have led runs, in the machine as they have left it.
pub proof fn law_the_hints_of_pc_run<P: HintProcessor>(
    processor: P,
    dictionary: Map<usize, Vec<P::HintData>>,
    s: MachineState,
    pc: Relocatable,
    before: Runners,
    scopes_before: P::ExecutionScopes,
    result: Result<(), Fault>,
    next: MachineState,
    after: Runners,
    scopes_after: P::ExecutionScopes,
) -> (r: (Seq<ProxyState>, Seq<P::ExecutionScopes>, ProxyState))
    requires
        stepped(
            processor,
            dictionary,
            s,
            before,
            scopes_before,
            result,
            next,
            after,
            scopes_after,
        ),
        s.registers.pc == Value::RelocatableValue(pc),
        dictionary.contains_key(pc.offset),
    ensures
        ({
            let hints = dictionary[pc.offset]@;
            let (states, scopes, seen) = r;
            let done = states.len() - 1;
            &&& 0 <= done <= hints.len()
            &&& scopes.len() == states.len()
            &&& states[0] == shown(s, before)
            &&& scopes[0] == scopes_before
            &&& forall|j: int|
                0 <= j < done ==> processor.effect(
                    #[trigger] hints[j],
                    states[j],
                    scopes[j],
                    Ok(()),
                    states[j + 1],
                    scopes[j + 1],
                )
            &&& done < hints.len() ==> {
                &&& result is Err
                &&& processor.effect(
                    hints[done],
                    states[done],
                    scopes[done],
                    result,
                    seen,
                    scopes_after,
                )
                &&& next == changed(s, seen)
                &&& after == before
            }
            &&& done == hints.len() ==> {
                &&& scopes_after == scopes[done]
                &&& current_instruction_ran(
                    MachineState {
                        skip_instruction_execution: false,
                        ..changed(s, states[done])
                    },
                    before,
                    result,
                    next,
                    after,
                )
            }
            &&& result is Ok ==> done == hints.len()
        }),
{
    law_step_runs_hints_in_order(
        processor,
        dictionary,
        s,
        before,
        scopes_before,
        result,
        next,
        after,
        scopes_after,
    )
}

} // verus!
