//! Hints: code from outside that runs before an instruction.

use crate::bigint::BigInt;
use crate::builtin_runner::{BuiltinRunner, Runners};
use crate::errors::{outcome, Fault, VirtualMachineError};
use crate::memory::{Cells, Memory, MemorySegmentManager};
use crate::model::{current_instruction_is_runnable, current_instruction_ran, MachineState};
use crate::relocatable::{address_of, MaybeRelocatable, Value};
use crate::run_context::Registers;
use std::collections::HashMap;
use vstd::prelude::*;

verus! {

/// How far `ap` is known to have moved.
#[derive(Clone, Copy, Debug, PartialEq, Eq, Structural)]
pub struct ApTracking {
    pub group: usize,
    pub offset: usize,
}

/// A hint with what it refers to.
#[derive(Clone, Debug)]
pub struct HintData {
    pub hint_code: String,
    /// Maps the name of the variable to its reference id.
    pub ids: HashMap<String, usize>,
    pub ap_tracking_data: ApTracking,
}

impl HintData {
    pub fn new(
        hint_code: &str,
        ids: HashMap<String, usize>,
        ap_tracking_data: ApTracking,
    ) -> (r: HintData)
        ensures
            r.hint_code@ == hint_code@,
            r.ids == ids,
            r.ap_tracking_data == ap_tracking_data,
    {
        HintData { hint_code: hint_code.to_string(), ids, ap_tracking_data }
    }
}

/// What a hint sees of a machine: it may change the registers, the memory and the segments.
pub struct VMProxy<'a> {
    pub pc: &'a mut MaybeRelocatable,
    pub ap: &'a mut MaybeRelocatable,
    pub fp: &'a mut MaybeRelocatable,
    pub memory: &'a mut Memory,
    pub segments: &'a mut MemorySegmentManager,
    pub prime: &'a BigInt,
    pub builtin_runners: &'a Vec<(String, Box<dyn BuiltinRunner>)>,
}

/// What a hint sees, mathematically.
pub struct ProxyState {
    pub pc: Value,
    pub ap: Value,
    pub fp: Value,
    pub cells: Cells,
    pub num_segments: usize,
    pub segment_sizes: Map<usize, usize>,
    pub prime: int,
    pub runners: Runners,
}

/// Runs hints.
pub trait HintProcessor {
    /// What a hint is given as.
    type HintData;

    /// What hints keep between them.
    type ExecutionScopes;

    /// Running the hint `data` can lead from the first state and scopes to the second, and give
    /// `result`.
    spec fn effect(
        &self,
        data: Self::HintData,
        before: ProxyState,
        scopes_before: Self::ExecutionScopes,
        result: Result<(), Fault>,
        after: ProxyState,
        scopes_after: Self::ExecutionScopes,
    ) -> bool;

    /// Runs a hint.
    fn execute_hint(
        &self,
        vm_proxy: VMProxy<'_>,
        exec_scopes: &mut Self::ExecutionScopes,
        hint_data: &Self::HintData,
    ) -> (r: Result<(), VirtualMachineError>)
        ensures
            self.effect(
                *hint_data,
                (ProxyState {
                    pc: old(vm_proxy.pc)@,
                    ap: old(vm_proxy.ap)@,
                    fp: old(vm_proxy.fp)@,
                    cells: old(vm_proxy.memory)@,
                    num_segments: old(vm_proxy.segments).num_segments,
                    segment_sizes: old(vm_proxy.segments).segment_sizes@,
                    prime: vm_proxy.prime@,
                    runners: vm_proxy.builtin_runners@,
                }),
                *old(exec_scopes),
                outcome(r),
                (ProxyState {
                    pc: final(vm_proxy.pc)@,
                    ap: final(vm_proxy.ap)@,
                    fp: final(vm_proxy.fp)@,
                    cells: final(vm_proxy.memory)@,
                    num_segments: final(vm_proxy.segments).num_segments,
                    segment_sizes: final(vm_proxy.segments).segment_sizes@,
                    prime: vm_proxy.prime@,
                    runners: vm_proxy.builtin_runners@,
                }),
                *final(exec_scopes),
            ),
    ;
}

/// What hints see of a machine.
pub open spec fn shown(s: MachineState, runners: Runners) -> ProxyState {
    ProxyState {
        pc: s.registers.pc,
        ap: s.registers.ap,
        fp: s.registers.fp,
        cells: s.cells,
        num_segments: s.num_segments,
        segment_sizes: s.segment_sizes,
        prime: s.prime,
        runners,
    }
}

/// The machine after hints have left what they see as `seen`.
pub open spec fn changed(s: MachineState, seen: ProxyState) -> MachineState {
    MachineState {
        registers: Registers { pc: seen.pc, ap: seen.ap, fp: seen.fp, ..s.registers },
        cells: seen.cells,
        num_segments: seen.num_segments,
        segment_sizes: seen.segment_sizes,
        ..s
    }
}

/// Running all of `hints` in order, each with success, can lead from the first state and scopes to
/// the second.
pub open spec fn hints_ran<P: HintProcessor>(
    processor: P,
    hints: Seq<P::HintData>,
    before: ProxyState,
    scopes_before: P::ExecutionScopes,
    after: ProxyState,
    scopes_after: P::ExecutionScopes,
) -> bool
    decreases hints.len(),
{
    if hints.len() == 0 {
        &&& after == before
        &&& scopes_after == scopes_before
    } else {
        exists|between: ProxyState, scopes_between: P::ExecutionScopes|
            {
                &&& hints_ran(
                    processor,
                    hints.drop_last(),
                    before,
                    scopes_before,
                    between,
                    scopes_between,
                )
                &&& #[trigger] processor.effect(
                    hints.last(),
                    between,
                    scopes_between,
                    Ok(()),
                    after,
                    scopes_after,
                )
            }
    }
}

/// Running `hints` in order up to the first that fails can lead from the first state and scopes to
/// the second, with `fault` from the hint that fails.
pub open spec fn hint_failed<P: HintProcessor>(
    processor: P,
    hints: Seq<P::HintData>,
    before: ProxyState,
    scopes_before: P::ExecutionScopes,
    fault: Fault,
    after: ProxyState,
    scopes_after: P::ExecutionScopes,
) -> bool {
    exists|i: int, between: ProxyState, scopes_between: P::ExecutionScopes|
        {
            &&& 0 <= i < hints.len()
            &&& #[trigger] hints_ran(
                processor,
                hints.take(i),
                before,
                scopes_before,
                between,
                scopes_between,
            )
            &&& processor.effect(
                hints[i],
                between,
                scopes_between,
                Err(fault),
                after,
                scopes_after,
            )
        }
}

/// The hints that belong to the instruction at `offset`.
pub open spec fn hints_at<D>(dictionary: Map<usize, Vec<D>>, offset: usize) -> Seq<D> {
    if dictionary.contains_key(offset) {
        dictionary[offset]@
    } else {
        Seq::empty()
    }
}

/// Running `hints` and then the instruction to which they have led, from `s` with the builtins
/// `before` and the scopes `scopes_before`, can give `result`, lead to `next` and leave the
/// builtins as `after` and the scopes as `scopes_after`. Where a hint fails, nothing comes after
/// it.
pub open spec fn stepped_with<P: HintProcessor>(
    processor: P,
    hints: Seq<P::HintData>,
    s: MachineState,
    before: Runners,
    scopes_before: P::ExecutionScopes,
    result: Result<(), Fault>,
    next: MachineState,
    after: Runners,
    scopes_after: P::ExecutionScopes,
) -> bool {
    exists|seen: ProxyState|
        {
            ||| {
                &&& result is Err
                &&& hint_failed(
                    processor,
                    hints,
                    shown(s, before),
                    scopes_before,
                    result->Err_0,
                    seen,
                    scopes_after,
                )
                &&& next == #[trigger] changed(s, seen)
                &&& after == before
            }
            ||| {
                &&& hints_ran(
                    processor,
                    hints,
                    shown(s, before),
                    scopes_before,
                    seen,
                    scopes_after,
                )
                &&& current_instruction_ran(
                    MachineState { skip_instruction_execution: false, ..changed(s, seen) },
                    before,
                    result,
                    next,
                    after,
                )
            }
        }
}

/// A step from `s` with the builtins `before` and the scopes `scopes_before` can give `result`,
/// lead to `next` and leave the builtins as `after` and the scopes as `scopes_after`. The hints are
/// those of the instruction at `pc`.
pub open spec fn stepped<P: HintProcessor>(
    processor: P,
    dictionary: Map<usize, Vec<P::HintData>>,
    s: MachineState,
    before: Runners,
    scopes_before: P::ExecutionScopes,
    result: Result<(), Fault>,
    next: MachineState,
    after: Runners,
    scopes_after: P::ExecutionScopes,
) -> bool {
    match address_of(s.registers.pc) {
        Err(fault) => {
            &&& result == Err::<(), Fault>(Fault::MemoryError(fault))
            &&& next == s
            &&& after == before
            &&& scopes_after == scopes_before
        },
        Ok(pc) => stepped_with(
            processor,
            hints_at(dictionary, pc.offset),
            s,
            before,
            scopes_before,
            result,
            next,
            after,
            scopes_after,
        ),
    }
}

/// Wherever `hints` can lead from `s` with success, the instruction there can run.
pub open spec fn hints_lead_to_runnable<P: HintProcessor>(
    processor: P,
    hints: Seq<P::HintData>,
    s: MachineState,
    before: Runners,
    scopes_before: P::ExecutionScopes,
) -> bool {
    forall|seen: ProxyState, scopes: P::ExecutionScopes| #[trigger]
        hints_ran(processor, hints, shown(s, before), scopes_before, seen, scopes)
            ==> current_instruction_is_runnable(
            MachineState { skip_instruction_execution: false, ..changed(s, seen) },
            before,
        )
}

} // verus!
