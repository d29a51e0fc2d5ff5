//! What holds of running an instruction.

use crate::builtin_laws::{law_the_first_owner_answers, sits_in};
use crate::builtin_runner::Runners;
use crate::errors::{Fault, RunnerFault};
use crate::instruction::InstructionView;
use crate::laws::{law_operands_are_in_memory, lemma_answers, lemma_operands};
use crate::memory::{cell, Cells};
use crate::model::{
    assertion_outcome, fetched, instruction_ran, next_registers, operands_computed,
    registers_outcome, MachineState, OperandsView,
};
use crate::operand_laws::{
    is_result, law_demands_of_the_opcode, law_op0_is_settled,
    law_operands_are_fetched_from_their_addresses, law_results_are_computed,
    law_where_operands_come_from,
};
use crate::register_laws::{law_ap_moves, law_fp_moves, law_pc_moves, law_registers_move_in_order};
use crate::relocatable::{Relocatable, Value};
use crate::run_context::TraceEntry;
use crate::value_laws::{counted_up, is_sum, moved_on};
use vstd::prelude::*;

verus! {

/// Where memory does not hold the first operand, and the first builtin that sits in its segment
/// tells it, the operand is what the builtin tells, whatever the destination and the second operand
/// are, and memory holds it afterwards.
pub proof fn law_what_a_builtin_tells_is_the_first_operand(
    s: MachineState,
    before: Runners,
    i: InstructionView,
    o: OperandsView,
    cells: Cells,
    after: Runners,
    at: Relocatable,
    k: int,
    told: Value,
)
    requires
        operands_computed(s, before, i, Ok(o), cells, after),
        s.registers.op0_addr(i) == Ok::<Value, Fault>(Value::RelocatableValue(at)),
        cell(s.cells, at) is None,
        0 <= k < before.len(),
        sits_in(before[k], at.segment_index),
        forall|j: int| 0 <= j < k ==> !sits_in(#[trigger] before[j], at.segment_index),
        before[k].1.deduction(Value::RelocatableValue(at), s.cells) == Ok::<
            Option<Value>,
            RunnerFault,
        >(Some(told)),
    ensures
        o.op0 == told,
        cell(cells, at) == Some(told),
{
    law_operands_are_fetched_from_their_addresses(s, i);
    law_operands_are_in_memory(s, before, i, o, cells, after);
    let (answer0, between, answer1) = lemma_answers(s, before, i, Ok(o), cells, after);
    law_the_first_owner_answers(before, at, s.cells, answer0, between, k);
}

/// Where memory holds the first operand and not the second, and the first builtin that sits in the
/// segment of the second tells it, the second operand is what the builtin tells, whatever the
/// destination and the first operand are, and memory holds it afterwards; and the result is
/// computed from the operands.
pub proof fn law_what_a_builtin_tells_is_the_second_operand(
    s: MachineState,
    before: Runners,
    i: InstructionView,
    o: OperandsView,
    cells: Cells,
    after: Runners,
    op0_at: Relocatable,
    at: Relocatable,
    k: int,
    told: Value,
)
    requires
        operands_computed(s, before, i, Ok(o), cells, after),
        s.registers.op0_addr(i) == Ok::<Value, Fault>(Value::RelocatableValue(op0_at)),
        cell(s.cells, op0_at) is Some,
        s.registers.op1_addr(i, cell(s.cells, op0_at)) == Ok::<Value, Fault>(
            Value::RelocatableValue(at),
        ),
        cell(s.cells, at) is None,
        0 <= k < before.len(),
        sits_in(before[k], at.segment_index),
        forall|j: int| 0 <= j < k ==> !sits_in(#[trigger] before[j], at.segment_index),
        before[k].1.deduction(Value::RelocatableValue(at), s.cells) == Ok::<
            Option<Value>,
            RunnerFault,
        >(Some(told)),
    ensures
        o.op1 == told,
        cell(cells, at) == Some(told),
        cell(s.cells, op0_at) == Some(o.op0),
        is_result(s, i, o.op0, told, o.res),
{
    law_operands_are_fetched_from_their_addresses(s, i);
    law_operands_are_in_memory(s, before, i, o, cells, after);
    let (answer0, between, answer1) = lemma_answers(s, before, i, Ok(o), cells, after);
    law_the_first_owner_answers(before, at, s.cells, answer1, after, k);
    law_results_are_computed(s, i, o.op0, told);
    law_op0_is_settled(s, i, fetched(s, i)->Ok_0, Ok(Some(o.op0)));
}

/// A destination that memory does not hold gets the result of an assert-equal, be it an integer or
/// an address: the second operand, or the sum of the operands, or their product.
pub proof fn law_empty_destinations_get_the_result(
    s: MachineState,
    before: Runners,
    i: InstructionView,
    o: OperandsView,
    cells: Cells,
    after: Runners,
    at: Relocatable,
)
    requires
        operands_computed(s, before, i, Ok(o), cells, after),
        i.opcode is AssertEq,
        s.registers.dst_addr(i) == Ok::<Value, Fault>(Value::RelocatableValue(at)),
        cell(s.cells, at) is None,
    ensures
        o.res == Some(o.dst),
        cell(cells, at) == o.res,
        is_result(s, i, o.op0, o.op1, Some(o.dst)),
        i.res is Op1 ==> o.dst == o.op1,
        i.res is Add ==> is_sum(o.op0, o.op1, s.prime, o.dst),
        !(i.res is Unconstrained),
{
    law_operands_are_fetched_from_their_addresses(s, i);
    let _ = law_where_operands_come_from(s, before, i, o, cells, after);
}

/// How far the register updates count ap up.
pub open spec fn count_of_ap(i: InstructionView) -> int {
    if i.fp_update is APPlus2 || i.ap_update is Add2 {
        2
    } else if i.ap_update is Add1 {
        1
    } else {
        0
    }
}

/// The course of an instruction. Its operands are computed and checked; if that fails, nothing but
/// memory changes. Then it is recorded. If ap cannot be counted up, that is the outcome, and the
/// registers stay. Else the registers move, and if they could, the step is counted.
pub proof fn law_course_of_an_instruction(
    s: MachineState,
    before: Runners,
    i: InstructionView,
    result: Result<(), Fault>,
    next: MachineState,
    after: Runners,
) -> (r: (Result<OperandsView, Fault>, Cells))
    requires
        instruction_ran(s, before, i, result, next, after),
    ensures
        operands_computed(s, before, i, r.0, r.1, after),
        next.cells == r.1,
        next.prime == s.prime,
        next.num_segments == s.num_segments,
        next.segment_sizes == s.segment_sizes,
        next.program_base == s.program_base,
        next.skip_instruction_execution == s.skip_instruction_execution,
        match r.0 {
            Err(fault) => result == Err::<(), Fault>(fault) && next == (MachineState {
                cells: r.1,
                ..s
            }),
            Ok(o) => match assertion_outcome(s, i, o) {
                Err(fault) => result == Err::<(), Fault>(fault) && next == (MachineState {
                    cells: r.1,
                    ..s
                }),
                Ok(()) => {
                    &&& s.trace is None ==> next.trace is None
                    &&& s.trace matches Some(trace) ==> {
                        if s.registers.pc is RelocatableValue && s.registers.ap is RelocatableValue
                            && s.registers.fp is RelocatableValue {
                            next.trace == Some(
                                trace.push(
                                    TraceEntry {
                                        pc: s.registers.pc->RelocatableValue_0,
                                        ap: s.registers.ap->RelocatableValue_0,
                                        fp: s.registers.fp->RelocatableValue_0,
                                    },
                                ),
                            )
                        } else {
                            next.trace == Some(trace)
                        }
                    }
                    &&& s.accessed_addresses is None ==> next.accessed_addresses is None
                    &&& s.accessed_addresses matches Some(accessed) ==> next.accessed_addresses
                        == Some(
                        accessed.push(fetched(s, i)->Ok_0.addresses.dst).push(
                            fetched(s, i)->Ok_0.addresses.op0,
                        ).push(fetched(s, i)->Ok_0.addresses.op1).push(s.registers.pc),
                    )
                    &&& if s.registers.ap is RelocatableValue
                        && s.registers.ap->RelocatableValue_0.offset + count_of_ap(i)
                        > usize::MAX {
                        &&& result == Err::<(), Fault>(
                            Fault::OffsetExceeded(
                                s.registers.ap->RelocatableValue_0.offset + count_of_ap(i),
                            ),
                        )
                        &&& next.registers == s.registers
                        &&& next.current_step == s.current_step
                    } else {
                        &&& result == registers_outcome(s, i, o)
                        &&& next.registers == next_registers(s, i, o)
                        &&& result is Err ==> next.current_step == s.current_step
                        &&& result is Ok && s.current_step < usize::MAX ==> next.current_step
                            == s.current_step + 1
                    }
                },
            },
        },
{
    let r = lemma_operands(s, before, i, result, next, after);
    if let Some(accessed) = s.accessed_addresses {
        let a = fetched(s, i)->Ok_0.addresses;
        assert(accessed + seq![a.dst, a.op0, a.op1, s.registers.pc] =~= accessed.push(a.dst).push(
            a.op0,
        ).push(a.op1).push(s.registers.pc));
    }
    r
}

/// Where the registers are after an instruction that succeeded, in terms of the values that memory
/// holds at the addresses of its destination and operands, and of its result.
pub proof fn law_where_registers_go(
    s: MachineState,
    before: Runners,
    i: InstructionView,
    next: MachineState,
    after: Runners,
) -> (o: OperandsView)
    requires
        instruction_ran(s, before, i, Ok(()), next, after),
        s.registers.pc is RelocatableValue ==> s.registers.pc->RelocatableValue_0.offset + i.size()
            <= usize::MAX,
    ensures
        operands_computed(s, before, i, Ok(o), next.cells, after),
        fetched(s, i) matches Ok(found) && {
            &&& found.addresses.dst matches Value::RelocatableValue(dst_at)
            &&& found.addresses.op1 matches Value::RelocatableValue(op1_at)
            &&& cell(next.cells, dst_at) == Some(o.dst)
            &&& cell(next.cells, op1_at) == Some(o.op1)
        },
        ({
            let pc = s.registers.pc;
            let ap = s.registers.ap;
            &&& i.pc_update is Regular && pc is RelocatableValue ==> counted_up(
                pc,
                i.size() as int,
                next.registers.pc,
            )
            &&& i.pc_update is Regular && pc is Int ==> moved_on(
                pc,
                i.size() as int,
                s.prime,
                next.registers.pc,
            )
            &&& i.pc_update is Jump ==> o.res == Some(next.registers.pc)
            &&& i.pc_update is JumpRel ==> {
                &&& o.res matches Some(Value::Int(n))
                &&& moved_on(pc, n, s.prime, next.registers.pc)
            }
            &&& i.pc_update is Jnz ==> {
                &&& o.dst is Int
                &&& o.dst == Value::Int(0) ==> counted_up(pc, i.size() as int, next.registers.pc)
                &&& o.dst != Value::Int(0) ==> is_sum(pc, o.op1, s.prime, next.registers.pc)
            }
            &&& i.ap_update is Regular ==> next.registers.ap == ap
            &&& i.ap_update is Add1 ==> counted_up(ap, 1, next.registers.ap)
            &&& i.ap_update is Add2 ==> counted_up(ap, 2, next.registers.ap)
            &&& i.ap_update is Add ==> {
                &&& o.res matches Some(n)
                &&& is_sum(ap, n, s.prime, next.registers.ap)
            }
            &&& i.fp_update is Regular ==> next.registers.fp == s.registers.fp
            &&& i.fp_update is Dst ==> next.registers.fp == o.dst
            &&& i.fp_update is APPlus2 ==> counted_up(ap, 2, next.registers.fp)
            &&& next.registers.prime == s.registers.prime
        }),
{
    let (operands, cells) = law_course_of_an_instruction(s, before, i, Ok(()), next, after);
    let o = operands->Ok_0;
    let _ = law_where_operands_come_from(s, before, i, o, cells, after);
    law_fp_moves(s, i, o);
    law_ap_moves(s, i, o);
    law_pc_moves(s, i, o);
    law_registers_move_in_order(s, i, o);
    o
}

/// After an assert-equal has succeeded, it has a result, which equals the destination where both
/// are integers, whatever the operands are. So where the result is the second operand, and memory
/// holds integers for it and for the destination, they are one integer.
pub proof fn law_assert_eq_compares_integers(
    s: MachineState,
    before: Runners,
    i: InstructionView,
    next: MachineState,
    after: Runners,
) -> (o: OperandsView)
    requires
        instruction_ran(s, before, i, Ok(()), next, after),
        i.opcode is AssertEq,
    ensures
        operands_computed(s, before, i, Ok(o), next.cells, after),
        o.res is Some,
        o.res->0 is Int && o.dst is Int ==> o.res->0 == o.dst,
        fetched(s, i) matches Ok(found) && {
            &&& found.addresses.dst matches Value::RelocatableValue(dst_at)
            &&& found.addresses.op1 matches Value::RelocatableValue(op1_at)
            &&& i.res is Op1 && cell(next.cells, dst_at) is Some && cell(next.cells, dst_at)->0 is Int
                && cell(next.cells, op1_at) is Some && cell(next.cells, op1_at)->0 is Int ==> cell(
                next.cells,
                dst_at,
            ) == cell(next.cells, op1_at)
        },
{
    let (operands, cells) = law_course_of_an_instruction(s, before, i, Ok(()), next, after);
    let o = operands->Ok_0;
    let (answer0, between, answer1) = law_where_operands_come_from(s, before, i, o, cells, after);
    law_demands_of_the_opcode(s, i, o);
    o
}

/// An assert-equal whose result and destination are different integers is refused, with both of
/// them, and nothing but memory changes.
pub proof fn law_assert_eq_refuses_different_integers(
    s: MachineState,
    before: Runners,
    i: InstructionView,
    o: OperandsView,
    cells: Cells,
    result: Result<(), Fault>,
    next: MachineState,
    after: Runners,
    res: int,
    dst: int,
)
    requires
        instruction_ran(s, before, i, result, next, after),
        i.opcode is AssertEq,
        forall|other: Result<OperandsView, Fault>, made: Cells| #[trigger]
            operands_computed(s, before, i, other, made, after) ==> other == Ok::<
                OperandsView,
                Fault,
            >(o) && made == cells,
        o.res == Some(Value::Int(res)),
        o.dst == Value::Int(dst),
        res != dst,
    ensures
        result == Err::<(), Fault>(Fault::DiffAssertValues(res, dst)),
        next == (MachineState { cells, ..s }),
{
    let _ = law_course_of_an_instruction(s, before, i, result, next, after);
    law_demands_of_the_opcode(s, i, o);
}

} // verus!
