//! What holds of the machine as a whole.

use crate::auto_deduction::{
    deductions_verified, memory_visits, segment_visits, visited, visits_passed, Visit,
};
use crate::bigint::{floor_mod, trunc_div, trunc_rem};
use crate::builtin_runner::{owns, BuiltinRunner, Runners};
use crate::decoder::decoded;
use crate::errors::{Fault, MemoryFault, RunnerFault};
use crate::hint_processor::{
    changed, hint_failed, hints_at, hints_ran, shown, stepped, HintProcessor, ProxyState,
};
use crate::instruction::{InstructionView, Res};
use crate::memory::{cell, read, write_outcome, written, Cells};
use crate::model::{
    asks_for_op0, assertion_outcome, computed_res, concluded, consulted, current_instruction, current_instruction_ran, deduced_factor, deduced_op0,
    deduced_op1, fetched, instruction_ran, operands_computed, operands_outcome, rounded_factor, settled,
    settled_op0, settled_op1, solves, store_all, stored, Fetched, MachineState, OperandsView, Settled,
};
use crate::modular::{
    is_prime, lemma_combination, lemma_invertible_modulo_prime, lemma_mod_quotient,
    lemma_negation_of_multiple, lemma_quotient_is_unique, lemma_remainder_is_congruent,
};
use crate::relocatable::{Relocatable, Value};
use crate::run_context::TraceEntry;
use vstd::prelude::*;

verus! {

/// Every cell that holds a value before holds the same value after.
pub open spec fn remembered(before: Cells, after: Cells) -> bool {
    forall|at: Relocatable| #[trigger]
        cell(before, at) is Some ==> cell(after, at) == cell(before, at)
}

/// Every cell that holds a value before holds the same value after, and no segment is lost or
/// added.
pub open spec fn kept(before: Cells, after: Cells) -> bool {
    &&& after.len() == before.len()
    &&& remembered(before, after)
}

/// What was written is what is read back.
pub proof fn law_write_then_read(cells: Cells, address: Value, value: Value)
    requires
        write_outcome(cells, address, value) is Ok,
    ensures
        read(written(cells, address, value), address) == Ok::<
            Option<Value>,
            MemoryFault,
        >(Some(value)),
{
}

/// A write, whether it is refused or not, changes no cell but the one at the address, and that one
/// only if it holds nothing.
pub proof fn law_write_is_local(cells: Cells, address: Value, value: Value, at: Relocatable)
    requires
        address != Value::RelocatableValue(at) || cell(cells, at) is Some,
    ensures
        cell(written(cells, address, value), at) == cell(cells, at),
{
}

/// A write that is refused changes nothing.
pub proof fn law_refused_write_changes_nothing(cells: Cells, address: Value, value: Value)
    requires
        write_outcome(cells, address, value) is Err,
    ensures
        written(cells, address, value) == cells,
{
}

/// Memory is written once: no write changes a cell that holds a value.
pub proof fn law_memory_is_write_once(cells: Cells, address: Value, value: Value)
    ensures
        kept(cells, written(cells, address, value)),
{
    assert forall|at: Relocatable| #[trigger] cell(cells, at) is Some implies cell(
        written(cells, address, value),
        at,
    ) == cell(cells, at) by {
        law_write_is_local(cells, address, value, at);
    }
}

proof fn lemma_kept_twice(first: Cells, second: Cells, third: Cells)
    requires
        kept(first, second),
        kept(second, third),
    ensures
        kept(first, third),
{
    lemma_remembered_twice(first, second, third);
}

proof fn lemma_storing_keeps(cells: Cells, missing: bool, address: Value, value: Option<Value>)
    ensures
        kept(cells, stored(cells, missing, address, value)),
{
    if let Some(value) = value {
        law_memory_is_write_once(cells, address, value);
    }
}

/// Storing the operands keeps memory, and reads back what was settled where it succeeds.
proof fn lemma_store_all(cells: Cells, found: Fetched, settled: Settled)
    requires
        read(cells, found.addresses.dst) == Ok::<Option<Value>, MemoryFault>(found.dst),
        read(cells, found.addresses.op0) == Ok::<Option<Value>, MemoryFault>(found.op0),
        read(cells, found.addresses.op1) == Ok::<Option<Value>, MemoryFault>(found.op1),
        found.dst is Some ==> settled.dst == found.dst->0,
        found.op0 is Some ==> settled.op0 == found.op0,
        found.op1 is Some ==> settled.op1 == found.op1,
    ensures
        kept(cells, store_all(cells, found, settled).1),
        store_all(cells, found, settled).0 matches Ok(operands) ==> in_memory(
            store_all(cells, found, settled).1,
            found,
            operands,
        ),
{
    let addresses = found.addresses;
    let dst = Some(settled.dst);
    let with_dst = stored(cells, found.dst is None, addresses.dst, dst);
    let with_op0 = stored(with_dst, found.op0 is None, addresses.op0, settled.op0);
    let with_op1 = stored(with_op0, found.op1 is None, addresses.op1, settled.op1);
    lemma_storing_keeps(cells, found.dst is None, addresses.dst, dst);
    lemma_storing_keeps(with_dst, found.op0 is None, addresses.op0, settled.op0);
    lemma_storing_keeps(with_op0, found.op1 is None, addresses.op1, settled.op1);
    lemma_kept_twice(cells, with_dst, with_op0);
    lemma_kept_twice(cells, with_op0, with_op1);
    lemma_kept_twice(with_dst, with_op0, with_op1);
    if let Ok(operands) = store_all(cells, found, settled).0 {
        let dst_at = addresses.dst->RelocatableValue_0;
        let op0_at = addresses.op0->RelocatableValue_0;
        let op1_at = addresses.op1->RelocatableValue_0;
        assert(cell(with_dst, dst_at) == Some(operands.dst)) by {
            if found.dst is None {
                law_write_then_read(cells, addresses.dst, settled.dst);
            } else {
                assert(cell(cells, dst_at) is Some);
            }
        }
        assert(cell(with_op0, op0_at) == Some(operands.op0)) by {
            if found.op0 is None {
                law_write_then_read(with_dst, addresses.op0, operands.op0);
            } else {
                assert(cell(cells, op0_at) is Some);
            }
        }
        assert(cell(with_op1, op1_at) == Some(operands.op1)) by {
            if found.op1 is None {
                law_write_then_read(with_op0, addresses.op1, operands.op1);
            } else {
                assert(cell(cells, op1_at) is Some);
            }
        }
    }
}

/// Memory holds the operands at their addresses.
pub open spec fn in_memory(cells: Cells, found: Fetched, operands: OperandsView) -> bool {
    &&& read(cells, found.addresses.dst) == Ok::<Option<Value>, MemoryFault>(Some(operands.dst))
    &&& read(cells, found.addresses.op0) == Ok::<Option<Value>, MemoryFault>(Some(operands.op0))
    &&& read(cells, found.addresses.op1) == Ok::<Option<Value>, MemoryFault>(Some(operands.op1))
}

/// What the builtins answered when operands were computed, and what they were in between.
pub proof fn lemma_answers(
    s: MachineState,
    before: Runners,
    instruction: InstructionView,
    result: Result<OperandsView, Fault>,
    cells: Cells,
    after: Runners,
) -> (r: (Result<Option<Value>, Fault>, Runners, Result<Option<Value>, Fault>))
    requires
        operands_computed(s, before, instruction, result, cells, after),
    ensures
        consulted(s, instruction, before, r.0, r.1, r.2, after),
        (result, cells) == operands_outcome(s, instruction, r.0, r.2),
{
    choose|
        answer0: Result<Option<Value>, Fault>,
        between: Runners,
        answer1: Result<Option<Value>, Fault>,
    |
        {
            &&& #[trigger] consulted(s, instruction, before, answer0, between, answer1, after)
            &&& (result, cells) == operands_outcome(s, instruction, answer0, answer1)
        }
}

/// What was computed of the operands when an instruction ran, and the memory that this made.
pub proof fn lemma_operands(
    s: MachineState,
    before: Runners,
    instruction: InstructionView,
    result: Result<(), Fault>,
    next: MachineState,
    after: Runners,
) -> (r: (Result<OperandsView, Fault>, Cells))
    requires
        instruction_ran(s, before, instruction, result, next, after),
    ensures
        operands_computed(s, before, instruction, r.0, r.1, after),
        (result, next) == concluded(
            MachineState { cells: r.1, ..s },
            instruction,
            r.0,
            fetched(s, instruction)->Ok_0.addresses,
        ),
{
    choose|operands: Result<OperandsView, Fault>, cells: Cells|
        {
            &&& #[trigger] operands_computed(s, before, instruction, operands, cells, after)
            &&& (result, next) == concluded(
                MachineState { cells, ..s },
                instruction,
                operands,
                fetched(s, instruction)->Ok_0.addresses,
            )
        }
}

/// Computing operands, whether it succeeds or not, changes no cell that holds a value.
pub proof fn law_operands_keep_memory(
    s: MachineState,
    before: Runners,
    instruction: InstructionView,
    result: Result<OperandsView, Fault>,
    cells: Cells,
    after: Runners,
)
    requires
        operands_computed(s, before, instruction, result, cells, after),
    ensures
        kept(s.cells, cells),
{
    let (answer0, between, answer1) = lemma_answers(
        s,
        before,
        instruction,
        result,
        cells,
        after,
    );
    if let Ok(found) = fetched(s, instruction) {
        if let Ok(settled) = settled(s, instruction, found, answer0, answer1) {
            lemma_store_all(s.cells, found, settled);
        }
    }
}

/// Operands that were computed are in memory, each at its address.
pub proof fn law_operands_are_in_memory(
    s: MachineState,
    before: Runners,
    instruction: InstructionView,
    operands: OperandsView,
    cells: Cells,
    after: Runners,
)
    requires
        operands_computed(s, before, instruction, Ok(operands), cells, after),
    ensures
        fetched(s, instruction) matches Ok(found) && in_memory(cells, found, operands),
{
    let result = Ok::<OperandsView, Fault>(operands);
    let (answer0, between, answer1) = lemma_answers(
        s,
        before,
        instruction,
        result,
        cells,
        after,
    );
    let found = fetched(s, instruction)->Ok_0;
    lemma_store_all(s.cells, found, settled(s, instruction, found, answer0, answer1)->Ok_0);
}

/// Computing operands, whether it succeeds or not, changes no cell but those of the operands, and
/// these only from holding nothing.
pub proof fn law_only_operand_cells_change(
    s: MachineState,
    before: Runners,
    instruction: InstructionView,
    result: Result<OperandsView, Fault>,
    cells: Cells,
    after: Runners,
    at: Relocatable,
)
    requires
        operands_computed(s, before, instruction, result, cells, after),
        cell(cells, at) != cell(s.cells, at),
    ensures
        cell(s.cells, at) is None,
        fetched(s, instruction) matches Ok(found) && {
            ||| found.addresses.dst == Value::RelocatableValue(at)
            ||| found.addresses.op0 == Value::RelocatableValue(at)
            ||| found.addresses.op1 == Value::RelocatableValue(at)
        },
{
    let (answer0, between, answer1) = lemma_answers(
        s,
        before,
        instruction,
        result,
        cells,
        after,
    );
    law_operands_keep_memory(s, before, instruction, result, cells, after);
    let found = fetched(s, instruction)->Ok_0;
    let settled = settled(s, instruction, found, answer0, answer1)->Ok_0;
    let addresses = found.addresses;
    let dst = Some(settled.dst);
    let with_dst = stored(s.cells, found.dst is None, addresses.dst, dst);
    let with_op0 = stored(with_dst, found.op0 is None, addresses.op0, settled.op0);
    lemma_storing_is_local(s.cells, found.dst is None, addresses.dst, dst, at);
    lemma_storing_is_local(with_dst, found.op0 is None, addresses.op0, settled.op0, at);
    lemma_storing_is_local(with_op0, found.op1 is None, addresses.op1, settled.op1, at);
}

proof fn lemma_storing_is_local(
    cells: Cells,
    missing: bool,
    address: Value,
    value: Option<Value>,
    at: Relocatable,
)
    ensures
        address != Value::RelocatableValue(at) ==> cell(
            stored(cells, missing, address, value),
            at,
        ) == cell(cells, at),
{
    if let Some(value) = value {
        if address != Value::RelocatableValue(at) {
            law_write_is_local(cells, address, value, at);
        }
    }
}

/// Where memory holds the destination and both operands, nothing is deduced and no builtin is
/// asked: the operands are what memory holds, the result is computed from them, and nothing
/// changes.
pub proof fn law_operands_that_are_there_are_taken(
    s: MachineState,
    before: Runners,
    instruction: InstructionView,
    result: Result<OperandsView, Fault>,
    cells: Cells,
    after: Runners,
    found: Fetched,
)
    requires
        operands_computed(s, before, instruction, result, cells, after),
        fetched(s, instruction) == Ok::<Fetched, Fault>(found),
        found.dst is Some,
        found.op0 is Some,
        found.op1 is Some,
    ensures
        result == (match computed_res(s, instruction, found.op0->0, found.op1->0) {
            Err(fault) => Err::<OperandsView, Fault>(fault),
            Ok(res) => Ok(
                OperandsView {
                    dst: found.dst->0,
                    res,
                    op0: found.op0->0,
                    op1: found.op1->0,
                },
            ),
        }),
        cells == s.cells,
        after == before,
{
    let _ = lemma_answers(s, before, instruction, result, cells, after);
}

/// An instruction whose operands cannot be computed, or do not meet the opcode's demands, fails with
/// that fault and changes nothing but memory: it is neither recorded nor counted, and the registers
/// stay.
pub proof fn law_early_failure_changes_only_memory(
    s: MachineState,
    before: Runners,
    instruction: InstructionView,
    result: Result<(), Fault>,
    next: MachineState,
    after: Runners,
) -> (r: (Result<OperandsView, Fault>, Cells))
    requires
        instruction_ran(s, before, instruction, result, next, after),
    ensures
        operands_computed(s, before, instruction, r.0, r.1, after),
        next.cells == r.1,
        ({
            let computed = MachineState { cells: r.1, ..s };
            match r.0 {
                Err(fault) => result == Err::<(), Fault>(fault) && next == computed,
                Ok(operands) => assertion_outcome(computed, instruction, operands) matches Err(
                    fault,
                ) ==> result == Err::<(), Fault>(fault) && next == computed,
            }
        }),
{
    lemma_operands(s, before, instruction, result, next, after)
}

/// An instruction, whether it succeeds or not, changes no cell that holds a value, adds no segment,
/// and leaves the primes and the segment bookkeeping alone.
pub proof fn law_instruction_keeps_memory(
    s: MachineState,
    before: Runners,
    instruction: InstructionView,
    result: Result<(), Fault>,
    next: MachineState,
    after: Runners,
)
    requires
        instruction_ran(s, before, instruction, result, next, after),
    ensures
        kept(s.cells, next.cells),
        next.prime == s.prime,
        next.registers.prime == s.registers.prime,
        next.num_segments == s.num_segments,
        next.segment_sizes == s.segment_sizes,
        next.program_base == s.program_base,
        next.skip_instruction_execution == s.skip_instruction_execution,
{
    let (operands, cells) = lemma_operands(
        s,
        before,
        instruction,
        result,
        next,
        after,
    );
    law_operands_keep_memory(s, before, instruction, operands, cells, after);
}

/// An instruction that succeeds is counted; the trace, if there is one, gains the registers with
/// which it began, if they are addresses; and the accessed addresses, if they are kept, gain those
/// of the destination, the operands and the instruction.
pub proof fn law_success_is_recorded(
    s: MachineState,
    before: Runners,
    instruction: InstructionView,
    next: MachineState,
    after: Runners,
)
    requires
        instruction_ran(s, before, instruction, Ok(()), next, after),
        s.current_step < usize::MAX,
    ensures
        next.current_step == s.current_step + 1,
        next.trace == (match (s.trace, s.registers.pc, s.registers.ap, s.registers.fp) {
            (
                Some(trace),
                Value::RelocatableValue(pc),
                Value::RelocatableValue(ap),
                Value::RelocatableValue(fp),
            ) => Some(trace.push(TraceEntry { pc, ap, fp })),
            _ => s.trace,
        }),
        fetched(s, instruction) matches Ok(found) && next.accessed_addresses == (
        match s.accessed_addresses {
            Some(accessed) => Some(
                accessed + seq![
                    found.addresses.dst,
                    found.addresses.op0,
                    found.addresses.op1,
                    s.registers.pc,
                ],
            ),
            None => None,
        }),
{
    let (operands, cells) = lemma_operands(
        s,
        before,
        instruction,
        Ok(()),
        next,
        after,
    );
    law_operands_are_in_memory(s, before, instruction, operands->Ok_0, cells, after);
}

/// An instruction that fails is not counted, and the program counter stays on it.
pub proof fn law_failure_stays_put(
    s: MachineState,
    before: Runners,
    instruction: InstructionView,
    fault: Fault,
    next: MachineState,
    after: Runners,
)
    requires
        instruction_ran(s, before, instruction, Err(fault), next, after),
    ensures
        next.current_step == s.current_step,
        next.registers.pc == s.registers.pc,
{
}

/// Without builtins, what an instruction does is determined by the state.
pub proof fn law_instructions_are_deterministic(
    s: MachineState,
    instruction: InstructionView,
    result1: Result<(), Fault>,
    next1: MachineState,
    after1: Runners,
    result2: Result<(), Fault>,
    next2: MachineState,
    after2: Runners,
)
    requires
        instruction_ran(s, Seq::empty(), instruction, result1, next1, after1),
        instruction_ran(s, Seq::empty(), instruction, result2, next2, after2),
    ensures
        result1 == result2,
        next1 == next2,
        after1 == Seq::<(String, Box<dyn BuiltinRunner>)>::empty(),
        after2 == Seq::<(String, Box<dyn BuiltinRunner>)>::empty(),
{
    lemma_ran_without_builtins(s, instruction, result1, next1, after1);
    lemma_ran_without_builtins(s, instruction, result2, next2, after2);
}

proof fn lemma_ran_without_builtins(
    s: MachineState,
    instruction: InstructionView,
    result: Result<(), Fault>,
    next: MachineState,
    after: Runners,
)
    requires
        instruction_ran(s, Seq::empty(), instruction, result, next, after),
    ensures
        after == Seq::<(String, Box<dyn BuiltinRunner>)>::empty(),
        ({
            let (operands, cells) = operands_outcome(s, instruction, Ok(None), Ok(None));
            (result, next) == concluded(
                MachineState { cells, ..s },
                instruction,
                operands,
                fetched(s, instruction)->Ok_0.addresses,
            )
        }),
{
    let before: Runners = Seq::empty();
    let (operands, cells) = lemma_operands(
        s,
        before,
        instruction,
        result,
        next,
        after,
    );
    let (answer0, between, answer1) = lemma_answers(
        s,
        before,
        instruction,
        operands,
        cells,
        after,
    );
}

/// An integer from zero up to the prime, or an address whose offset is below it.
pub open spec fn in_field(value: Value, prime: int) -> bool {
    match value {
        Value::Int(n) => 0 <= n < prime,
        Value::RelocatableValue(at) => at.offset < prime,
    }
}

/// What a sum or a difference leaves, plus or minus what was taken, comes back.
proof fn lemma_mod_comes_back(a: int, b: int, m: int)
    requires
        0 <= a < m,
    ensures
        floor_mod(floor_mod(a - b, m) + b, m) == a,
        floor_mod(b + floor_mod(a - b, m), m) == a,
{
    vstd::arithmetic::div_mod::lemma_add_mod_noop(a - b, b, m);
    vstd::arithmetic::div_mod::lemma_add_mod_noop((a - b) % m, b, m);
    vstd::arithmetic::div_mod::lemma_mod_twice(a - b, m);
    vstd::arithmetic::div_mod::lemma_small_mod(a as nat, m as nat);
}

/// A difference, added to what was subtracted, gives back the value, on either side.
pub proof fn law_difference_adds_up(a: Value, b: Value, prime: int)
    requires
        in_field(a, prime),
        in_field(b, prime),
        a.minus(b, prime) is Ok,
    ensures
        a.minus(b, prime)->Ok_0.plus(b, prime) == Ok::<Value, Fault>(a),
        b.plus(a.minus(b, prime)->Ok_0, prime) == Ok::<Value, Fault>(a),
{
    match (a, b) {
        (Value::Int(m), Value::Int(n)) => {
            lemma_mod_comes_back(m, n, prime);
        },
        (Value::RelocatableValue(m), Value::Int(n)) => {
            lemma_mod_comes_back(m.offset as int, n, prime);
        },
        (Value::RelocatableValue(m), Value::RelocatableValue(n)) => {
            lemma_mod_comes_back(m.offset as int, n.offset as int, prime);
        },
        _ => {},
    }
}

/// A factor that was deduced, times the known one, gives back the number, on either side.
proof fn lemma_factor_multiplies_back(a: int, b: int, prime: int, factor: int)
    requires
        0 <= a < prime,
        0 <= b,
        deduced_factor(a, b, prime).0 == Some(Value::Int(factor)),
    ensures
        0 <= factor < prime,
        solves(factor, a, b, prime),
        trunc_rem(factor * b, prime) == a,
        trunc_rem(b * factor, prime) == a,
{
    if !solves(rounded_factor(a, b, prime), a, b, prime) {
        lemma_mod_quotient(a, b, prime);
    } else {
        vstd::arithmetic::div_mod::lemma_div_pos_is_pos(a, b);
    }
    vstd::arithmetic::div_mod::lemma_mod_equivalence(factor * b, a, prime);
    vstd::arithmetic::div_mod::lemma_small_mod(a as nat, prime as nat);
    assert(factor * b == b * factor && 0 <= factor * b) by (nonlinear_arith)
        requires
            0 <= factor,
            0 <= b,
    ;
}

/// A first operand that was deduced from the destination and the second operand gives the
/// destination as the result.
pub proof fn law_deduced_op0_gives_dst(
    s: MachineState,
    instruction: InstructionView,
    dst: Value,
    op1: Value,
    op0: Value,
    res: Option<Value>,
)
    requires
        in_field(dst, s.prime),
        in_field(op1, s.prime),
        instruction.opcode is AssertEq,
        deduced_op0(s, instruction, Some(dst), Some(op1)) == Ok::<
            (Option<Value>, Option<Value>),
            Fault,
        >((Some(op0), res)),
    ensures
        res == Some(dst),
        computed_res(s, instruction, op0, op1) == Ok::<Option<Value>, Fault>(Some(dst)),
{
    match instruction.res {
        Res::Add => {
            law_difference_adds_up(dst, op1, s.prime);
        },
        _ => {
            lemma_factor_multiplies_back(dst->Int_0, op1->Int_0, s.prime, op0->Int_0);
        },
    }
}

/// A second operand that was deduced from the destination and the first operand gives the
/// destination as the result.
pub proof fn law_deduced_op1_gives_dst(
    s: MachineState,
    instruction: InstructionView,
    dst: Value,
    op0: Value,
    op1: Value,
    res: Option<Value>,
)
    requires
        in_field(dst, s.prime),
        in_field(op0, s.prime),
        deduced_op1(s, instruction, Some(dst), Some(op0)) == Ok::<
            (Option<Value>, Option<Value>),
            Fault,
        >((Some(op1), res)),
    ensures
        res == Some(dst),
        computed_res(s, instruction, op0, op1) == Ok::<Option<Value>, Fault>(Some(dst)),
{
    match instruction.res {
        Res::Add => {
            law_difference_adds_up(dst, op0, s.prime);
        },
        Res::Mul => {
            lemma_factor_multiplies_back(dst->Int_0, op0->Int_0, s.prime, op1->Int_0);
        },
        _ => {},
    }
}

/// Modulo a prime, a missing factor can be deduced whenever the other factor is not zero, and in the
/// field it is the only one.
pub proof fn law_factors_can_be_deduced(dst: int, known: int, prime: int) -> (factor: int)
    requires
        is_prime(prime),
        0 < known < prime,
    ensures
        deduced_factor(dst, known, prime) == (Some(Value::Int(factor)), Some(Value::Int(dst))),
        solves(factor, dst, known, prime),
        0 <= dst < prime ==> 0 <= factor < prime,
        0 <= dst < prime ==> forall|x: int|
            0 <= x < prime && #[trigger] solves(x, dst, known, prime) ==> x == factor,
{
    lemma_invertible_modulo_prime(known, prime);
    lemma_mod_quotient(dst, known, prime);
    let factor = deduced_factor(dst, known, prime).0->0->Int_0;
    if 0 <= dst < prime {
        lemma_factor_multiplies_back(dst, known, prime, factor);
        assert forall|x: int| 0 <= x < prime && #[trigger] solves(x, dst, known, prime) implies x
            == factor by {
            lemma_quotient_is_unique(dst, known, prime, x, factor);
        }
    }
    factor
}

/// A quotient that leaves no remainder is what is deduced.
pub proof fn law_exact_quotients_are_deduced(factor: int, known: int, prime: int)
    requires
        prime != 0,
        known != 0,
    ensures
        deduced_factor(factor * known, known, prime) == (
            Some(Value::Int(trunc_rem(factor, prime))),
            Some(Value::Int(factor * known)),
        ),
{
    lemma_exact_quotient(factor, known);
    lemma_trunc_rem_is_congruent(factor, known, prime);
}

proof fn lemma_exact_quotient(factor: int, known: int)
    requires
        known != 0,
    ensures
        trunc_div(factor * known, known) == factor,
{
    let a = factor * known;
    assert(a < 0 ==> (-a) / known == -factor) by (nonlinear_arith)
        requires
            a == factor * known,
            known != 0,
    ;
    assert(a >= 0 ==> a / known == factor) by (nonlinear_arith)
        requires
            a == factor * known,
            known != 0,
    ;
}

proof fn lemma_trunc_rem_is_congruent(a: int, b: int, m: int)
    requires
        m != 0,
    ensures
        solves(trunc_rem(a, m), a * b, b, m),
{
    let r = trunc_rem(a, m);
    assert((r - a) % m == 0) by {
        if a < 0 {
            lemma_remainder_is_congruent(-a, m);
            lemma_negation_of_multiple((-a) % m - (-a), m);
        } else {
            lemma_remainder_is_congruent(a, m);
        }
    }
    lemma_combination(b, r - a, 0, 0, m);
    assert(r * b - a * b == b * (r - a) + 0 * 0) by (nonlinear_arith);
}

/// The result of operands in the field is in the field.
pub proof fn law_results_stay_in_field(
    s: MachineState,
    instruction: InstructionView,
    op0: Value,
    op1: Value,
    res: Value,
)
    requires
        in_field(op0, s.prime),
        in_field(op1, s.prime),
        computed_res(s, instruction, op0, op1) == Ok::<Option<Value>, Fault>(Some(res)),
    ensures
        in_field(res, s.prime),
{
    match (instruction.res, op0, op1) {
        (Res::Mul, Value::Int(a), Value::Int(b)) => {
            assert(0 <= a * b) by (nonlinear_arith)
                requires
                    0 <= a,
                    0 <= b,
            ;
        },
        _ => {},
    }
}

/// The equation that an assert-equal instruction stands for, between integers.
pub open spec fn equation_holds(
    instruction: InstructionView,
    dst: int,
    op0: int,
    op1: int,
    prime: int,
) -> bool {
    match instruction.res {
        Res::Op1 => dst == op1,
        Res::Add => dst == (op0 + op1) % prime,
        Res::Mul => dst == (op0 * op1) % prime,
        Res::Unconstrained => false,
    }
}

/// After an assert-equal instruction has succeeded, its equation holds in memory, where memory
/// holds integers of the field.
pub proof fn law_assert_eq_makes_the_equation_hold(
    s: MachineState,
    before: Runners,
    instruction: InstructionView,
    next: MachineState,
    after: Runners,
    dst: int,
    op0: int,
    op1: int,
)
    requires
        instruction.opcode is AssertEq,
        instruction_ran(s, before, instruction, Ok(()), next, after),
        in_memory(
            next.cells,
            fetched(s, instruction)->Ok_0,
            OperandsView {
                dst: Value::Int(dst),
                res: None,
                op0: Value::Int(op0),
                op1: Value::Int(op1),
            },
        ),
        0 <= dst < s.prime,
        0 <= op0 < s.prime,
        0 <= op1 < s.prime,
    ensures
        equation_holds(instruction, dst, op0, op1, s.prime),
{
    let (operands, cells) = lemma_operands(
        s,
        before,
        instruction,
        Ok(()),
        next,
        after,
    );
    law_operands_are_in_memory(s, before, instruction, operands->Ok_0, cells, after);
    let (answer0, between, answer1) = lemma_answers(
        s,
        before,
        instruction,
        operands,
        cells,
        after,
    );
    let found = fetched(s, instruction)->Ok_0;
    let settled = settled(s, instruction, found, answer0, answer1)->Ok_0;
    assert(settled.op0 == Some(Value::Int(op0)));
    assert(settled.op1 == Some(Value::Int(op1)));
    assert(settled.dst == Value::Int(dst));
    let (_, res0) = settled_op0(s, instruction, found, answer0)->Ok_0;
    let (_, res1) = settled_op1(s, instruction, found, settled.op0, res0, answer1)->Ok_0;
    if res0 is Some {
        law_deduced_op0_gives_dst(
            s,
            instruction,
            Value::Int(dst),
            Value::Int(op1),
            Value::Int(op0),
            res0,
        );
    } else if res1 is Some {
        law_deduced_op1_gives_dst(
            s,
            instruction,
            Value::Int(dst),
            Value::Int(op0),
            Value::Int(op1),
            res1,
        );
    }
    assert(computed_res(s, instruction, Value::Int(op0), Value::Int(op1)) == Ok::<
        Option<Value>,
        Fault,
    >(Some(Value::Int(dst))));
    assert(0 <= op0 * op1) by (nonlinear_arith)
        requires
            0 <= op0,
            0 <= op1,
    ;
}

/// A call: the frame pointer goes to `[ap]`, the return address to `[ap + 1]`, and the new frame
/// begins after them.
pub open spec fn is_call(instruction: InstructionView) -> bool {
    &&& instruction.opcode is Call
    &&& instruction.dst_register is AP
    &&& instruction.off0 == 0
    &&& instruction.op0_register is AP
    &&& instruction.off1 == 1
    &&& instruction.ap_update is Add2
    &&& instruction.fp_update is APPlus2
}

/// A return: the frame pointer comes from `[fp - 2]` and the program counter from `[fp - 1]`.
pub open spec fn is_return(instruction: InstructionView) -> bool {
    &&& instruction.opcode is Ret
    &&& instruction.dst_register is FP
    &&& instruction.off0 == -2
    &&& instruction.op0_register is FP
    &&& instruction.off1 == -1
    &&& instruction.op1_addr is FP
    &&& instruction.off2 == -1
    &&& instruction.res is Op1
    &&& instruction.pc_update is Jump
    &&& instruction.ap_update is Regular
    &&& instruction.fp_update is Dst
}

/// Where the two cells of the new frame are free, or hold what they should, and belong to no
/// builtin.
pub open spec fn frame_is_free(
    s: MachineState,
    runners: Runners,
    instruction: InstructionView,
) -> bool {
    s.registers.ap matches Value::RelocatableValue(ap) ==> {
        &&& forall|i: int| 0 <= i < runners.len() ==> !owns(#[trigger] runners[i], ap.segment_index)
        &&& cell(s.cells, ap) is Some ==> cell(s.cells, ap) == Some(s.registers.fp)
        &&& {
            let second = Relocatable { offset: (ap.offset + 1) as usize, ..ap };
            cell(s.cells, second) is Some ==> cell(s.cells, second) == Some(
                s.registers.pc.advanced(instruction.size(), None),
            )
        }
    }
}

/// A call that succeeds leaves the frame pointer and the return address in the two cells below the
/// new frame.
pub proof fn law_call_saves_the_frame(
    s: MachineState,
    before: Runners,
    call: InstructionView,
    next: MachineState,
    after: Runners,
)
    requires
        is_call(call),
        frame_is_free(s, before, call),
        s.registers.prime > usize::MAX,
        instruction_ran(s, before, call, Ok(()), next, after),
    ensures
        next.registers.fp == s.registers.ap.advanced(2, None),
        next.registers.ap == s.registers.ap.advanced(2, None),
        s.registers.ap is RelocatableValue,
        ({
            let ap = s.registers.ap->RelocatableValue_0;
            &&& ap.offset + 2 <= usize::MAX
            &&& cell(next.cells, ap) == Some(s.registers.fp)
            &&& cell(next.cells, Relocatable { offset: (ap.offset + 1) as usize, ..ap }) == Some(
                s.registers.pc.advanced(call.size(), None),
            )
        }),
{
    let (operands, cells) = lemma_operands(
        s,
        before,
        call,
        Ok(()),
        next,
        after,
    );
    law_operands_are_in_memory(s, before, call, operands->Ok_0, cells, after);
    let found = fetched(s, call)->Ok_0;
    let ap = s.registers.ap->RelocatableValue_0;
    vstd::arithmetic::div_mod::lemma_small_mod(ap.offset as nat, s.registers.prime as nat);
    vstd::arithmetic::div_mod::lemma_small_mod(
        (ap.offset + 1) as nat,
        s.registers.prime as nat,
    );
    assert(found.addresses.dst == Value::RelocatableValue(ap));
    assert(found.addresses.op0 == Value::RelocatableValue(
        Relocatable { offset: (ap.offset + 1) as usize, ..ap },
    ));
    let (answer0, between, answer1) = lemma_answers(
        s,
        before,
        call,
        operands,
        cells,
        after,
    );
    if found.op0 is None {
        assert(asks_for_op0(s, call));
        assert(answer0 == Ok::<Option<Value>, Fault>(None));
    }
}

/// A return that succeeds gives back the frame pointer and the return address of the call that made
/// the frame, whatever ran in between, as long as memory kept what the call left there.
pub proof fn law_return_undoes_call(
    s: MachineState,
    before: Runners,
    call: InstructionView,
    called: MachineState,
    after_call: Runners,
    t: MachineState,
    before_return: Runners,
    ret: InstructionView,
    returned: MachineState,
    after_return: Runners,
)
    requires
        is_call(call),
        frame_is_free(s, before, call),
        s.registers.prime > usize::MAX,
        instruction_ran(s, before, call, Ok(()), called, after_call),
        remembered(called.cells, t.cells),
        t.registers.fp == called.registers.fp,
        t.registers.prime == called.registers.prime,
        is_return(ret),
        instruction_ran(t, before_return, ret, Ok(()), returned, after_return),
    ensures
        returned.registers.fp == s.registers.fp,
        returned.registers.pc == s.registers.pc.advanced(call.size(), None),
        returned.registers.ap == t.registers.ap,
{
    law_call_saves_the_frame(s, before, call, called, after_call);
    law_instruction_keeps_memory(s, before, call, Ok(()), called, after_call);
    let ap = s.registers.ap->RelocatableValue_0;
    let second = Relocatable { offset: (ap.offset + 1) as usize, ..ap };
    assert(cell(called.cells, ap) is Some);
    assert(cell(called.cells, second) is Some);
    vstd::arithmetic::div_mod::lemma_small_mod(ap.offset as nat, t.registers.prime as nat);
    vstd::arithmetic::div_mod::lemma_small_mod(
        (ap.offset + 1) as nat,
        t.registers.prime as nat,
    );
    let found = fetched(t, ret)->Ok_0;
    let (operands, cells) = lemma_operands(
        t,
        before_return,
        ret,
        Ok(()),
        returned,
        after_return,
    );
    law_operands_are_in_memory(t, before_return, ret, operands->Ok_0, cells, after_return);
    assert(found.addresses.dst == Value::RelocatableValue(ap));
    assert(found.addresses.op1 == Value::RelocatableValue(second));
    assert(found.addresses.op0 == Value::RelocatableValue(second));
}

/// Where an instruction has no hints, a step runs the instruction and touches no scope.
pub proof fn law_step_without_hints_runs_the_instruction<P: HintProcessor>(
    processor: P,
    dictionary: Map<usize, Vec<P::HintData>>,
    s: MachineState,
    before: Runners,
    scopes_before: P::ExecutionScopes,
    result: Result<(), Fault>,
    next: MachineState,
    after: Runners,
    scopes_after: P::ExecutionScopes,
)
    requires
        s.registers.pc is RelocatableValue,
        hints_at(dictionary, s.registers.pc->RelocatableValue_0.offset).len() == 0,
    ensures
        stepped(
            processor,
            dictionary,
            s,
            before,
            scopes_before,
            result,
            next,
            after,
            scopes_after,
        ) <==> {
            &&& current_instruction_ran(
                MachineState { skip_instruction_execution: false, ..s },
                before,
                result,
                next,
                after,
            )
            &&& scopes_after == scopes_before
        },
{
    let seen = shown(s, before);
    assert(changed(s, seen) == s);
}

/// No hint changes a cell that holds a value.
pub open spec fn hints_remember<P: HintProcessor>(processor: P) -> bool {
    forall|
        data: P::HintData,
        before: ProxyState,
        scopes_before: P::ExecutionScopes,
        result: Result<(), Fault>,
        after: ProxyState,
        scopes_after: P::ExecutionScopes,
    | #[trigger]
        processor.effect(data, before, scopes_before, result, after, scopes_after) ==> remembered(
            before.cells,
            after.cells,
        )
}

/// Hints of `hints`, from the first on, each with success, led through these states and scopes, in
/// this order.
pub open spec fn hint_history<P: HintProcessor>(
    processor: P,
    hints: Seq<P::HintData>,
    states: Seq<ProxyState>,
    scopes: Seq<P::ExecutionScopes>,
) -> bool {
    &&& 0 < states.len() == scopes.len() <= hints.len() + 1
    &&& forall|j: int|
        0 <= j < states.len() - 1 ==> processor.effect(
            #[trigger] hints[j],
            states[j],
            scopes[j],
            Ok(()),
            states[j + 1],
            scopes[j + 1],
        )
}

/// The states and scopes through which hints led.
proof fn lemma_hint_history<P: HintProcessor>(
    processor: P,
    hints: Seq<P::HintData>,
    before: ProxyState,
    scopes_before: P::ExecutionScopes,
    after: ProxyState,
    scopes_after: P::ExecutionScopes,
) -> (r: (Seq<ProxyState>, Seq<P::ExecutionScopes>))
    requires
        hints_ran(processor, hints, before, scopes_before, after, scopes_after),
    ensures
        hint_history(processor, hints, r.0, r.1),
        r.0.len() == hints.len() + 1,
        r.0[0] == before,
        r.1[0] == scopes_before,
        r.0.last() == after,
        r.1.last() == scopes_after,
    decreases hints.len(),
{
    if hints.len() == 0 {
        (seq![before], seq![scopes_before])
    } else {
        let (between, scopes_between) = choose|
            between: ProxyState,
            scopes_between: P::ExecutionScopes,
        |
            {
                &&& hints_ran(
                    processor,
                    hints.drop_last(),
                    before,
                    scopes_before,
                    between,
                    scopes_between,
                )
                &&& #[trigger] processor.effect(
                    hints.last(),
                    between,
                    scopes_between,
                    Ok(()),
                    after,
                    scopes_after,
                )
            };
        let (states, scopes) = lemma_hint_history(
            processor,
            hints.drop_last(),
            before,
            scopes_before,
            between,
            scopes_between,
        );
        let r = (states.push(after), scopes.push(scopes_after));
        assert forall|j: int| 0 <= j < r.0.len() - 1 implies processor.effect(
            #[trigger] hints[j],
            r.0[j],
            r.1[j],
            Ok(()),
            r.0[j + 1],
            r.1[j + 1],
        ) by {
            if j < hints.len() - 1 {
                assert(hints.drop_last()[j] == hints[j]);
            }
        }
        r
    }
}

/// The hints of an instruction run first, each once, in the order of their list. Either one of them
/// fails: then what it says is the outcome, no later hint runs, and the step runs, records and
/// counts no instruction. Or all of them succeed: then the instruction to which they have led runs.
pub proof fn law_step_runs_hints_in_order<P: HintProcessor>(
    processor: P,
    dictionary: Map<usize, Vec<P::HintData>>,
    s: MachineState,
    before: Runners,
    scopes_before: P::ExecutionScopes,
    result: Result<(), Fault>,
    next: MachineState,
    after: Runners,
    scopes_after: P::ExecutionScopes,
) -> (r: (Seq<ProxyState>, Seq<P::ExecutionScopes>, ProxyState))
    requires
        s.registers.pc is RelocatableValue,
        stepped(
            processor,
            dictionary,
            s,
            before,
            scopes_before,
            result,
            next,
            after,
            scopes_after,
        ),
    ensures
        ({
            let hints = hints_at(dictionary, s.registers.pc->RelocatableValue_0.offset);
            let (states, scopes, seen) = r;
            let done = states.len() - 1;
            &&& hint_history(processor, hints, states, scopes)
            &&& states[0] == shown(s, before)
            &&& scopes[0] == scopes_before
            &&& if done < hints.len() {
                &&& result is Err
                &&& processor.effect(
                    hints[done],
                    states[done],
                    scopes[done],
                    result,
                    seen,
                    scopes_after,
                )
                &&& next == changed(s, seen)
                &&& next.current_step == s.current_step
                &&& next.trace == s.trace
                &&& next.accessed_addresses == s.accessed_addresses
                &&& after == before
            } else {
                &&& scopes_after == scopes[done]
                &&& current_instruction_ran(
                    MachineState {
                        skip_instruction_execution: false,
                        ..changed(s, states[done])
                    },
                    before,
                    result,
                    next,
                    after,
                )
            }
        }),
{
    let hints = hints_at(dictionary, s.registers.pc->RelocatableValue_0.offset);
    let failed = |seen: ProxyState|
        {
            &&& result is Err
            &&& hint_failed(
                processor,
                hints,
                shown(s, before),
                scopes_before,
                result->Err_0,
                seen,
                scopes_after,
            )
            &&& next == changed(s, seen)
            &&& after == before
        };
    let ran = |seen: ProxyState|
        {
            &&& hints_ran(processor, hints, shown(s, before), scopes_before, seen, scopes_after)
            &&& current_instruction_ran(
                MachineState { skip_instruction_execution: false, ..changed(s, seen) },
                before,
                result,
                next,
                after,
            )
        };
    let seen = choose|seen: ProxyState|
        #![trigger changed(s, seen)]
        failed(seen) || ran(seen);
    assert(failed(seen) || ran(seen));
    if ran(seen) {
        let (states, scopes) = lemma_hint_history(
            processor,
            hints,
            shown(s, before),
            scopes_before,
            seen,
            scopes_after,
        );
        (states, scopes, seen)
    } else {
        let (i, between, scopes_between) = choose|
            i: int,
            between: ProxyState,
            scopes_between: P::ExecutionScopes,
        |
            {
                &&& 0 <= i < hints.len()
                &&& #[trigger] hints_ran(
                    processor,
                    hints.take(i),
                    shown(s, before),
                    scopes_before,
                    between,
                    scopes_between,
                )
                &&& processor.effect(
                    hints[i],
                    between,
                    scopes_between,
                    Err(result->Err_0),
                    seen,
                    scopes_after,
                )
            };
        let (states, scopes) = lemma_hint_history(
            processor,
            hints.take(i),
            shown(s, before),
            scopes_before,
            between,
            scopes_between,
        );
        assert forall|j: int| 0 <= j < states.len() - 1 implies processor.effect(
            #[trigger] hints[j],
            states[j],
            scopes[j],
            Ok(()),
            states[j + 1],
            scopes[j + 1],
        ) by {
            assert(hints.take(i)[j] == hints[j]);
        }
        (states, scopes, seen)
    }
}

/// Hints that change no cell that holds a value do not do so together either.
proof fn lemma_history_remembers<P: HintProcessor>(
    processor: P,
    hints: Seq<P::HintData>,
    states: Seq<ProxyState>,
    scopes: Seq<P::ExecutionScopes>,
    count: int,
)
    requires
        hints_remember(processor),
        hint_history(processor, hints, states, scopes),
        0 <= count < states.len(),
    ensures
        remembered(states[0].cells, states[count].cells),
    decreases count,
{
    if count > 0 {
        lemma_history_remembers(processor, hints, states, scopes, count - 1);
        assert(processor.effect(
            hints[count - 1],
            states[count - 1],
            scopes[count - 1],
            Ok(()),
            states[count],
            scopes[count],
        ));
        lemma_remembered_twice(states[0].cells, states[count - 1].cells, states[count].cells);
    }
}

proof fn lemma_remembered_twice(first: Cells, second: Cells, third: Cells)
    requires
        remembered(first, second),
        remembered(second, third),
    ensures
        remembered(first, third),
{
    assert forall|at: Relocatable| #[trigger] cell(first, at) is Some implies cell(third, at)
        == cell(first, at) by {
        assert(cell(second, at) is Some);
    }
}

/// A step, whether it succeeds or not, changes no cell that holds a value, as long as its hints do
/// not.
pub proof fn law_step_remembers_memory<P: HintProcessor>(
    processor: P,
    dictionary: Map<usize, Vec<P::HintData>>,
    s: MachineState,
    before: Runners,
    scopes_before: P::ExecutionScopes,
    result: Result<(), Fault>,
    next: MachineState,
    after: Runners,
    scopes_after: P::ExecutionScopes,
)
    requires
        hints_remember(processor),
        stepped(
            processor,
            dictionary,
            s,
            before,
            scopes_before,
            result,
            next,
            after,
            scopes_after,
        ),
    ensures
        remembered(s.cells, next.cells),
{
    if s.registers.pc is RelocatableValue {
        let (states, scopes, seen) = law_step_runs_hints_in_order(
            processor,
            dictionary,
            s,
            before,
            scopes_before,
            result,
            next,
            after,
            scopes_after,
        );
        let done = states.len() - 1;
        let hints = hints_at(dictionary, s.registers.pc->RelocatableValue_0.offset);
        lemma_history_remembers(processor, hints, states, scopes, done);
        if done == hints.len() {
            let mid = MachineState {
                skip_instruction_execution: false,
                ..changed(s, states[done])
            };
            if let Ok(instruction) = current_instruction(mid) {
                law_instruction_keeps_memory(mid, before, instruction, result, next, after);
            }
        }
        lemma_remembered_twice(s.cells, states[done].cells, next.cells);
    }
}

/// What every decoded instruction is like: offsets of 16 bits, an immediate value exactly where the
/// second operand is one, a result unless it is a conditional jump, and a frame update that follows
/// from the opcode.
pub proof fn law_decoded_instructions(word: i64, imm: Option<int>, instruction: InstructionView)
    requires
        decoded(word, imm) == Ok::<InstructionView, Fault>(instruction),
    ensures
        -0x8000 <= instruction.off0 < 0x8000,
        -0x8000 <= instruction.off1 < 0x8000,
        -0x8000 <= instruction.off2 < 0x8000,
        instruction.op1_addr is Imm ==> instruction.imm == imm && instruction.size() == 2,
        !(instruction.op1_addr is Imm) ==> instruction.imm is None && instruction.size() == 1,
        instruction.res is Unconstrained ==> instruction.pc_update is Jnz,
        instruction.fp_update is APPlus2 <==> instruction.opcode is Call,
        instruction.fp_update is Dst <==> instruction.opcode is Ret,
        instruction.ap_update is Add2 ==> instruction.opcode is Call,
{
}

/// A check that passed was made with builtins that the checks before it had led to.
proof fn lemma_each_visit_passed(
    visits: Seq<Visit>,
    before: Runners,
    cells: Cells,
    after: Runners,
    p: int,
) -> (r: (Runners, Runners))
    requires
        visits_passed(visits, before, cells, after),
        0 <= p < visits.len(),
    ensures
        visits_passed(visits.take(p), before, cells, r.0),
        visited(visits[p], r.0, cells, Ok(()), r.1),
    decreases visits.len(),
{
    let between = choose|between: Runners|
        {
            &&& visits_passed(visits.drop_last(), before, cells, between)
            &&& #[trigger] visited(visits.last(), between, cells, Ok(()), after)
        };
    if p == visits.len() - 1 {
        assert(visits.take(p) =~= visits.drop_last());
        (between, after)
    } else {
        let r = lemma_each_visit_passed(visits.drop_last(), before, cells, between, p);
        assert(visits.drop_last().take(p) =~= visits.take(p));
        r
    }
}

/// Each cell of a segment is checked against each builtin.
proof fn lemma_segment_visits_reach(
    n: nat,
    segment_index: int,
    len: nat,
    offset: int,
    runner: int,
) -> (p: int)
    requires
        0 <= offset < len,
        0 <= runner < n,
    ensures
        0 <= p < segment_visits(n, segment_index, len).len(),
        segment_visits(n, segment_index, len)[p] == (Visit { segment_index, offset, runner }),
    decreases len,
{
    let earlier = segment_visits(n, segment_index, (len - 1) as nat);
    if offset == len - 1 {
        earlier.len() + runner
    } else {
        lemma_segment_visits_reach(n, segment_index, (len - 1) as nat, offset, runner)
    }
}

/// Each cell of memory is checked against each builtin.
pub proof fn lemma_memory_visits_reach(n: nat, cells: Cells, count: nat, visit: Visit) -> (p: int)
    requires
        0 <= visit.segment_index < count <= cells.len(),
        0 <= visit.offset < cells[visit.segment_index].len(),
        0 <= visit.runner < n,
    ensures
        0 <= p < memory_visits(n, cells, count).len(),
        memory_visits(n, cells, count)[p] == visit,
    decreases count,
{
    let earlier = memory_visits(n, cells, (count - 1) as nat);
    if visit.segment_index == count - 1 {
        earlier.len() + lemma_segment_visits_reach(
            n,
            count - 1,
            cells[count - 1].len(),
            visit.offset,
            visit.runner,
        )
    } else {
        lemma_memory_visits_reach(n, cells, (count - 1) as nat, visit)
    }
}

/// Memory that was verified is consistent: whatever cell holds a value, and whatever builtin owns
/// its segment, when the builtin was asked, it deduced that value or none.
pub proof fn law_verified_memory_is_consistent(
    before: Runners,
    cells: Cells,
    after: Runners,
    visit: Visit,
) -> (r: (int, Runners))
    requires
        deductions_verified(before, cells, Ok(()), after),
        0 <= visit.segment_index < cells.len(),
        0 <= visit.offset < cells[visit.segment_index].len(),
        0 <= visit.runner < before.len(),
    ensures
        ({
            let visits = memory_visits(before.len(), cells, cells.len());
            let (p, asked_then) = r;
            let runner = asked_then[visit.runner];
            let held = cells[visit.segment_index][visit.offset];
            &&& 0 <= p < visits.len()
            &&& visits[p] == visit
            &&& visits_passed(visits.take(p), before, cells, asked_then)
            &&& runner.1.segment_base() is Some
            &&& owns(runner, visit.segment_index as usize) ==> {
                let deduction = runner.1.deduction(visit.address(), cells);
                &&& deduction is Ok
                &&& held is Some && deduction->Ok_0 is Some ==> deduction->Ok_0 == held
            }
        }),
{
    let n = before.len();
    let visits = memory_visits(n, cells, cells.len());
    let p = lemma_memory_visits_reach(n, cells, cells.len(), visit);
    let (asked_then, _) = lemma_each_visit_passed(visits, before, cells, after, p);
    (p, asked_then)
}

/// An inconsistency that is reported is there: some cell holds the value that is reported, and the
/// builtin of the reported name, which owns the segment, deduced another one.
pub proof fn law_reported_inconsistency_is_there(
    before: Runners,
    cells: Cells,
    after: Runners,
    name: Seq<char>,
    deduced: Value,
    held: Option<Value>,
) -> (r: (int, Runners))
    requires
        deductions_verified(
            before,
            cells,
            Err(Fault::InconsistentAutoDeduction(name, deduced, held)),
            after,
        ),
    ensures
        ({
            let visits = memory_visits(before.len(), cells, cells.len());
            let (p, asked_then) = r;
            let visit = visits[p];
            let runner = asked_then[visit.runner];
            &&& 0 <= p < visits.len()
            &&& visits_passed(visits.take(p), before, cells, asked_then)
            &&& runner.0@ == name
            &&& owns(runner, visit.segment_index as usize)
            &&& runner.1.deduction(visit.address(), cells) == Ok::<
                Option<Value>,
                RunnerFault,
            >(Some(deduced))
            &&& held == cells[visit.segment_index][visit.offset]
            &&& held is Some
            &&& held != Some(deduced)
        }),
{
    let visits = memory_visits(before.len(), cells, cells.len());
    let fault = Fault::InconsistentAutoDeduction(name, deduced, held);
    choose|p: int, between: Runners|
        {
            &&& 0 <= p < visits.len()
            &&& visits_passed(visits.take(p), before, cells, between)
            &&& #[trigger] visited(visits[p], between, cells, Err(fault), after)
        }
}

/// Without builtins there is nothing to be inconsistent with.
pub proof fn law_without_builtins_memory_is_consistent(
    cells: Cells,
    result: Result<(), Fault>,
    after: Runners,
)
    requires
        deductions_verified(Seq::empty(), cells, result, after),
    ensures
        result is Ok,
{
    lemma_no_visits(cells, cells.len());
}

proof fn lemma_no_visits(cells: Cells, count: nat)
    ensures
        memory_visits(0, cells, count).len() == 0,
    decreases count,
{
    if count > 0 {
        lemma_no_visits(cells, (count - 1) as nat);
        lemma_no_segment_visits(count - 1, cells[count - 1].len());
    }
}

proof fn lemma_no_segment_visits(segment_index: int, len: nat)
    ensures
        segment_visits(0, segment_index, len).len() == 0,
    decreases len,
{
    if len > 0 {
        lemma_no_segment_visits(segment_index, (len - 1) as nat);
    }
}

} // verus!
