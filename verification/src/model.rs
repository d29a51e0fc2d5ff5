//! The machine, mathematically: what each part of a step makes of the state.

use crate::bigint::{trunc_div, trunc_rem};
use crate::builtin_runner::{asked, lemma_some_answer, Runners};
use crate::decoder::decoded;
use crate::errors::Fault;
use crate::instruction::{
    ApUpdate, FpUpdate, InstructionView, Opcode, PcUpdate, Res,
};
use crate::memory::{read, write_outcome, written, Cells};
use crate::modular::{invertible, mod_quotient, reduced};
use crate::relocatable::{Relocatable, Value};
use crate::run_context::{Registers, TraceEntry};
use vstd::prelude::*;

verus! {

/// Everything in a machine but its builtins.
pub struct MachineState {
    pub registers: Registers,
    pub prime: int,
    pub cells: Cells,
    pub num_segments: usize,
    pub segment_sizes: Map<usize, usize>,
    pub program_base: Option<Value>,
    pub accessed_addresses: Option<Seq<Value>>,
    pub trace: Option<Seq<TraceEntry>>,
    pub current_step: usize,
    pub skip_instruction_execution: bool,
}

/// The values that an instruction works on.
pub struct OperandsView {
    pub dst: Value,
    pub res: Option<Value>,
    pub op0: Value,
    pub op1: Value,
}

/// The addresses of the destination and the two operands.
pub struct AddressesView {
    pub dst: Value,
    pub op0: Value,
    pub op1: Value,
}

/// Where a machine starts.
pub open spec fn initial_state(prime: int, trace_enabled: bool) -> MachineState {
    let start = Value::RelocatableValue(Relocatable { segment_index: 0, offset: 0 });
    MachineState {
        registers: Registers { pc: start, ap: start, fp: start, prime },
        prime,
        cells: Seq::empty(),
        num_segments: 0,
        segment_sizes: Map::empty(),
        program_base: None,
        accessed_addresses: None,
        trace: if trace_enabled {
            Some(Seq::empty())
        } else {
            None
        },
        current_step: 0,
        skip_instruction_execution: false,
    }
}

/// The integer at `pc`, and what the cell after it holds.
pub open spec fn instruction_encoding(s: MachineState) -> Result<(int, Option<Value>), Fault> {
    match read(s.cells, s.registers.pc) {
        Ok(Some(Value::Int(encoding))) => match read(
            s.cells,
            s.registers.pc.advanced(1, None),
        ) {
            Ok(imm) => Ok((encoding, imm)),
            Err(_) => Err(Fault::InvalidInstructionEncoding),
        },
        _ => Err(Fault::InvalidInstructionEncoding),
    }
}

/// The instruction at `pc`.
pub open spec fn current_instruction(s: MachineState) -> Result<InstructionView, Fault> {
    match instruction_encoding(s) {
        Err(fault) => Err(fault),
        Ok((encoding, imm)) => if i64::MIN <= encoding <= i64::MAX {
            decoded(
                encoding as i64,
                match imm {
                    Some(Value::Int(n)) => Some(n),
                    _ => None,
                },
            )
        } else {
            Err(Fault::InvalidInstructionEncoding)
        },
    }
}

/// The frame pointer after the instruction.
pub open spec fn next_fp(
    s: MachineState,
    instruction: InstructionView,
    operands: OperandsView,
) -> Value {
    match instruction.fp_update {
        FpUpdate::APPlus2 => s.registers.ap.advanced(2, None),
        FpUpdate::Dst => operands.dst,
        FpUpdate::Regular => s.registers.fp,
    }
}

/// The allocation pointer after the instruction.
pub open spec fn next_ap(
    s: MachineState,
    instruction: InstructionView,
    operands: OperandsView,
) -> Result<Value, Fault> {
    match instruction.ap_update {
        ApUpdate::Add => match operands.res {
            Some(res) => s.registers.ap.plus(res, s.prime),
            None => Err(Fault::UnconstrainedResAdd),
        },
        ApUpdate::Add1 => Ok(s.registers.ap.advanced(1, None)),
        ApUpdate::Add2 => Ok(s.registers.ap.advanced(2, None)),
        ApUpdate::Regular => Ok(s.registers.ap),
    }
}

/// Whether a value is zero, which an address cannot be.
pub open spec fn zero_test(value: Value) -> Result<bool, Fault> {
    match value {
        Value::Int(n) => Ok(n == 0),
        Value::RelocatableValue(_) => Err(Fault::PureValue),
    }
}

/// The program counter after the instruction.
pub open spec fn next_pc(
    s: MachineState,
    instruction: InstructionView,
    operands: OperandsView,
) -> Result<Value, Fault> {
    match instruction.pc_update {
        PcUpdate::Regular => Ok(s.registers.pc.advanced(instruction.size(), Some(s.prime))),
        PcUpdate::Jump => match operands.res {
            Some(res) => Ok(res),
            None => Err(Fault::UnconstrainedResJump),
        },
        PcUpdate::JumpRel => match operands.res {
            Some(Value::Int(n)) => s.registers.pc.plus_int(n, s.prime),
            Some(Value::RelocatableValue(_)) => Err(Fault::PureValue),
            None => Err(Fault::UnconstrainedResJumpRel),
        },
        PcUpdate::Jnz => match zero_test(operands.dst) {
            Err(fault) => Err(fault),
            Ok(true) => Ok(s.registers.pc.advanced(instruction.size(), None)),
            Ok(false) => s.registers.pc.plus(operands.op1, s.prime),
        },
    }
}

/// Updating `ap` takes a remainder modulo the prime.
pub open spec fn ap_is_reduced(
    s: MachineState,
    instruction: InstructionView,
    operands: OperandsView,
) -> bool {
    &&& instruction.ap_update is Add
    &&& operands.res matches Some(res)
    &&& s.registers.ap.sum_is_reduced(res)
}

/// Updating `pc` takes a remainder modulo the prime.
pub open spec fn pc_is_reduced(
    s: MachineState,
    instruction: InstructionView,
    operands: OperandsView,
) -> bool {
    match instruction.pc_update {
        PcUpdate::Regular => s.registers.pc is Int,
        PcUpdate::Jump => false,
        PcUpdate::JumpRel => operands.res matches Some(Value::Int(_)),
        PcUpdate::Jnz => zero_test(operands.dst) == Ok::<bool, Fault>(false)
            && s.registers.pc.sum_is_reduced(operands.op1),
    }
}

/// Updating `pc` counts it up by the size of the instruction.
pub open spec fn pc_is_counted_up(instruction: InstructionView, operands: OperandsView) -> bool {
    match instruction.pc_update {
        PcUpdate::Regular => true,
        PcUpdate::Jnz => operands.dst == Value::Int(0),
        _ => false,
    }
}

/// Updating the registers takes a remainder modulo the prime. A failure to update `ap` leaves `pc`
/// alone.
pub open spec fn registers_are_reduced(
    s: MachineState,
    instruction: InstructionView,
    operands: OperandsView,
) -> bool {
    ||| ap_is_reduced(s, instruction, operands)
    ||| next_ap(s, instruction, operands) is Ok && pc_is_reduced(s, instruction, operands)
}

/// How far beyond `ap` the register updates count up.
pub open spec fn reach(instruction: InstructionView) -> int {
    if instruction.fp_update is APPlus2 || instruction.ap_update is Add2 {
        2
    } else if instruction.ap_update is Add1 {
        1
    } else {
        0
    }
}

/// What is said of updating the registers.
pub open spec fn registers_outcome(
    s: MachineState,
    instruction: InstructionView,
    operands: OperandsView,
) -> Result<(), Fault> {
    match next_ap(s, instruction, operands) {
        Err(fault) => Err(fault),
        Ok(_) => match next_pc(s, instruction, operands) {
            Err(fault) => Err(fault),
            Ok(_) => Ok(()),
        },
    }
}

/// The registers after the instruction. `fp` is updated first, then `ap`, then `pc`; what comes
/// after a failure stays as it was.
pub open spec fn next_registers(
    s: MachineState,
    instruction: InstructionView,
    operands: OperandsView,
) -> Registers {
    let fp = next_fp(s, instruction, operands);
    match next_ap(s, instruction, operands) {
        Err(_) => Registers { fp, ..s.registers },
        Ok(ap) => match next_pc(s, instruction, operands) {
            Err(_) => Registers { fp, ap, ..s.registers },
            Ok(pc) => Registers { fp, ap, pc, ..s.registers },
        },
    }
}

/// `factor` times `known` is `dst` modulo `prime`.
pub open spec fn solves(factor: int, dst: int, known: int, prime: int) -> bool {
    (factor * known - dst) % prime == 0
}

/// The integer quotient of `dst` and `known`, rounded toward zero, with what `prime` leaves of it.
pub open spec fn rounded_factor(dst: int, known: int, prime: int) -> int {
    trunc_rem(trunc_div(dst, known), prime)
}

/// An unknown factor whose product with `known` is `dst` modulo `prime`, and the result with it: the
/// integer quotient where that solves the equation, or else the quotient modulo `prime`. Nothing
/// can be told if `known` is zero, or if the integer quotient is no solution and `known` has no
/// inverse.
pub open spec fn deduced_factor(dst: int, known: int, prime: int) -> (
    Option<Value>,
    Option<Value>,
) {
    let rounded = rounded_factor(dst, known, prime);
    if known == 0 {
        (None, None)
    } else if solves(rounded, dst, known, prime) {
        (Some(Value::Int(rounded)), Some(Value::Int(dst)))
    } else {
        match mod_quotient(dst, known, prime) {
            Some(factor) => (Some(Value::Int(factor)), Some(Value::Int(dst))),
            None => (None, None),
        }
    }
}

/// A factor that was deduced solves its equation, and none is missed that can be told.
pub open spec fn factor_solves(
    deduced: (Option<Value>, Option<Value>),
    dst: int,
    known: int,
    prime: int,
) -> bool {
    let rounded = rounded_factor(dst, known, prime);
    if known != 0 && (solves(rounded, dst, known, prime) || invertible(known, prime)) {
        &&& deduced.0 matches Some(Value::Int(factor))
        &&& solves(factor, dst, known, prime)
        &&& if solves(rounded, dst, known, prime) {
            factor == rounded
        } else {
            reduced(factor, prime)
        }
        &&& deduced.1 == Some(Value::Int(dst))
    } else {
        deduced == (None::<Value>, None::<Value>)
    }
}

/// Deducing the first operand takes a remainder modulo the prime.
pub open spec fn deduced_op0_is_reduced(
    instruction: InstructionView,
    dst: Option<Value>,
    op1: Option<Value>,
) -> bool {
    instruction.opcode is AssertEq && match (instruction.res, dst, op1) {
        (Res::Add, Some(dst), Some(op1)) => dst.difference_is_reduced(op1),
        (Res::Mul, Some(Value::Int(_)), Some(Value::Int(op1))) => op1 != 0,
        _ => false,
    }
}

/// Deducing the second operand takes a remainder modulo the prime.
pub open spec fn deduced_op1_is_reduced(
    instruction: InstructionView,
    dst: Option<Value>,
    op0: Option<Value>,
) -> bool {
    instruction.opcode is AssertEq && match (instruction.res, dst, op0) {
        (Res::Add, Some(dst), Some(op0)) => dst.difference_is_reduced(op0),
        (Res::Mul, Some(Value::Int(_)), Some(Value::Int(op0))) => op0 != 0,
        _ => false,
    }
}

/// Computing the result takes a remainder modulo the prime.
pub open spec fn res_is_reduced(instruction: InstructionView, op0: Value, op1: Value) -> bool {
    match instruction.res {
        Res::Add => op0.sum_is_reduced(op1),
        Res::Mul => op0 is Int && op1 is Int,
        _ => false,
    }
}

/// What an unknown first operand must be for `dst` to come out, modulo the prime, and the result
/// where that is known with it.
pub open spec fn deduced_op0(
    s: MachineState,
    instruction: InstructionView,
    dst: Option<Value>,
    op1: Option<Value>,
) -> Result<(Option<Value>, Option<Value>), Fault> {
    match instruction.opcode {
        Opcode::Call => Ok((Some(s.registers.pc.advanced(instruction.size(), None)), None)),
        Opcode::AssertEq => match (instruction.res, dst, op1) {
            (Res::Add, Some(dst), Some(op1)) => match dst.minus(op1, s.prime) {
                Ok(op0) => Ok((Some(op0), Some(dst))),
                Err(fault) => Err(fault),
            },
            (Res::Mul, Some(Value::Int(dst)), Some(Value::Int(op1))) => Ok(
                deduced_factor(dst, op1, s.prime),
            ),
            _ => Ok((None, None)),
        },
        _ => Ok((None, None)),
    }
}

/// What an unknown second operand must be for `dst` to come out, modulo the prime, and the result
/// where that is known with it.
pub open spec fn deduced_op1(
    s: MachineState,
    instruction: InstructionView,
    dst: Option<Value>,
    op0: Option<Value>,
) -> Result<(Option<Value>, Option<Value>), Fault> {
    if instruction.opcode is AssertEq {
        match (instruction.res, dst, op0) {
            (Res::Op1, Some(dst), _) => Ok((Some(dst), Some(dst))),
            (Res::Add, Some(dst), Some(op0)) => match dst.minus(op0, s.prime) {
                Ok(op1) => Ok((Some(op1), Some(dst))),
                Err(fault) => Err(fault),
            },
            (Res::Mul, Some(Value::Int(dst)), Some(Value::Int(op0))) => Ok(
                deduced_factor(dst, op0, s.prime),
            ),
            _ => Ok((None, None)),
        }
    } else {
        Ok((None, None))
    }
}

/// The result that two operands give.
pub open spec fn computed_res(
    s: MachineState,
    instruction: InstructionView,
    op0: Value,
    op1: Value,
) -> Result<Option<Value>, Fault> {
    match instruction.res {
        Res::Op1 => Ok(Some(op1)),
        Res::Add => match op0.plus(op1, s.prime) {
            Ok(sum) => Ok(Some(sum)),
            Err(fault) => Err(fault),
        },
        Res::Mul => match (op0, op1) {
            (Value::Int(a), Value::Int(b)) => Ok(Some(Value::Int(trunc_rem(a * b, s.prime)))),
            _ => Err(Fault::PureValue),
        },
        Res::Unconstrained => Ok(None),
    }
}

/// What an unknown destination must be.
pub open spec fn deduced_dst(
    s: MachineState,
    instruction: InstructionView,
    res: Option<Value>,
) -> Option<Value> {
    match instruction.opcode {
        Opcode::AssertEq => res,
        Opcode::Call => Some(s.registers.fp),
        _ => None,
    }
}

/// What the opcode demands of the operands. Addresses are not compared.
pub open spec fn assertion_outcome(
    s: MachineState,
    instruction: InstructionView,
    operands: OperandsView,
) -> Result<(), Fault> {
    match instruction.opcode {
        Opcode::AssertEq => match (operands.res, operands.dst) {
            (None, _) => Err(Fault::UnconstrainedResAssertEq),
            (Some(Value::Int(res)), Value::Int(dst)) => if res == dst {
                Ok(())
            } else {
                Err(Fault::DiffAssertValues(res, dst))
            },
            _ => Ok(()),
        },
        Opcode::Call => match (operands.op0, s.registers.pc) {
            (Value::Int(op0), Value::Int(pc)) if op0 != pc + instruction.size() => Err(
                Fault::CantWriteReturnPc(op0, pc + instruction.size()),
            ),
            _ => match (operands.dst, s.registers.fp) {
                (Value::Int(dst), Value::Int(fp)) if dst != fp => Err(
                    Fault::CantWriteReturnFp(dst, fp),
                ),
                _ => Ok(()),
            },
        },
        _ => Ok(()),
    }
}

/// Where the operands are, and what memory holds there.
pub struct Fetched {
    pub addresses: AddressesView,
    pub dst: Option<Value>,
    pub op0: Option<Value>,
    pub op1: Option<Value>,
}

/// The operands as they are in memory.
pub open spec fn fetched(s: MachineState, instruction: InstructionView) -> Result<Fetched, Fault> {
    match s.registers.dst_addr(instruction) {
        Err(fault) => Err(fault),
        Ok(dst_addr) => match read(s.cells, dst_addr) {
            Err(_) => Err(Fault::InvalidInstructionEncoding),
            Ok(dst) => match s.registers.op0_addr(instruction) {
                Err(fault) => Err(fault),
                Ok(op0_addr) => match read(s.cells, op0_addr) {
                    Err(_) => Err(Fault::InvalidInstructionEncoding),
                    Ok(op0) => match s.registers.op1_addr(instruction, op0) {
                        Err(fault) => Err(fault),
                        Ok(op1_addr) => match read(s.cells, op1_addr) {
                            Err(_) => Err(Fault::InvalidInstructionEncoding),
                            Ok(op1) => Ok(
                                Fetched {
                                    addresses: AddressesView {
                                        dst: dst_addr,
                                        op0: op0_addr,
                                        op1: op1_addr,
                                    },
                                    dst,
                                    op0,
                                    op1,
                                },
                            ),
                        },
                    },
                },
            },
        },
    }
}

/// The first operand, and the result where it is known by then: from memory, or else from a
/// builtin (whose answer is `answer0`), or else by deduction.
pub open spec fn settled_op0(
    s: MachineState,
    instruction: InstructionView,
    fetched: Fetched,
    answer0: Result<Option<Value>, Fault>,
) -> Result<(Option<Value>, Option<Value>), Fault> {
    if fetched.op0 is Some {
        Ok((fetched.op0, None))
    } else {
        match answer0 {
            Err(fault) => Err(fault),
            Ok(Some(value)) => Ok((Some(value), None)),
            Ok(None) => deduced_op0(s, instruction, fetched.dst, fetched.op1),
        }
    }
}

/// The second operand, and the result where it is known by then, after the first was settled.
pub open spec fn settled_op1(
    s: MachineState,
    instruction: InstructionView,
    fetched: Fetched,
    op0: Option<Value>,
    res: Option<Value>,
    answer1: Result<Option<Value>, Fault>,
) -> Result<(Option<Value>, Option<Value>), Fault> {
    if fetched.op1 is Some {
        Ok((fetched.op1, res))
    } else {
        match answer1 {
            Err(fault) => Err(fault),
            Ok(Some(value)) => Ok((Some(value), res)),
            Ok(None) => match deduced_op1(s, instruction, fetched.dst, op0) {
                Err(fault) => Err(fault),
                Ok((op1, deduced_res)) => Ok(
                    (
                        op1,
                        if res is None {
                            deduced_res
                        } else {
                            res
                        },
                    ),
                ),
            },
        }
    }
}

/// The result, after both operands were settled.
pub open spec fn settled_res(
    s: MachineState,
    instruction: InstructionView,
    op0: Option<Value>,
    op1: Option<Value>,
    res: Option<Value>,
) -> Result<Option<Value>, Fault> {
    if res is Some {
        Ok(res)
    } else {
        match (op0, op1) {
            (Some(op0), Some(op1)) => computed_res(s, instruction, op0, op1),
            _ => Err(Fault::InvalidInstructionEncoding),
        }
    }
}

/// The destination, after the result was settled.
pub open spec fn settled_dst(
    s: MachineState,
    instruction: InstructionView,
    dst: Option<Value>,
    res: Option<Value>,
) -> Result<Value, Fault> {
    if dst is Some {
        Ok(dst->0)
    } else {
        match deduced_dst(s, instruction, res) {
            Some(value) => Ok(value),
            None => Err(Fault::NoDst),
        }
    }
}

/// What is said of storing an operand that memory did not hold.
pub open spec fn store_outcome(
    cells: Cells,
    missing: bool,
    address: Value,
    value: Option<Value>,
) -> Result<(), Fault> {
    if !missing {
        Ok(())
    } else {
        match value {
            Some(value) => match write_outcome(cells, address, value) {
                Ok(()) => Ok(()),
                Err(_) => Err(Fault::InvalidInstructionEncoding),
            },
            None => Err(Fault::InvalidInstructionEncoding),
        }
    }
}

/// The memory after an operand that it did not hold was stored.
pub open spec fn stored(
    cells: Cells,
    missing: bool,
    address: Value,
    value: Option<Value>,
) -> Cells {
    match value {
        Some(value) if missing => written(cells, address, value),
        _ => cells,
    }
}

/// The operands, all settled, but not stored yet.
pub struct Settled {
    pub dst: Value,
    pub op0: Option<Value>,
    pub op1: Option<Value>,
    pub res: Option<Value>,
}

/// The operands that follow from memory and from what the builtins answer.
pub open spec fn settled(
    s: MachineState,
    instruction: InstructionView,
    fetched: Fetched,
    answer0: Result<Option<Value>, Fault>,
    answer1: Result<Option<Value>, Fault>,
) -> Result<Settled, Fault> {
    match settled_op0(s, instruction, fetched, answer0) {
        Err(fault) => Err(fault),
        Ok((op0, res)) => match settled_op1(s, instruction, fetched, op0, res, answer1) {
            Err(fault) => Err(fault),
            Ok((op1, res)) => match settled_res(s, instruction, op0, op1, res) {
                Err(fault) => Err(fault),
                Ok(res) => match settled_dst(s, instruction, fetched.dst, res) {
                    Err(fault) => Err(fault),
                    Ok(dst) => Ok(Settled { dst, op0, op1, res }),
                },
            },
        },
    }
}

/// Stores what memory did not hold: the destination, then the first operand, then the second. What
/// comes after a failure is not stored.
pub open spec fn store_all(cells: Cells, fetched: Fetched, settled: Settled) -> (
    Result<OperandsView, Fault>,
    Cells,
) {
    let addresses = fetched.addresses;
    let dst = Some(settled.dst);
    let with_dst = stored(cells, fetched.dst is None, addresses.dst, dst);
    let with_op0 = stored(with_dst, fetched.op0 is None, addresses.op0, settled.op0);
    let with_op1 = stored(with_op0, fetched.op1 is None, addresses.op1, settled.op1);
    if store_outcome(cells, fetched.dst is None, addresses.dst, dst) is Err {
        (Err(Fault::InvalidInstructionEncoding), cells)
    } else if store_outcome(with_dst, fetched.op0 is None, addresses.op0, settled.op0) is Err {
        (Err(Fault::InvalidInstructionEncoding), with_dst)
    } else if store_outcome(with_op0, fetched.op1 is None, addresses.op1, settled.op1) is Err {
        (Err(Fault::InvalidInstructionEncoding), with_op0)
    } else {
        (
            Ok(
                OperandsView {
                    dst: settled.dst,
                    res: settled.res,
                    op0: settled.op0->0,
                    op1: settled.op1->0,
                },
            ),
            with_op1,
        )
    }
}

/// The operands and the memory that results, `answer0` and `answer1` being what the builtins say
/// of the first and of the second operand where they are asked.
pub open spec fn operands_outcome(
    s: MachineState,
    instruction: InstructionView,
    answer0: Result<Option<Value>, Fault>,
    answer1: Result<Option<Value>, Fault>,
) -> (Result<OperandsView, Fault>, Cells) {
    match fetched(s, instruction) {
        Err(fault) => (Err(fault), s.cells),
        Ok(found) => match settled(s, instruction, found, answer0, answer1) {
            Err(fault) => (Err(fault), s.cells),
            Ok(settled) => store_all(s.cells, found, settled),
        },
    }
}

/// The builtins are asked for the first operand.
pub open spec fn asks_for_op0(s: MachineState, instruction: InstructionView) -> bool {
    fetched(s, instruction) matches Ok(found) && found.op0 is None
}

/// The builtins are asked for the second operand, `answer0` being what they said of the first.
pub open spec fn asks_for_op1(
    s: MachineState,
    instruction: InstructionView,
    answer0: Result<Option<Value>, Fault>,
) -> bool {
    &&& fetched(s, instruction) matches Ok(found)
    &&& found.op1 is None
    &&& settled_op0(s, instruction, found, answer0) is Ok
}

/// The builtins `before` answer `answer0` for the first operand and are then `between`, answer
/// `answer1` for the second and are then `after`, as far as they are asked.
pub open spec fn consulted(
    s: MachineState,
    instruction: InstructionView,
    before: Runners,
    answer0: Result<Option<Value>, Fault>,
    between: Runners,
    answer1: Result<Option<Value>, Fault>,
    after: Runners,
) -> bool {
    &&& if asks_for_op0(s, instruction) {
        asked(before, fetched(s, instruction)->Ok_0.addresses.op0, s.cells, answer0, between)
    } else {
        between == before
    }
    &&& if asks_for_op1(s, instruction, answer0) {
        asked(between, fetched(s, instruction)->Ok_0.addresses.op1, s.cells, answer1, after)
    } else {
        after == between
    }
}

/// What the builtins answer for the first operand leaves them with some answer for the second.
pub proof fn lemma_consultation_goes_on(
    s: MachineState,
    instruction: InstructionView,
    before: Runners,
    answer0: Result<Option<Value>, Fault>,
    between: Runners,
) -> (answer1: Result<Option<Value>, Fault>)
    requires
        asks_for_op0(s, instruction),
        asked(
            before,
            fetched(s, instruction)->Ok_0.addresses.op0,
            s.cells,
            answer0,
            between,
        ),
    ensures
        consulted(s, instruction, before, answer0, between, answer1, between),
{
    lemma_some_answer(between, fetched(s, instruction)->Ok_0.addresses.op1, s.cells)
}

/// The first operand is deduced: neither memory nor a builtin tells it.
pub open spec fn deduces_op0(found: Fetched, answer0: Result<Option<Value>, Fault>) -> bool {
    found.op0 is None && answer0 == Ok::<Option<Value>, Fault>(None)
}

/// Settling the operands takes a remainder modulo the prime, `answer0` and `answer1` being what the
/// builtins say where they are asked.
pub open spec fn operands_are_reduced(
    s: MachineState,
    instruction: InstructionView,
    answer0: Result<Option<Value>, Fault>,
    answer1: Result<Option<Value>, Fault>,
) -> bool {
    &&& fetched(s, instruction) matches Ok(found)
    &&& {
        ||| deduces_op0(found, answer0) && deduced_op0_is_reduced(
            instruction,
            found.dst,
            found.op1,
        )
        ||| {
            &&& settled_op0(s, instruction, found, answer0) matches Ok((op0, res))
            &&& {
                ||| found.op1 is None && answer1 == Ok::<Option<Value>, Fault>(None)
                    && deduced_op1_is_reduced(instruction, found.dst, op0)
                ||| {
                    &&& settled_op1(s, instruction, found, op0, res, answer1) matches Ok(
                        (op1, res),
                    )
                    &&& res is None && op0 is Some && op1 is Some
                    &&& res_is_reduced(instruction, op0->0, op1->0)
                }
            }
        }
    }
}

/// Whatever the builtins `before` answer, computing the operands takes no remainder modulo the
/// prime.
pub open spec fn operands_are_never_reduced(
    s: MachineState,
    before: Runners,
    instruction: InstructionView,
) -> bool {
    forall|
        answer0: Result<Option<Value>, Fault>,
        between: Runners,
        answer1: Result<Option<Value>, Fault>,
        after: Runners,
    | #[trigger]
        consulted(s, instruction, before, answer0, between, answer1, after)
            ==> !operands_are_reduced(s, instruction, answer0, answer1)
}

/// Whatever the builtins `before` answer, computing the operands deduces no return address.
pub open spec fn return_address_is_never_deduced(
    s: MachineState,
    before: Runners,
    instruction: InstructionView,
) -> bool {
    instruction.opcode is Call ==> forall|
        answer0: Result<Option<Value>, Fault>,
        between: Runners,
        answer1: Result<Option<Value>, Fault>,
        after: Runners,
    | #[trigger]
        consulted(s, instruction, before, answer0, between, answer1, after) && fetched(
            s,
            instruction,
        ) is Ok ==> !deduces_op0(fetched(s, instruction)->Ok_0, answer0)
}

/// Computing the operands of `instruction` in `s` with the builtins `before` gives `result`, makes
/// the memory `cells` and leaves the builtins as `after`.
pub open spec fn operands_computed(
    s: MachineState,
    before: Runners,
    instruction: InstructionView,
    result: Result<OperandsView, Fault>,
    cells: Cells,
    after: Runners,
) -> bool {
    exists|
        answer0: Result<Option<Value>, Fault>,
        between: Runners,
        answer1: Result<Option<Value>, Fault>,
    |
        {
            &&& #[trigger] consulted(s, instruction, before, answer0, between, answer1, after)
            &&& (result, cells) == operands_outcome(s, instruction, answer0, answer1)
        }
}

/// The trace after an instruction that began with these registers.
pub open spec fn next_trace(s: MachineState) -> Option<Seq<TraceEntry>> {
    match (s.trace, s.registers.trace_entry()) {
        (Some(trace), Some(entry)) => Some(trace.push(entry)),
        _ => s.trace,
    }
}

/// The accessed addresses after an instruction with operands at `addresses`.
pub open spec fn next_accessed(s: MachineState, addresses: AddressesView) -> Option<Seq<Value>> {
    match s.accessed_addresses {
        Some(accessed) => Some(
            accessed + seq![addresses.dst, addresses.op0, addresses.op1, s.registers.pc],
        ),
        None => None,
    }
}

/// The state after the operands were found to meet the opcode's demands, and what is said. Where
/// the register updates would count `ap` up beyond the last offset, that offset is named, and the
/// registers stay as they were.
pub open spec fn completed(
    s: MachineState,
    instruction: InstructionView,
    operands: OperandsView,
    addresses: AddressesView,
) -> (Result<(), Fault>, MachineState) {
    let noted = MachineState {
        trace: next_trace(s),
        accessed_addresses: next_accessed(s, addresses),
        ..s
    };
    if !s.registers.ap.has_room_for(reach(instruction)) {
        (
            Err(
                Fault::OffsetExceeded(
                    s.registers.ap->RelocatableValue_0.offset + reach(instruction),
                ),
            ),
            noted,
        )
    } else {
        let moved = MachineState { registers: next_registers(s, instruction, operands), ..noted };
        match registers_outcome(s, instruction, operands) {
            Err(fault) => (Err(fault), moved),
            Ok(()) => (
                Ok(()),
                MachineState { current_step: (s.current_step + 1) as usize, ..moved },
            ),
        }
    }
}

/// The state after the instruction, and what is said, where computing the operands gave `result`
/// and made `s` what it is.
pub open spec fn concluded(
    s: MachineState,
    instruction: InstructionView,
    result: Result<OperandsView, Fault>,
    addresses: AddressesView,
) -> (Result<(), Fault>, MachineState) {
    match result {
        Err(fault) => (Err(fault), s),
        Ok(operands) => match assertion_outcome(s, instruction, operands) {
            Err(fault) => (Err(fault), s),
            Ok(()) => completed(s, instruction, operands, addresses),
        },
    }
}

/// Running `instruction` in `s` with the builtins `before` gives `result`, leads to `next` and
/// leaves the builtins as `after`.
pub open spec fn instruction_ran(
    s: MachineState,
    before: Runners,
    instruction: InstructionView,
    result: Result<(), Fault>,
    next: MachineState,
    after: Runners,
) -> bool {
    exists|operands: Result<OperandsView, Fault>, cells: Cells|
        {
            &&& #[trigger] operands_computed(s, before, instruction, operands, cells, after)
            &&& (result, next) == concluded(
                MachineState { cells, ..s },
                instruction,
                operands,
                fetched(s, instruction)->Ok_0.addresses,
            )
        }
}

/// The registers are updated: the operands can be `operands`, they meet the opcode's demands, and
/// `ap` has room.
pub open spec fn reaches_registers(
    s: MachineState,
    before: Runners,
    instruction: InstructionView,
    operands: OperandsView,
    cells: Cells,
    after: Runners,
) -> bool {
    &&& operands_computed(s, before, instruction, Ok(operands), cells, after)
    &&& assertion_outcome(s, instruction, operands) is Ok
    &&& s.registers.ap.has_room_for(reach(instruction))
}

/// Whatever the builtins `before` answer, running the instruction takes no remainder modulo the
/// prime.
pub open spec fn instruction_is_never_reduced(
    s: MachineState,
    before: Runners,
    instruction: InstructionView,
) -> bool {
    &&& operands_are_never_reduced(s, before, instruction)
    &&& forall|operands: OperandsView, cells: Cells, after: Runners| #[trigger]
        reaches_registers(s, before, instruction, operands, cells, after)
            ==> !registers_are_reduced(s, instruction, operands)
}

/// Whatever the builtins `before` answer, running the instruction does not count `pc` up.
pub open spec fn pc_is_never_counted_up(
    s: MachineState,
    before: Runners,
    instruction: InstructionView,
) -> bool {
    &&& return_address_is_never_deduced(s, before, instruction)
    &&& forall|operands: OperandsView, cells: Cells, after: Runners| #[trigger]
        reaches_registers(s, before, instruction, operands, cells, after) && next_ap(
            s,
            instruction,
            operands,
        ) is Ok ==> !pc_is_counted_up(instruction, operands)
}

/// Whatever the builtins `before` answer, running the instruction fails.
pub open spec fn instruction_never_completes(
    s: MachineState,
    before: Runners,
    instruction: InstructionView,
) -> bool {
    forall|operands: OperandsView, cells: Cells, after: Runners| #[trigger]
        reaches_registers(s, before, instruction, operands, cells, after)
            ==> registers_outcome(s, instruction, operands) is Err
}

/// The instruction at `pc`, if there is one, can run as far as machine integers go: it locates its
/// operands and takes remainders only with a prime that is not zero, and it completes only where
/// the step can be counted.
pub open spec fn current_instruction_is_runnable(s: MachineState, before: Runners) -> bool {
    current_instruction(s) matches Ok(instruction) ==> {
        &&& s.registers.prime != 0
        &&& s.prime == 0 ==> instruction_is_never_reduced(s, before, instruction)
        &&& s.current_step == usize::MAX ==> instruction_never_completes(s, before, instruction)
    }
}

/// Running the instruction at `pc` in `s` with the builtins `before` gives `result`, leads to
/// `next` and leaves the builtins as `after`.
pub open spec fn current_instruction_ran(
    s: MachineState,
    before: Runners,
    result: Result<(), Fault>,
    next: MachineState,
    after: Runners,
) -> bool {
    match current_instruction(s) {
        Err(fault) => {
            &&& result == Err::<(), Fault>(fault)
            &&& next == s
            &&& after == before
        },
        Ok(instruction) => instruction_ran(s, before, instruction, result, next, after),
    }
}

} // verus!
