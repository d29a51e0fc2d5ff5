//! What holds of the registers: where they point to, and how an instruction moves them.

use crate::decoder::decoded;
use crate::errors::Fault;
use crate::instruction::InstructionView;
use crate::memory::cell;
use crate::model::{
    current_instruction, initial_state, instruction_encoding, next_ap, next_fp, next_pc,
    next_registers, registers_outcome, zero_test, MachineState, OperandsView,
};
use crate::relocatable::{Relocatable, Value};
use crate::run_context::Registers;
use crate::value_laws::{
    counted_up, is_sum, law_advanced, law_plus, law_plus_int, leaves_memory, moved_on,
};
use vstd::prelude::*;

verus! {

/// A machine starts with empty memory and with all registers at the start of the first segment, and
/// nothing is recorded yet.
pub proof fn law_machines_start_empty(prime: int, trace_enabled: bool)
    ensures
        ({
            let s = initial_state(prime, trace_enabled);
            let start = Value::RelocatableValue(Relocatable { segment_index: 0, offset: 0 });
            &&& s.registers.pc == start && s.registers.ap == start && s.registers.fp == start
            &&& s.registers.prime == prime && s.prime == prime
            &&& s.cells.len() == 0 && s.num_segments == 0 && s.segment_sizes.dom().is_empty()
            &&& s.current_step == 0 && !s.skip_instruction_execution
            &&& s.program_base is None && s.accessed_addresses is None
            &&& s.trace is Some <==> trace_enabled
            &&& s.trace is Some ==> s.trace->0.len() == 0
        }),
{
    assert(initial_state(prime, trace_enabled).segment_sizes.dom() =~= Set::empty());
}

/// The destination is `off0` on from its register.
pub proof fn law_dst_address(r: Registers, i: InstructionView)
    ensures
        ({
            let base = if i.dst_register is FP {
                r.fp
            } else {
                r.ap
            };
            match r.dst_addr(i) {
                Ok(address) => moved_on(base, i.off0, r.prime, address),
                Err(Fault::OffsetExceeded(offset)) => leaves_memory(
                    base,
                    i.off0,
                    r.prime,
                    offset,
                ),
                Err(_) => false,
            }
        }),
{
    law_plus_int(r.ap, i.off0, r.prime);
    law_plus_int(r.fp, i.off0, r.prime);
}

/// The first operand is `off1` on from its register.
pub proof fn law_op0_address(r: Registers, i: InstructionView)
    ensures
        ({
            let base = if i.op0_register is FP {
                r.fp
            } else {
                r.ap
            };
            match r.op0_addr(i) {
                Ok(address) => moved_on(base, i.off1, r.prime, address),
                Err(Fault::OffsetExceeded(offset)) => leaves_memory(
                    base,
                    i.off1,
                    r.prime,
                    offset,
                ),
                Err(_) => false,
            }
        }),
{
    law_plus_int(r.ap, i.off1, r.prime);
    law_plus_int(r.fp, i.off1, r.prime);
}

/// Where the second operand is counted from, if that is known.
pub open spec fn op1_base(r: Registers, i: InstructionView, op0: Option<Value>) -> Option<Value> {
    if i.op1_addr is AP {
        Some(r.ap)
    } else if i.op1_addr is FP {
        Some(r.fp)
    } else if i.op1_addr is Imm {
        Some(r.pc)
    } else {
        op0
    }
}

/// The second operand is `off2` on from ap, fp, pc or the first operand. From pc it can only be one
/// on, and the first operand must be known to count from it.
pub proof fn law_op1_address(r: Registers, i: InstructionView, op0: Option<Value>)
    ensures
        match r.op1_addr(i, op0) {
            Ok(address) => {
                &&& op1_base(r, i, op0) matches Some(base)
                &&& moved_on(base, i.off2, r.prime, address)
                &&& i.op1_addr is Imm ==> i.off2 == 1
            },
            Err(Fault::ImmShouldBe1) => i.op1_addr is Imm && i.off2 != 1,
            Err(Fault::UnknownOp0) => i.op1_addr is Op0 && op0 is None,
            Err(Fault::OffsetExceeded(offset)) => {
                &&& op1_base(r, i, op0) matches Some(base)
                &&& leaves_memory(base, i.off2, r.prime, offset)
            },
            Err(_) => false,
        },
{
    law_plus_int(r.ap, i.off2, r.prime);
    law_plus_int(r.fp, i.off2, r.prime);
    law_plus_int(r.pc, i.off2, r.prime);
    if let Some(base) = op0 {
        law_plus_int(base, i.off2, r.prime);
    }
}

/// The trace gets the three registers, if all of them are addresses.
pub proof fn law_trace_entries_are_the_registers(r: Registers)
    ensures
        match r.trace_entry() {
            Some(entry) => {
                &&& r.pc == Value::RelocatableValue(entry.pc)
                &&& r.ap == Value::RelocatableValue(entry.ap)
                &&& r.fp == Value::RelocatableValue(entry.fp)
            },
            None => r.pc is Int || r.ap is Int || r.fp is Int,
        },
{
}

/// The encoding is the integer in the cell at pc, and what comes with it is what the next cell
/// holds.
pub proof fn law_instructions_are_read_at_pc(s: MachineState)
    ensures
        match instruction_encoding(s) {
            Ok((word, imm)) => {
                &&& s.registers.pc matches Value::RelocatableValue(pc)
                &&& cell(s.cells, pc) == Some(Value::Int(word))
                &&& forall|next: Relocatable|
                    next.segment_index == pc.segment_index && next.offset == pc.offset + 1 ==> imm
                        == #[trigger] cell(s.cells, next)
            },
            Err(fault) => {
                &&& fault == Fault::InvalidInstructionEncoding
                &&& forall|pc: Relocatable|
                    s.registers.pc == Value::RelocatableValue(pc) ==> !(#[trigger] cell(
                        s.cells,
                        pc,
                    ) matches Some(Value::Int(_)))
            },
        },
{
    if let Value::RelocatableValue(pc) = s.registers.pc {
        assert forall|next: Relocatable|
            next.segment_index == pc.segment_index && next.offset == pc.offset + 1 implies next
            == s.registers.pc.advanced(1, None)->RelocatableValue_0 by {}
    }
}

/// The instruction at pc is the decoded encoding, with the integer in the next cell as its immediate
/// value. An encoding that no word of 64 bits holds is refused.
pub proof fn law_the_instruction_at_pc_is_decoded(s: MachineState)
    ensures
        match instruction_encoding(s) {
            Err(fault) => current_instruction(s) == Err::<InstructionView, Fault>(fault),
            Ok((word, imm)) => {
                &&& -0x8000_0000_0000_0000 <= word < 0x8000_0000_0000_0000 ==> {
                    &&& imm matches Some(Value::Int(n)) ==> current_instruction(s) == decoded(
                        word as i64,
                        Some(n),
                    )
                    &&& !(imm matches Some(Value::Int(_))) ==> current_instruction(s) == decoded(
                        word as i64,
                        None,
                    )
                }
                &&& !(-0x8000_0000_0000_0000 <= word < 0x8000_0000_0000_0000)
                    ==> current_instruction(s) == Err::<InstructionView, Fault>(
                    Fault::InvalidInstructionEncoding,
                )
            },
        },
{
}

/// Zero is zero, no other integer is, and of an address it cannot be said.
pub proof fn law_zero_test(value: Value)
    ensures
        match zero_test(value) {
            Ok(zero) => value is Int && (zero <==> value == Value::Int(0)),
            Err(fault) => value is RelocatableValue && fault == Fault::PureValue,
        },
{
}

/// The frame pointer stays, becomes the destination, or goes two on from ap.
pub proof fn law_fp_moves(s: MachineState, i: InstructionView, operands: OperandsView)
    requires
        i.fp_update is APPlus2 && s.registers.ap is RelocatableValue
            ==> s.registers.ap->RelocatableValue_0.offset + 2 <= usize::MAX,
    ensures
        i.fp_update is Regular ==> next_fp(s, i, operands) == s.registers.fp,
        i.fp_update is Dst ==> next_fp(s, i, operands) == operands.dst,
        i.fp_update is APPlus2 ==> counted_up(s.registers.ap, 2, next_fp(s, i, operands)),
{
    if i.fp_update is APPlus2 {
        law_advanced(s.registers.ap, 2, 1);
    }
}

/// The allocation pointer stays, or goes one, two or the result on.
pub proof fn law_ap_moves(s: MachineState, i: InstructionView, operands: OperandsView)
    requires
        i.ap_update is Add1 && s.registers.ap is RelocatableValue
            ==> s.registers.ap->RelocatableValue_0.offset + 1 <= usize::MAX,
        i.ap_update is Add2 && s.registers.ap is RelocatableValue
            ==> s.registers.ap->RelocatableValue_0.offset + 2 <= usize::MAX,
    ensures
        match next_ap(s, i, operands) {
            Ok(ap) => {
                &&& i.ap_update is Regular ==> ap == s.registers.ap
                &&& i.ap_update is Add1 ==> counted_up(s.registers.ap, 1, ap)
                &&& i.ap_update is Add2 ==> counted_up(s.registers.ap, 2, ap)
                &&& i.ap_update is Add ==> {
                    &&& operands.res matches Some(res)
                    &&& is_sum(s.registers.ap, res, s.prime, ap)
                }
            },
            Err(Fault::UnconstrainedResAdd) => i.ap_update is Add && operands.res is None,
            Err(Fault::RelocatableAdd) => {
                &&& i.ap_update is Add
                &&& operands.res matches Some(Value::RelocatableValue(_))
                &&& s.registers.ap is RelocatableValue
            },
            Err(Fault::OffsetExceeded(offset)) => {
                &&& i.ap_update is Add
                &&& operands.res matches Some(res)
                &&& {
                    ||| res matches Value::Int(n) && leaves_memory(
                        s.registers.ap,
                        n,
                        s.prime,
                        offset,
                    )
                    ||| s.registers.ap matches Value::Int(n) && leaves_memory(
                        res,
                        n,
                        s.prime,
                        offset,
                    )
                }
            },
            Err(_) => false,
        },
{
    if i.ap_update is Add1 {
        law_advanced(s.registers.ap, 1, 1);
    }
    if i.ap_update is Add2 {
        law_advanced(s.registers.ap, 2, 1);
    }
    if let Some(res) = operands.res {
        law_plus(s.registers.ap, res, s.prime);
    }
}

/// The program counter goes on by the size of the instruction, to the result, on by the result, or,
/// unless the destination is zero, on by the second operand.
pub proof fn law_pc_moves(s: MachineState, i: InstructionView, operands: OperandsView)
    requires
        i.pc_update is Regular || (i.pc_update is Jnz && operands.dst == Value::Int(0)) ==> (
        s.registers.pc is RelocatableValue ==> s.registers.pc->RelocatableValue_0.offset + i.size()
            <= usize::MAX),
    ensures
        match next_pc(s, i, operands) {
            Ok(pc) => {
                &&& i.pc_update is Regular && s.registers.pc is RelocatableValue ==> counted_up(
                    s.registers.pc,
                    i.size() as int,
                    pc,
                )
                &&& i.pc_update is Regular && s.registers.pc is Int ==> moved_on(
                    s.registers.pc,
                    i.size() as int,
                    s.prime,
                    pc,
                )
                &&& i.pc_update is Jump ==> operands.res == Some(pc)
                &&& i.pc_update is JumpRel ==> {
                    &&& operands.res matches Some(Value::Int(n))
                    &&& moved_on(s.registers.pc, n, s.prime, pc)
                }
                &&& i.pc_update is Jnz ==> operands.dst is Int
                &&& i.pc_update is Jnz && operands.dst == Value::Int(0) ==> counted_up(
                    s.registers.pc,
                    i.size() as int,
                    pc,
                )
                &&& i.pc_update is Jnz && operands.dst != Value::Int(0) ==> is_sum(
                    s.registers.pc,
                    operands.op1,
                    s.prime,
                    pc,
                )
            },
            Err(Fault::UnconstrainedResJump) => i.pc_update is Jump && operands.res is None,
            Err(Fault::UnconstrainedResJumpRel) => i.pc_update is JumpRel && operands.res is None,
            Err(Fault::PureValue) => {
                ||| i.pc_update is JumpRel && operands.res matches Some(Value::RelocatableValue(_))
                ||| i.pc_update is Jnz && operands.dst is RelocatableValue
            },
            Err(Fault::RelocatableAdd) => {
                &&& i.pc_update is Jnz && operands.dst is Int && operands.dst != Value::Int(0)
                &&& s.registers.pc is RelocatableValue && operands.op1 is RelocatableValue
            },
            Err(Fault::OffsetExceeded(offset)) => {
                ||| {
                    &&& i.pc_update is JumpRel
                    &&& operands.res matches Some(Value::Int(n))
                    &&& leaves_memory(s.registers.pc, n, s.prime, offset)
                }
                ||| {
                    &&& i.pc_update is Jnz && operands.dst is Int && operands.dst != Value::Int(0)
                    &&& {
                        ||| operands.op1 matches Value::Int(n) && leaves_memory(
                            s.registers.pc,
                            n,
                            s.prime,
                            offset,
                        )
                        ||| s.registers.pc matches Value::Int(n) && leaves_memory(
                            operands.op1,
                            n,
                            s.prime,
                            offset,
                        )
                    }
                }
            },
            Err(_) => false,
        },
{
    if i.pc_update is Regular || (i.pc_update is Jnz && operands.dst == Value::Int(0)) {
        law_advanced(s.registers.pc, i.size(), s.prime);
    }
    law_plus(s.registers.pc, operands.op1, s.prime);
    if let Some(Value::Int(n)) = operands.res {
        law_plus_int(s.registers.pc, n, s.prime);
    }
}

/// The frame pointer is moved first, then ap, then pc, all from where the registers were. The first
/// failure is the outcome, and what it stands in the way of stays.
pub proof fn law_registers_move_in_order(s: MachineState, i: InstructionView, o: OperandsView)
    ensures
        ({
            let next = next_registers(s, i, o);
            let outcome = registers_outcome(s, i, o);
            &&& next.prime == s.registers.prime
            &&& next.fp == next_fp(s, i, o)
            &&& outcome is Ok <==> next_ap(s, i, o) is Ok && next_pc(s, i, o) is Ok
            &&& next_ap(s, i, o) is Ok ==> next.ap == next_ap(s, i, o)->Ok_0
            &&& outcome is Ok ==> next.pc == next_pc(s, i, o)->Ok_0
            &&& outcome is Err ==> next.pc == s.registers.pc
            &&& next_ap(s, i, o) is Err ==> {
                &&& next.ap == s.registers.ap
                &&& outcome->Err_0 == next_ap(s, i, o)->Err_0
            }
            &&& next_ap(s, i, o) is Ok && next_pc(s, i, o) is Err ==> outcome->Err_0 == next_pc(
                s,
                i,
                o,
            )->Err_0
        }),
{
}

} // verus!
