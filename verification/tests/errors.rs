//! What errors say.

use cairo_vm_core::bigint::BigInt;
use cairo_vm_core::errors::{MemoryError, RunnerError, VirtualMachineError};
use cairo_vm_core::relocatable::MaybeRelocatable;

fn n(value: i64) -> BigInt {
    BigInt::from_i64(value)
}

fn felt(value: i64) -> MaybeRelocatable {
    MaybeRelocatable::Int(n(value))
}

fn addr(segment_index: usize, offset: usize) -> MaybeRelocatable {
    MaybeRelocatable::from((segment_index, offset))
}

#[test]
fn machine_errors_say_what_is_wrong() {
    let said = [
        (VirtualMachineError::InvalidInstructionEncoding, "Instruction should be an int"),
        (VirtualMachineError::InvalidOp1Reg(3), "Invalid op1_register value: 3"),
        (VirtualMachineError::InvalidPcUpdate(3), "Invalid pc_update value: 3"),
        (VirtualMachineError::InvalidRes(3), "Invalid res value: 3"),
        (VirtualMachineError::InvalidOpcode(3), "Invalid opcode value: 3"),
        (VirtualMachineError::InvalidApUpdate(3), "Invalid ap_update value: 3"),
        (VirtualMachineError::ImmShouldBe1, "In immediate mode, off2 should be 1"),
        (VirtualMachineError::UnknownOp0, "op0 must be known in double dereference"),
        (VirtualMachineError::NoImm, "op1_addr is Op1Addr.IMM, but no immediate was given"),
        (VirtualMachineError::PureValue, "Expected an integer, found an address"),
        (
            VirtualMachineError::UnconstrainedResAdd,
            "Res.UNCONSTRAINED cannot be used with ApUpdate.ADD",
        ),
        (
            VirtualMachineError::UnconstrainedResJump,
            "Res.UNCONSTRAINED cannot be used with PcUpdate.JUMP",
        ),
        (
            VirtualMachineError::UnconstrainedResJumpRel,
            "Res.UNCONSTRAINED cannot be used with PcUpdate.JUMP_REL",
        ),
        (
            VirtualMachineError::UnconstrainedResAssertEq,
            "Res.UNCONSTRAINED cannot be used with Opcode.ASSERT_EQ",
        ),
        (
            VirtualMachineError::DiffAssertValues(n(8), n(-9)),
            "An ASSERT_EQ instruction failed: 8 != -9",
        ),
        (
            VirtualMachineError::CantWriteReturnPc(n(9), n(5)),
            "Call failed to write return-pc (inconsistent op0): 9 != 5. \
             Did you forget to increment ap?",
        ),
        (
            VirtualMachineError::CantWriteReturnFp(n(8), n(6)),
            "Call failed to write return-fp (inconsistent dst): 8 != 6. \
             Did you forget to increment ap?",
        ),
        (VirtualMachineError::NoDst, "Couldn't get or load dst"),
        (
            VirtualMachineError::OffsetExceeded(n(100)),
            "Offset 100 exceeds the maximum offset value",
        ),
        (VirtualMachineError::RelocatableAdd, "Can't add two relocatable values"),
        (
            VirtualMachineError::DiffIndexSub,
            "Can only subtract two relocatable values of the same segment",
        ),
        (
            VirtualMachineError::RelocatableSubtrahend,
            "Can't subtract a relocatable value from an integer",
        ),
        (
            VirtualMachineError::InconsistentAutoDeduction(
                String::from("bitwise"),
                felt(1),
                Some(addr(2, 3)),
            ),
            "Inconsistent auto-deduction for builtin bitwise, expected Int(1), \
             got Some(RelocatableValue(Relocatable { segment_index: 2, offset: 3 }))",
        ),
        (
            VirtualMachineError::InconsistentAutoDeduction(String::from("b"), felt(1), None),
            "Inconsistent auto-deduction for builtin b, expected Int(1), got None",
        ),
    ];
    for (error, text) in said {
        assert_eq!(error.to_string(), text);
    }
}

#[test]
fn memory_errors_say_what_is_wrong() {
    let said = [
        (
            MemoryError::UnallocatedSegment(3, 1),
            "Can't insert into segment #3; memory only has 1 segment",
        ),
        (MemoryError::AddressNotRelocatable, "Memory addresses must be relocatable"),
        (
            MemoryError::InconsistentMemory(addr(0, 1), felt(2), felt(3)),
            "Inconsistent memory assignment at address \
             RelocatableValue(Relocatable { segment_index: 0, offset: 1 }). Int(2) != Int(3)",
        ),
    ];
    for (error, text) in said {
        assert_eq!(error.to_string(), text);
        assert_eq!(VirtualMachineError::MemoryError(error).to_string(), text);
    }
}

#[test]
fn runner_errors_say_what_is_wrong() {
    let said = [
        (RunnerError::NonRelocatableAddress, "Memory addresses must be relocatable"),
        (
            RunnerError::ExpectedInteger(addr(4, 5)),
            "Expected an integer at address \
             RelocatableValue(Relocatable { segment_index: 4, offset: 5 })",
        ),
    ];
    for (error, text) in said {
        assert_eq!(error.to_string(), text);
        assert_eq!(VirtualMachineError::RunnerError(error).to_string(), text);
    }
}
