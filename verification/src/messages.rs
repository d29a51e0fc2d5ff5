//! What errors say.

use crate::bigint::{decimal_text, BigInt};
use crate::errors::{
    Fault, MemoryError, MemoryFault, RunnerError, RunnerFault, VirtualMachineError,
};
use crate::relocatable::{MaybeRelocatable, Value};
use vstd::prelude::*;
use vstd::string::*;

verus! {

/// A value as messages show it.
pub open spec fn value_text(value: Value) -> Seq<char> {
    match value {
        Value::Int(n) => "Int("@ + decimal_text(n) + ")"@,
        Value::RelocatableValue(at) => "RelocatableValue(Relocatable { segment_index: "@
            + decimal_text(at.segment_index as int) + ", offset: "@ + decimal_text(
            at.offset as int,
        ) + " })"@,
    }
}

/// A value that may be missing, as messages show it.
pub open spec fn held_text(held: Option<Value>) -> Seq<char> {
    match held {
        Some(value) => "Some("@ + value_text(value) + ")"@,
        None => "None"@,
    }
}

/// What a memory fault says.
pub open spec fn memory_message(fault: MemoryFault) -> Seq<char> {
    match fault {
        MemoryFault::UnallocatedSegment(index, count) => "Can't insert into segment #"@
            + decimal_text(index as int) + "; memory only has "@ + decimal_text(count as int)
            + " segment"@,
        MemoryFault::AddressNotRelocatable => "Memory addresses must be relocatable"@,
        MemoryFault::InconsistentMemory(
            address,
            held,
            new,
        ) => "Inconsistent memory assignment at address "@ + value_text(address) + ". "@
            + value_text(held) + " != "@ + value_text(new),
    }
}

/// What a fault of a builtin says.
pub open spec fn runner_message(fault: RunnerFault) -> Seq<char> {
    match fault {
        RunnerFault::NonRelocatableAddress => "Memory addresses must be relocatable"@,
        RunnerFault::ExpectedInteger(address) => "Expected an integer at address "@ + value_text(
            address,
        ),
    }
}

/// What a fault says.
pub open spec fn message(fault: Fault) -> Seq<char> {
    match fault {
        Fault::InvalidInstructionEncoding => "Instruction should be an int"@,
        Fault::InvalidOp1Reg(n) => "Invalid op1_register value: "@ + decimal_text(n as int),
        Fault::InvalidPcUpdate(n) => "Invalid pc_update value: "@ + decimal_text(n as int),
        Fault::InvalidRes(n) => "Invalid res value: "@ + decimal_text(n as int),
        Fault::InvalidOpcode(n) => "Invalid opcode value: "@ + decimal_text(n as int),
        Fault::InvalidApUpdate(n) => "Invalid ap_update value: "@ + decimal_text(n as int),
        Fault::ImmShouldBe1 => "In immediate mode, off2 should be 1"@,
        Fault::UnknownOp0 => "op0 must be known in double dereference"@,
        Fault::NoImm => "op1_addr is Op1Addr.IMM, but no immediate was given"@,
        Fault::PureValue => "Expected an integer, found an address"@,
        Fault::UnconstrainedResAdd => "Res.UNCONSTRAINED cannot be used with ApUpdate.ADD"@,
        Fault::UnconstrainedResJump => "Res.UNCONSTRAINED cannot be used with PcUpdate.JUMP"@,
        Fault::UnconstrainedResJumpRel =>
            "Res.UNCONSTRAINED cannot be used with PcUpdate.JUMP_REL"@,
        Fault::UnconstrainedResAssertEq =>
            "Res.UNCONSTRAINED cannot be used with Opcode.ASSERT_EQ"@,
        Fault::DiffAssertValues(res, dst) => "An ASSERT_EQ instruction failed: "@ + decimal_text(
            res,
        ) + " != "@ + decimal_text(dst),
        Fault::CantWriteReturnPc(
            op0,
            pc,
        ) => "Call failed to write return-pc (inconsistent op0): "@ + decimal_text(op0) + " != "@
            + decimal_text(pc) + ". Did you forget to increment ap?"@,
        Fault::CantWriteReturnFp(
            dst,
            fp,
        ) => "Call failed to write return-fp (inconsistent dst): "@ + decimal_text(dst) + " != "@
            + decimal_text(fp) + ". Did you forget to increment ap?"@,
        Fault::NoDst => "Couldn't get or load dst"@,
        Fault::OffsetExceeded(offset) => "Offset "@ + decimal_text(offset)
            + " exceeds the maximum offset value"@,
        Fault::RelocatableAdd => "Can't add two relocatable values"@,
        Fault::DiffIndexSub =>
            "Can only subtract two relocatable values of the same segment"@,
        Fault::RelocatableSubtrahend =>
            "Can't subtract a relocatable value from an integer"@,
        Fault::MemoryError(fault) => memory_message(fault),
        Fault::RunnerError(fault) => runner_message(fault),
        Fault::InconsistentAutoDeduction(
            name,
            deduced,
            held,
        ) => "Inconsistent auto-deduction for builtin "@ + name + ", expected "@ + value_text(
            deduced,
        ) + ", got "@ + held_text(held),
    }
}

/// `n` in decimal.
fn decimal(n: usize) -> (r: String)
    ensures
        r@ == decimal_text(n as int),
{
    BigInt::from_usize(n).to_decimal()
}

/// A label with the number that follows it.
fn labelled(label: &str, n: i64) -> (r: String)
    ensures
        r@ == label@ + decimal_text(n as int),
{
    label.to_string().concat(BigInt::from_i64(n).to_decimal().as_str())
}

/// Two numbers that should be one.
fn unequal(label: &str, a: &BigInt, b: &BigInt) -> (r: String)
    ensures
        r@ == label@ + decimal_text(a@) + " != "@ + decimal_text(b@),
{
    label.to_string().concat(a.to_decimal().as_str()).concat(" != ").concat(
        b.to_decimal().as_str(),
    )
}

/// A value as messages show it.
fn show(value: &MaybeRelocatable) -> (r: String)
    ensures
        r@ == value_text(value@),
{
    match value {
        MaybeRelocatable::Int(n) => "Int(".to_string().concat(n.to_decimal().as_str()).concat(")"),
        MaybeRelocatable::RelocatableValue(
            at,
        ) => "RelocatableValue(Relocatable { segment_index: ".to_string().concat(
            decimal(at.segment_index).as_str(),
        ).concat(", offset: ").concat(decimal(at.offset).as_str()).concat(" })"),
    }
}

/// A value that may be missing, as messages show it.
fn show_held(held: &Option<MaybeRelocatable>) -> (r: String)
    ensures
        r@ == held_text(held.deep_view()),
{
    match held {
        Some(value) => "Some(".to_string().concat(show(value).as_str()).concat(")"),
        None => "None".to_string(),
    }
}

impl MemoryError {
    /// What the error says.
    pub fn to_string(&self) -> (r: String)
        ensures
            r@ == memory_message(self.deep_view()),
    {
        match self {
            MemoryError::UnallocatedSegment(
                index,
                count,
            ) => "Can't insert into segment #".to_string().concat(
                decimal(*index).as_str(),
            ).concat("; memory only has ").concat(decimal(*count).as_str()).concat(" segment"),
            MemoryError::AddressNotRelocatable =>
                "Memory addresses must be relocatable".to_string(),
            MemoryError::InconsistentMemory(
                address,
                held,
                new,
            ) => "Inconsistent memory assignment at address ".to_string().concat(
                show(address).as_str(),
            ).concat(". ").concat(show(held).as_str()).concat(" != ").concat(show(new).as_str()),
        }
    }
}

impl RunnerError {
    /// What the error says.
    pub fn to_string(&self) -> (r: String)
        ensures
            r@ == runner_message(self.deep_view()),
    {
        match self {
            RunnerError::NonRelocatableAddress =>
                "Memory addresses must be relocatable".to_string(),
            RunnerError::ExpectedInteger(
                address,
            ) => "Expected an integer at address ".to_string().concat(show(address).as_str()),
        }
    }
}

impl VirtualMachineError {
    /// What the error says.
    pub fn to_string(&self) -> (r: String)
        ensures
            r@ == message(self.deep_view()),
    {
        match self {
            VirtualMachineError::InvalidInstructionEncoding =>
                "Instruction should be an int".to_string(),
            VirtualMachineError::InvalidOp1Reg(n) => labelled("Invalid op1_register value: ", *n),
            VirtualMachineError::InvalidPcUpdate(n) => labelled("Invalid pc_update value: ", *n),
            VirtualMachineError::InvalidRes(n) => labelled("Invalid res value: ", *n),
            VirtualMachineError::InvalidOpcode(n) => labelled("Invalid opcode value: ", *n),
            VirtualMachineError::InvalidApUpdate(n) => labelled("Invalid ap_update value: ", *n),
            VirtualMachineError::ImmShouldBe1 => "In immediate mode, off2 should be 1".to_string(),
            VirtualMachineError::UnknownOp0 =>
                "op0 must be known in double dereference".to_string(),
            VirtualMachineError::NoImm =>
                "op1_addr is Op1Addr.IMM, but no immediate was given".to_string(),
            VirtualMachineError::PureValue => "Expected an integer, found an address".to_string(),
            VirtualMachineError::UnconstrainedResAdd =>
                "Res.UNCONSTRAINED cannot be used with ApUpdate.ADD".to_string(),
            VirtualMachineError::UnconstrainedResJump =>
                "Res.UNCONSTRAINED cannot be used with PcUpdate.JUMP".to_string(),
            VirtualMachineError::UnconstrainedResJumpRel =>
                "Res.UNCONSTRAINED cannot be used with PcUpdate.JUMP_REL".to_string(),
            VirtualMachineError::UnconstrainedResAssertEq =>
                "Res.UNCONSTRAINED cannot be used with Opcode.ASSERT_EQ".to_string(),
            VirtualMachineError::DiffAssertValues(
                res,
                dst,
            ) => unequal("An ASSERT_EQ instruction failed: ", res, dst),
            VirtualMachineError::CantWriteReturnPc(op0, pc) => unequal(
                "Call failed to write return-pc (inconsistent op0): ",
                op0,
                pc,
            ).concat(". Did you forget to increment ap?"),
            VirtualMachineError::CantWriteReturnFp(dst, fp) => unequal(
                "Call failed to write return-fp (inconsistent dst): ",
                dst,
                fp,
            ).concat(". Did you forget to increment ap?"),
            VirtualMachineError::NoDst => "Couldn't get or load dst".to_string(),
            VirtualMachineError::OffsetExceeded(offset) => "Offset ".to_string().concat(
                offset.to_decimal().as_str(),
            ).concat(" exceeds the maximum offset value"),
            VirtualMachineError::RelocatableAdd => "Can't add two relocatable values".to_string(),
            VirtualMachineError::DiffIndexSub =>
                "Can only subtract two relocatable values of the same segment".to_string(),
            VirtualMachineError::RelocatableSubtrahend =>
                "Can't subtract a relocatable value from an integer".to_string(),
            VirtualMachineError::MemoryError(error) => error.to_string(),
            VirtualMachineError::RunnerError(error) => error.to_string(),
            VirtualMachineError::InconsistentAutoDeduction(
                name,
                deduced,
                held,
            ) => "Inconsistent auto-deduction for builtin ".to_string().concat(
                name.as_str(),
            ).concat(", expected ").concat(show(deduced).as_str()).concat(", got ").concat(
                show_held(held).as_str(),
            ),
        }
    }
}

} // verus!
