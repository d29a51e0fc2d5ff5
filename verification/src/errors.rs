//! What can go wrong, as executable values and as the mathematical values that contracts speak of.

use crate::bigint::BigInt;
use crate::relocatable::{MaybeRelocatable, Value};
use vstd::prelude::*;

verus! {

/// Why a memory access was refused.
#[derive(Debug, PartialEq)]
pub enum MemoryError {
    /// The segment that the address names, and how many segments there are.
    UnallocatedSegment(usize, usize),
    AddressNotRelocatable,
    /// The address, the value that the cell holds, and the value that was to replace it.
    InconsistentMemory(MaybeRelocatable, MaybeRelocatable, MaybeRelocatable),
}

/// Why a builtin runner gave up.
#[derive(Debug, PartialEq)]
pub enum RunnerError {
    NonRelocatableAddress,
    /// The cell at this address should hold an integer.
    ExpectedInteger(MaybeRelocatable),
}

/// Why the machine stopped.
#[derive(Debug, PartialEq)]
pub enum VirtualMachineError {
    InvalidInstructionEncoding,
    InvalidOp1Reg(i64),
    InvalidPcUpdate(i64),
    InvalidRes(i64),
    InvalidOpcode(i64),
    InvalidApUpdate(i64),
    ImmShouldBe1,
    UnknownOp0,
    NoImm,
    PureValue,
    UnconstrainedResAdd,
    UnconstrainedResJump,
    UnconstrainedResJumpRel,
    UnconstrainedResAssertEq,
    /// The value of `res`, then that of `dst`.
    DiffAssertValues(BigInt, BigInt),
    /// The value of `op0`, then the return address.
    CantWriteReturnPc(BigInt, BigInt),
    /// The value of `dst`, then the frame pointer.
    CantWriteReturnFp(BigInt, BigInt),
    NoDst,
    /// The offset that an address would have.
    OffsetExceeded(BigInt),
    RelocatableAdd,
    DiffIndexSub,
    RelocatableSubtrahend,
    MemoryError(MemoryError),
    RunnerError(RunnerError),
    /// The builtin's name, the value it deduced, and the value in memory.
    InconsistentAutoDeduction(String, MaybeRelocatable, Option<MaybeRelocatable>),
}

/// A `MemoryError`, mathematically.
pub enum MemoryFault {
    UnallocatedSegment(usize, usize),
    AddressNotRelocatable,
    InconsistentMemory(Value, Value, Value),
}

/// A `RunnerError`, mathematically.
pub enum RunnerFault {
    NonRelocatableAddress,
    ExpectedInteger(Value),
}

/// A `VirtualMachineError`, mathematically.
pub enum Fault {
    InvalidInstructionEncoding,
    InvalidOp1Reg(i64),
    InvalidPcUpdate(i64),
    InvalidRes(i64),
    InvalidOpcode(i64),
    InvalidApUpdate(i64),
    ImmShouldBe1,
    UnknownOp0,
    NoImm,
    PureValue,
    UnconstrainedResAdd,
    UnconstrainedResJump,
    UnconstrainedResJumpRel,
    UnconstrainedResAssertEq,
    DiffAssertValues(int, int),
    CantWriteReturnPc(int, int),
    CantWriteReturnFp(int, int),
    NoDst,
    OffsetExceeded(int),
    RelocatableAdd,
    DiffIndexSub,
    RelocatableSubtrahend,
    MemoryError(MemoryFault),
    RunnerError(RunnerFault),
    InconsistentAutoDeduction(Seq<char>, Value, Option<Value>),
}

impl DeepView for MemoryError {
    type V = MemoryFault;

    open spec fn deep_view(&self) -> MemoryFault {
        match *self {
            MemoryError::UnallocatedSegment(index, count) => MemoryFault::UnallocatedSegment(
                index,
                count,
            ),
            MemoryError::AddressNotRelocatable => MemoryFault::AddressNotRelocatable,
            MemoryError::InconsistentMemory(
                address,
                held,
                new,
            ) => MemoryFault::InconsistentMemory(address@, held@, new@),
        }
    }
}

impl DeepView for RunnerError {
    type V = RunnerFault;

    open spec fn deep_view(&self) -> RunnerFault {
        match *self {
            RunnerError::NonRelocatableAddress => RunnerFault::NonRelocatableAddress,
            RunnerError::ExpectedInteger(address) => RunnerFault::ExpectedInteger(address@),
        }
    }
}

impl DeepView for VirtualMachineError {
    type V = Fault;

    open spec fn deep_view(&self) -> Fault {
        match *self {
            VirtualMachineError::InvalidInstructionEncoding => Fault::InvalidInstructionEncoding,
            VirtualMachineError::InvalidOp1Reg(n) => Fault::InvalidOp1Reg(n),
            VirtualMachineError::InvalidPcUpdate(n) => Fault::InvalidPcUpdate(n),
            VirtualMachineError::InvalidRes(n) => Fault::InvalidRes(n),
            VirtualMachineError::InvalidOpcode(n) => Fault::InvalidOpcode(n),
            VirtualMachineError::InvalidApUpdate(n) => Fault::InvalidApUpdate(n),
            VirtualMachineError::ImmShouldBe1 => Fault::ImmShouldBe1,
            VirtualMachineError::UnknownOp0 => Fault::UnknownOp0,
            VirtualMachineError::NoImm => Fault::NoImm,
            VirtualMachineError::PureValue => Fault::PureValue,
            VirtualMachineError::UnconstrainedResAdd => Fault::UnconstrainedResAdd,
            VirtualMachineError::UnconstrainedResJump => Fault::UnconstrainedResJump,
            VirtualMachineError::UnconstrainedResJumpRel => Fault::UnconstrainedResJumpRel,
            VirtualMachineError::UnconstrainedResAssertEq => Fault::UnconstrainedResAssertEq,
            VirtualMachineError::DiffAssertValues(res, dst) => Fault::DiffAssertValues(res@, dst@),
            VirtualMachineError::CantWriteReturnPc(op0, pc) => Fault::CantWriteReturnPc(op0@, pc@),
            VirtualMachineError::CantWriteReturnFp(dst, fp) => Fault::CantWriteReturnFp(dst@, fp@),
            VirtualMachineError::NoDst => Fault::NoDst,
            VirtualMachineError::OffsetExceeded(offset) => Fault::OffsetExceeded(offset@),
            VirtualMachineError::RelocatableAdd => Fault::RelocatableAdd,
            VirtualMachineError::DiffIndexSub => Fault::DiffIndexSub,
            VirtualMachineError::RelocatableSubtrahend => Fault::RelocatableSubtrahend,
            VirtualMachineError::MemoryError(error) => Fault::MemoryError(error.deep_view()),
            VirtualMachineError::RunnerError(error) => Fault::RunnerError(error.deep_view()),
            VirtualMachineError::InconsistentAutoDeduction(
                name,
                deduced,
                held,
            ) => Fault::InconsistentAutoDeduction(name@, deduced@, held.deep_view()),
        }
    }
}

/// What a call returned, with each value and each error replaced by what it stands for.
pub open spec fn outcome<T: DeepView, E: DeepView>(r: Result<T, E>) -> Result<T::V, E::V> {
    match r {
        Ok(value) => Ok(value.deep_view()),
        Err(error) => Err(error.deep_view()),
    }
}

} // verus!
