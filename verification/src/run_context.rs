//! The registers, the addresses that they give an instruction's operands, and the trace of them.

use crate::bigint::BigInt;
use crate::errors::{outcome, Fault, VirtualMachineError};
use crate::instruction::{Instruction, InstructionView, Op1Addr, Register};
use crate::relocatable::{MaybeRelocatable, Relocatable, Value};
use vstd::prelude::*;

verus! {

/// The registers as they were before a step.
#[derive(Clone, Copy, Debug, PartialEq, Eq, Structural)]
pub struct TraceEntry {
    pub pc: Relocatable,
    pub ap: Relocatable,
    pub fp: Relocatable,
}

/// The registers, and the prime modulo which addresses are computed.
pub struct RunContext {
    pub pc: MaybeRelocatable,
    pub ap: MaybeRelocatable,
    pub fp: MaybeRelocatable,
    pub prime: BigInt,
}

/// A `RunContext`, mathematically.
pub struct Registers {
    pub pc: Value,
    pub ap: Value,
    pub fp: Value,
    pub prime: int,
}

impl View for RunContext {
    type V = Registers;

    open spec fn view(&self) -> Registers {
        Registers { pc: self.pc@, ap: self.ap@, fp: self.fp@, prime: self.prime@ }
    }
}

impl Registers {
    pub open spec fn register(self, register: Register) -> Value {
        match register {
            Register::AP => self.ap,
            Register::FP => self.fp,
        }
    }

    /// Where the destination is.
    pub open spec fn dst_addr(self, instruction: InstructionView) -> Result<Value, Fault> {
        self.register(instruction.dst_register).plus_int(instruction.off0, self.prime)
    }

    /// Where the first operand is.
    pub open spec fn op0_addr(self, instruction: InstructionView) -> Result<Value, Fault> {
        self.register(instruction.op0_register).plus_int(instruction.off1, self.prime)
    }

    /// Where the second operand is, `op0` being the first where it is known. An immediate value
    /// is in the cell after the instruction.
    pub open spec fn op1_addr(self, instruction: InstructionView, op0: Option<Value>) -> Result<
        Value,
        Fault,
    > {
        match instruction.op1_addr {
            Op1Addr::AP => self.ap.plus_int(instruction.off2, self.prime),
            Op1Addr::FP => self.fp.plus_int(instruction.off2, self.prime),
            Op1Addr::Imm => if instruction.off2 == 1 {
                self.pc.plus_int(instruction.off2, self.prime)
            } else {
                Err(Fault::ImmShouldBe1)
            },
            Op1Addr::Op0 => match op0 {
                Some(base) => base.plus_int(instruction.off2, self.prime),
                None => Err(Fault::UnknownOp0),
            },
        }
    }

    /// What the trace records of these registers: nothing unless all three are addresses.
    pub open spec fn trace_entry(self) -> Option<TraceEntry> {
        match (self.pc, self.ap, self.fp) {
            (
                Value::RelocatableValue(pc),
                Value::RelocatableValue(ap),
                Value::RelocatableValue(fp),
            ) => Some(TraceEntry { pc, ap, fp }),
            _ => None,
        }
    }
}

impl RunContext {
    fn register(&self, register: Register) -> (r: &MaybeRelocatable)
        ensures
            r@ == self@.register(register),
    {
        match register {
            Register::AP => &self.ap,
            Register::FP => &self.fp,
        }
    }

    /// The address of the destination.
    pub fn compute_dst_addr(&self, instruction: &Instruction) -> (r: Result<
        MaybeRelocatable,
        VirtualMachineError,
    >)
        requires
            self.prime@ != 0,
        ensures
            outcome(r) == self@.dst_addr(instruction@),
    {
        self.register(instruction.dst_register).add_int_mod(&instruction.off0, &self.prime)
    }

    /// The address of the first operand.
    pub fn compute_op0_addr(&self, instruction: &Instruction) -> (r: Result<
        MaybeRelocatable,
        VirtualMachineError,
    >)
        requires
            self.prime@ != 0,
        ensures
            outcome(r) == self@.op0_addr(instruction@),
    {
        self.register(instruction.op0_register).add_int_mod(&instruction.off1, &self.prime)
    }

    /// The address of the second operand, which may depend on the first.
    pub fn compute_op1_addr(
        &self,
        instruction: &Instruction,
        op0: Option<&MaybeRelocatable>,
    ) -> (r: Result<MaybeRelocatable, VirtualMachineError>)
        requires
            match instruction.op1_addr {
                Op1Addr::Imm => instruction.off2@ == 1,
                Op1Addr::Op0 => op0 is Some,
                _ => true,
            } ==> self.prime@ != 0,
        ensures
            outcome(r) == self@.op1_addr(instruction@, op0.deep_view()),
    {
        let base: &MaybeRelocatable = match instruction.op1_addr {
            Op1Addr::AP => &self.ap,
            Op1Addr::FP => &self.fp,
            Op1Addr::Imm => {
                if instruction.off2 == BigInt::from_i64(1) {
                    &self.pc
                } else {
                    return Err(VirtualMachineError::ImmShouldBe1);
                }
            },
            Op1Addr::Op0 => match op0 {
                Some(value) => value,
                None => return Err(VirtualMachineError::UnknownOp0),
            },
        };
        base.add_int_mod(&instruction.off2, &self.prime)
    }

    /// What the trace records of the registers.
    pub fn trace_entry(&self) -> (r: Option<TraceEntry>)
        ensures
            r == self@.trace_entry(),
    {
        match (&self.pc, &self.ap, &self.fp) {
            (
                MaybeRelocatable::RelocatableValue(pc),
                MaybeRelocatable::RelocatableValue(ap),
                MaybeRelocatable::RelocatableValue(fp),
            ) => Some(TraceEntry { pc: *pc, ap: *ap, fp: *fp }),
            _ => None,
        }
    }
}

} // verus!
