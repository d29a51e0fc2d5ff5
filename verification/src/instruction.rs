//! Decoded instructions.

use crate::bigint::BigInt;
use vstd::prelude::*;

verus! {

/// The register that an operand's address is relative to.
#[derive(Clone, Copy, Debug, PartialEq, Eq, Structural)]
pub enum Register {
    AP,
    FP,
}

/// What the address of the second operand is relative to.
#[derive(Clone, Copy, Debug, PartialEq, Eq, Structural)]
pub enum Op1Addr {
    Imm,
    AP,
    FP,
    Op0,
}

/// How `res` is computed.
#[derive(Clone, Copy, Debug, PartialEq, Eq, Structural)]
pub enum Res {
    Op1,
    Add,
    Mul,
    Unconstrained,
}

/// How the program counter moves.
#[derive(Clone, Copy, Debug, PartialEq, Eq, Structural)]
pub enum PcUpdate {
    Regular,
    Jump,
    JumpRel,
    Jnz,
}

/// How the allocation pointer moves.
#[derive(Clone, Copy, Debug, PartialEq, Eq, Structural)]
pub enum ApUpdate {
    Regular,
    Add,
    Add1,
    Add2,
}

/// How the frame pointer moves.
#[derive(Clone, Copy, Debug, PartialEq, Eq, Structural)]
pub enum FpUpdate {
    Regular,
    APPlus2,
    Dst,
}

#[derive(Clone, Copy, Debug, PartialEq, Eq, Structural)]
pub enum Opcode {
    NOp,
    AssertEq,
    Call,
    Ret,
}

/// An instruction, decoded.
#[derive(Debug, PartialEq)]
pub struct Instruction {
    pub off0: BigInt,
    pub off1: BigInt,
    pub off2: BigInt,
    pub imm: Option<BigInt>,
    pub dst_register: Register,
    pub op0_register: Register,
    pub op1_addr: Op1Addr,
    pub res: Res,
    pub pc_update: PcUpdate,
    pub ap_update: ApUpdate,
    pub fp_update: FpUpdate,
    pub opcode: Opcode,
}

/// An `Instruction`, mathematically.
pub struct InstructionView {
    pub off0: int,
    pub off1: int,
    pub off2: int,
    pub imm: Option<int>,
    pub dst_register: Register,
    pub op0_register: Register,
    pub op1_addr: Op1Addr,
    pub res: Res,
    pub pc_update: PcUpdate,
    pub ap_update: ApUpdate,
    pub fp_update: FpUpdate,
    pub opcode: Opcode,
}

impl View for Instruction {
    type V = InstructionView;

    open spec fn view(&self) -> InstructionView {
        InstructionView {
            off0: self.off0@,
            off1: self.off1@,
            off2: self.off2@,
            imm: self.imm.deep_view(),
            dst_register: self.dst_register,
            op0_register: self.op0_register,
            op1_addr: self.op1_addr,
            res: self.res,
            pc_update: self.pc_update,
            ap_update: self.ap_update,
            fp_update: self.fp_update,
            opcode: self.opcode,
        }
    }
}

impl DeepView for Instruction {
    type V = InstructionView;

    open spec fn deep_view(&self) -> InstructionView {
        self@
    }
}

impl InstructionView {
    /// How many cells the instruction takes: one more where it has an immediate value.
    pub open spec fn size(self) -> usize {
        match self.imm {
            Some(_) => 2,
            None => 1,
        }
    }
}

impl Instruction {
    /// How many cells the instruction takes.
    pub fn size(&self) -> (r: usize)
        ensures
            r == self@.size(),
    {
        match self.imm {
            Some(_) => 2,
            None => 1,
        }
    }
}

} // verus!
