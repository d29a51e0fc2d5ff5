//! From the word that encodes an instruction to the instruction.
//!
//! The word holds three offsets of 16 bits, each raised by `0x8000`, and above them the flags:
//!
//! | bits  | flag         | values                                       |
//! |-------|--------------|----------------------------------------------|
//! | 48    | dst register | 0 ap, 1 fp                                   |
//! | 49    | op0 register | 0 ap, 1 fp                                   |
//! | 50-52 | op1 source   | 0 op0, 1 immediate, 2 fp, 4 ap               |
//! | 53-54 | res logic    | 0 op1 (none in a conditional jump), 1 +, 2 * |
//! | 55-57 | pc update    | 0 next, 1 jump, 2 relative, 4 conditional    |
//! | 58-59 | ap update    | 0 none (2 in a call), 1 res, 2 one           |
//! | 60-62 | opcode       | 0 none, 1 call, 2 ret, 4 assert equal        |

use crate::bigint::BigInt;
use crate::errors::{outcome, Fault, VirtualMachineError};
use crate::instruction::{
    ApUpdate, FpUpdate, Instruction, InstructionView, Op1Addr, Opcode, PcUpdate, Register, Res,
};
use vstd::prelude::*;

verus! {

/// The bits of a word as an unsigned number.
pub open spec fn word_bits(word: i64) -> int {
    (word as int) % 0x1_0000_0000_0000_0000
}

/// The offset that the 16 bits of `word` above its lowest `scale` hold, `scale` being a power of
/// two.
pub open spec fn offset_field(word: i64, scale: int) -> int {
    word_bits(word) / scale % 0x1_0000 - 0x8000
}

/// The flag of `word` that takes `count` values and begins at the bit worth `scale`.
pub open spec fn flag_field(word: i64, scale: int, count: int) -> i64 {
    (word_bits(word) / scale % count) as i64
}

pub open spec fn register_of(flag: i64) -> Register {
    if flag == 1 {
        Register::FP
    } else {
        Register::AP
    }
}

pub open spec fn op1_addr_of(flag: i64) -> Result<Op1Addr, Fault> {
    if flag == 0 {
        Ok(Op1Addr::Op0)
    } else if flag == 1 {
        Ok(Op1Addr::Imm)
    } else if flag == 2 {
        Ok(Op1Addr::FP)
    } else if flag == 4 {
        Ok(Op1Addr::AP)
    } else {
        Err(Fault::InvalidOp1Reg(flag))
    }
}

pub open spec fn pc_update_of(flag: i64) -> Result<PcUpdate, Fault> {
    if flag == 0 {
        Ok(PcUpdate::Regular)
    } else if flag == 1 {
        Ok(PcUpdate::Jump)
    } else if flag == 2 {
        Ok(PcUpdate::JumpRel)
    } else if flag == 4 {
        Ok(PcUpdate::Jnz)
    } else {
        Err(Fault::InvalidPcUpdate(flag))
    }
}

pub open spec fn res_of(flag: i64, pc_update: PcUpdate) -> Result<Res, Fault> {
    if flag == 0 {
        Ok(
            if pc_update is Jnz {
                Res::Unconstrained
            } else {
                Res::Op1
            },
        )
    } else if flag == 1 {
        Ok(Res::Add)
    } else if flag == 2 {
        Ok(Res::Mul)
    } else {
        Err(Fault::InvalidRes(flag))
    }
}

pub open spec fn opcode_of(flag: i64) -> Result<Opcode, Fault> {
    if flag == 0 {
        Ok(Opcode::NOp)
    } else if flag == 1 {
        Ok(Opcode::Call)
    } else if flag == 2 {
        Ok(Opcode::Ret)
    } else if flag == 4 {
        Ok(Opcode::AssertEq)
    } else {
        Err(Fault::InvalidOpcode(flag))
    }
}

pub open spec fn ap_update_of(flag: i64, opcode: Opcode) -> Result<ApUpdate, Fault> {
    if flag == 0 {
        Ok(
            if opcode is Call {
                ApUpdate::Add2
            } else {
                ApUpdate::Regular
            },
        )
    } else if flag == 1 {
        Ok(ApUpdate::Add)
    } else if flag == 2 {
        Ok(ApUpdate::Add1)
    } else {
        Err(Fault::InvalidApUpdate(flag))
    }
}

pub open spec fn fp_update_of(opcode: Opcode) -> FpUpdate {
    match opcode {
        Opcode::Call => FpUpdate::APPlus2,
        Opcode::Ret => FpUpdate::Dst,
        _ => FpUpdate::Regular,
    }
}

/// The instruction that `word` encodes, `imm` being the integer in the cell after it; or the first
/// fault, looking at the second operand's source, the immediate value, the pc update, the result
/// logic, the opcode and the ap update in this order.
pub open spec fn decoded(word: i64, imm: Option<int>) -> Result<InstructionView, Fault> {
    match op1_addr_of(flag_field(word, 0x4_0000_0000_0000, 8)) {
        Err(fault) => Err(fault),
        Ok(op1_addr) => if op1_addr is Imm && imm is None {
            Err(Fault::NoImm)
        } else {
            match pc_update_of(flag_field(word, 0x80_0000_0000_0000, 8)) {
                Err(fault) => Err(fault),
                Ok(pc_update) => match res_of(
                    flag_field(word, 0x20_0000_0000_0000, 4),
                    pc_update,
                ) {
                    Err(fault) => Err(fault),
                    Ok(res) => match opcode_of(flag_field(word, 0x1000_0000_0000_0000, 8)) {
                        Err(fault) => Err(fault),
                        Ok(opcode) => match ap_update_of(
                            flag_field(word, 0x400_0000_0000_0000, 4),
                            opcode,
                        ) {
                            Err(fault) => Err(fault),
                            Ok(ap_update) => Ok(
                                InstructionView {
                                    off0: offset_field(word, 1),
                                    off1: offset_field(word, 0x1_0000),
                                    off2: offset_field(word, 0x1_0000_0000),
                                    imm: if op1_addr is Imm {
                                        imm
                                    } else {
                                        None
                                    },
                                    dst_register: register_of(
                                        flag_field(word, 0x1_0000_0000_0000, 2),
                                    ),
                                    op0_register: register_of(
                                        flag_field(word, 0x2_0000_0000_0000, 2),
                                    ),
                                    op1_addr,
                                    res,
                                    pc_update,
                                    ap_update,
                                    fp_update: fp_update_of(opcode),
                                    opcode,
                                },
                            ),
                        },
                    },
                },
            }
        },
    }
}

/// The bits of a word as an unsigned number.
fn bits_of(word: i64) -> (r: u64)
    ensures
        r == word_bits(word),
{
    assert(word < 0 ==> (word as u64) as int == word + 0x1_0000_0000_0000_0000) by (bit_vector);
    #[verifier::truncate]
    let bits: u64 = word as u64;
    bits
}

fn decode_offset(bits: u64) -> (r: BigInt)
    ensures
        r@ == bits % 0x1_0000 - 0x8000,
{
    let low: u64 = bits % 0x1_0000;
    let raised: i64 = low as i64;
    BigInt::from_i64(raised - 0x8000)
}

fn decode_register(flag: u64) -> (r: Register)
    ensures
        flag <= i64::MAX ==> r == register_of(flag as i64),
{
    if flag == 1 {
        Register::FP
    } else {
        Register::AP
    }
}

/// Decodes the instruction in `encoded_instr`. `imm` is the integer in the cell after it, and is
/// left out where the instruction does not use it.
pub fn decode_instruction(encoded_instr: i64, imm: Option<BigInt>) -> (r: Result<
    Instruction,
    VirtualMachineError,
>)
    ensures
        outcome(r) == decoded(encoded_instr, imm.deep_view()),
{
    let bits: u64 = bits_of(encoded_instr);
    let off0: BigInt = decode_offset(bits);
    let off1: BigInt = decode_offset(bits / 0x1_0000);
    let off2: BigInt = decode_offset(bits / 0x1_0000_0000);
    let dst_register: Register = decode_register(bits / 0x1_0000_0000_0000 % 2);
    let op0_register: Register = decode_register(bits / 0x2_0000_0000_0000 % 2);
    let op1_src: u64 = bits / 0x4_0000_0000_0000 % 8;
    let res_logic: u64 = bits / 0x20_0000_0000_0000 % 4;
    let pc_jump: u64 = bits / 0x80_0000_0000_0000 % 8;
    let ap_move: u64 = bits / 0x400_0000_0000_0000 % 4;
    let operation: u64 = bits / 0x1000_0000_0000_0000 % 8;

    let op1_addr: Op1Addr = match op1_src {
        0 => Op1Addr::Op0,
        1 => Op1Addr::Imm,
        2 => Op1Addr::FP,
        4 => Op1Addr::AP,
        _ => return Err(VirtualMachineError::InvalidOp1Reg(op1_src as i64)),
    };
    let imm: Option<BigInt> = match op1_addr {
        Op1Addr::Imm => match imm {
            Some(n) => Some(n),
            None => return Err(VirtualMachineError::NoImm),
        },
        _ => None,
    };
    let pc_update: PcUpdate = match pc_jump {
        0 => PcUpdate::Regular,
        1 => PcUpdate::Jump,
        2 => PcUpdate::JumpRel,
        4 => PcUpdate::Jnz,
        _ => return Err(VirtualMachineError::InvalidPcUpdate(pc_jump as i64)),
    };
    let res: Res = match res_logic {
        0 => match pc_update {
            PcUpdate::Jnz => Res::Unconstrained,
            _ => Res::Op1,
        },
        1 => Res::Add,
        2 => Res::Mul,
        _ => return Err(VirtualMachineError::InvalidRes(res_logic as i64)),
    };
    let opcode: Opcode = match operation {
        0 => Opcode::NOp,
        1 => Opcode::Call,
        2 => Opcode::Ret,
        4 => Opcode::AssertEq,
        _ => return Err(VirtualMachineError::InvalidOpcode(operation as i64)),
    };
    let ap_update: ApUpdate = match ap_move {
        0 => match opcode {
            Opcode::Call => ApUpdate::Add2,
            _ => ApUpdate::Regular,
        },
        1 => ApUpdate::Add,
        2 => ApUpdate::Add1,
        _ => return Err(VirtualMachineError::InvalidApUpdate(ap_move as i64)),
    };
    let fp_update: FpUpdate = match opcode {
        Opcode::Call => FpUpdate::APPlus2,
        Opcode::Ret => FpUpdate::Dst,
        _ => FpUpdate::Regular,
    };
    Ok(
        Instruction {
            off0,
            off1,
            off2,
            imm,
            dst_register,
            op0_register,
            op1_addr,
            res,
            pc_update,
            ap_update,
            fp_update,
            opcode,
        },
    )
}

} // verus!
