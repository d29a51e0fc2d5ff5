//! Decoding instructions.

use cairo_vm_core::bigint::BigInt;
use cairo_vm_core::decoder::decode_instruction;
use cairo_vm_core::errors::VirtualMachineError;
use cairo_vm_core::instruction::{
    ApUpdate, FpUpdate, Instruction, Op1Addr, Opcode, PcUpdate, Register, Res,
};

fn n(value: i64) -> BigInt {
    BigInt::from_i64(value)
}

#[test]
fn assert_eq_with_an_immediate_value() {
    // [ap] = 5; ap++
    let instruction = decode_instruction(0x480680017fff8000, Some(n(5))).unwrap();
    assert_eq!(instruction.size(), 2);
    assert_eq!(
        instruction,
        Instruction {
            off0: n(0),
            off1: n(-1),
            off2: n(1),
            imm: Some(n(5)),
            dst_register: Register::AP,
            op0_register: Register::FP,
            op1_addr: Op1Addr::Imm,
            res: Res::Op1,
            pc_update: PcUpdate::Regular,
            ap_update: ApUpdate::Add1,
            fp_update: FpUpdate::Regular,
            opcode: Opcode::AssertEq,
        }
    );
}

#[test]
fn an_integer_after_an_instruction_need_not_belong_to_it() {
    // ret
    let instruction = decode_instruction(0x208b7fff7fff7ffe, Some(n(5))).unwrap();
    assert_eq!(instruction.size(), 1);
    assert_eq!(
        instruction,
        Instruction {
            off0: n(-2),
            off1: n(-1),
            off2: n(-1),
            imm: None,
            dst_register: Register::FP,
            op0_register: Register::FP,
            op1_addr: Op1Addr::FP,
            res: Res::Op1,
            pc_update: PcUpdate::Jump,
            ap_update: ApUpdate::Regular,
            fp_update: FpUpdate::Dst,
            opcode: Opcode::Ret,
        }
    );
}

#[test]
fn a_call_moves_ap_by_two() {
    // call rel -5
    let instruction = decode_instruction(0x1104800180018000, Some(n(-5))).unwrap();
    assert_eq!(
        instruction,
        Instruction {
            off0: n(0),
            off1: n(1),
            off2: n(1),
            imm: Some(n(-5)),
            dst_register: Register::AP,
            op0_register: Register::AP,
            op1_addr: Op1Addr::Imm,
            res: Res::Op1,
            pc_update: PcUpdate::JumpRel,
            ap_update: ApUpdate::Add2,
            fp_update: FpUpdate::APPlus2,
            opcode: Opcode::Call,
        }
    );
}

#[test]
fn a_conditional_jump_has_no_result() {
    let instruction = decode_instruction(0x206800180018001, Some(n(4))).unwrap();
    assert_eq!(instruction.res, Res::Unconstrained);
    assert_eq!(instruction.pc_update, PcUpdate::Jnz);
}

#[test]
fn results_can_be_sums_and_products() {
    // [ap] = [ap - 1] + [fp - 1] and [ap] = [ap - 1] * [ap - 2]
    let sum = decode_instruction(0x40287fff7fff8000, None).unwrap();
    assert_eq!(sum.res, Res::Add);
    assert_eq!(sum.op1_addr, Op1Addr::FP);
    let product = decode_instruction(0x40507ffe7fff8000, None).unwrap();
    assert_eq!(product.res, Res::Mul);
    assert_eq!(product.op1_addr, Op1Addr::AP);
}

#[test]
fn extreme_offsets() {
    let lowest = decode_instruction(0x0000_0000_0000_0000, None).unwrap();
    assert_eq!(lowest.off0, n(-0x8000));
    assert_eq!(lowest.op1_addr, Op1Addr::Op0);
    let highest = decode_instruction(0x0000_ffff_ffff_ffff, None).unwrap();
    assert_eq!(highest.off2, n(0x7fff));
}

#[test]
fn the_top_bit_is_not_looked_at() {
    let word: i64 = 0x208b7fff7fff7ffe;
    assert_eq!(decode_instruction(word + i64::MIN, None), decode_instruction(word, None));
}

#[test]
fn flags_that_mean_nothing_are_refused() {
    let word = |bit: u32, flag: i64| flag << bit;
    assert_eq!(
        decode_instruction(word(50, 3), None),
        Err(VirtualMachineError::InvalidOp1Reg(3))
    );
    assert_eq!(
        decode_instruction(word(55, 3), None),
        Err(VirtualMachineError::InvalidPcUpdate(3))
    );
    assert_eq!(
        decode_instruction(word(53, 3), None),
        Err(VirtualMachineError::InvalidRes(3))
    );
    assert_eq!(
        decode_instruction(word(60, 3), None),
        Err(VirtualMachineError::InvalidOpcode(3))
    );
    assert_eq!(
        decode_instruction(word(58, 3), None),
        Err(VirtualMachineError::InvalidApUpdate(3))
    );
}

#[test]
fn an_immediate_value_must_be_there() {
    assert_eq!(
        decode_instruction(0x480680017fff8000, None),
        Err(VirtualMachineError::NoImm)
    );
}
