//! What holds of decoding: it undoes encoding.

use crate::decoder::{decoded, flag_field, offset_field, word_bits};
use crate::errors::Fault;
use crate::instruction::InstructionView;
use vstd::prelude::*;

verus! {

/// What the bits of a word are made of: three offsets and seven flags.
pub struct Encoding {
    pub off0: int,
    pub off1: int,
    pub off2: int,
    pub dst_reg: int,
    pub op0_reg: int,
    pub op1_src: int,
    pub res_logic: int,
    pub pc_jump: int,
    pub ap_move: int,
    pub operation: int,
}

impl Encoding {
    /// Each part fits its bits.
    pub open spec fn fits(self) -> bool {
        &&& -0x8000 <= self.off0 < 0x8000
        &&& -0x8000 <= self.off1 < 0x8000
        &&& -0x8000 <= self.off2 < 0x8000
        &&& 0 <= self.dst_reg < 2
        &&& 0 <= self.op0_reg < 2
        &&& 0 <= self.op1_src < 8
        &&& 0 <= self.res_logic < 4
        &&& 0 <= self.pc_jump < 8
        &&& 0 <= self.ap_move < 4
        &&& 0 <= self.operation < 8
    }

    /// The flags, packed.
    pub open spec fn flags(self) -> int {
        self.dst_reg + 2 * (self.op0_reg + 2 * (self.op1_src + 8 * (self.res_logic + 4 * (
        self.pc_jump + 8 * (self.ap_move + 4 * self.operation)))))
    }

    /// The parts, packed into a word.
    pub open spec fn word(self) -> int {
        (self.off0 + 0x8000) + 0x1_0000 * ((self.off1 + 0x8000) + 0x1_0000 * ((self.off2 + 0x8000)
            + 0x1_0000 * self.flags()))
    }

    /// The second operand's source, the pc update, the result logic, the operation and the ap update
    /// are among those that mean something.
    pub open spec fn has_op1_src(self) -> bool {
        self.op1_src == 0 || self.op1_src == 1 || self.op1_src == 2 || self.op1_src == 4
    }

    pub open spec fn has_pc_jump(self) -> bool {
        self.pc_jump == 0 || self.pc_jump == 1 || self.pc_jump == 2 || self.pc_jump == 4
    }

    pub open spec fn has_res_logic(self) -> bool {
        self.res_logic != 3
    }

    pub open spec fn has_operation(self) -> bool {
        self.operation == 0 || self.operation == 1 || self.operation == 2 || self.operation == 4
    }

    pub open spec fn has_ap_move(self) -> bool {
        self.ap_move != 3
    }
}

/// `i` is what the parts of `e` mean, with the immediate value `imm`.
pub open spec fn means(e: Encoding, imm: Option<int>, i: InstructionView) -> bool {
    &&& i.off0 == e.off0 && i.off1 == e.off1 && i.off2 == e.off2
    &&& i.dst_register is FP <==> e.dst_reg == 1
    &&& i.op0_register is FP <==> e.op0_reg == 1
    &&& i.op1_addr is Op0 <==> e.op1_src == 0
    &&& i.op1_addr is Imm <==> e.op1_src == 1
    &&& i.op1_addr is FP <==> e.op1_src == 2
    &&& i.op1_addr is AP <==> e.op1_src == 4
    &&& i.imm == if e.op1_src == 1 {
        imm
    } else {
        None
    }
    &&& i.size() == if e.op1_src == 1 {
        2usize
    } else {
        1usize
    }
    &&& i.pc_update is Regular <==> e.pc_jump == 0
    &&& i.pc_update is Jump <==> e.pc_jump == 1
    &&& i.pc_update is JumpRel <==> e.pc_jump == 2
    &&& i.pc_update is Jnz <==> e.pc_jump == 4
    &&& i.res is Op1 <==> e.res_logic == 0 && e.pc_jump != 4
    &&& i.res is Unconstrained <==> e.res_logic == 0 && e.pc_jump == 4
    &&& i.res is Add <==> e.res_logic == 1
    &&& i.res is Mul <==> e.res_logic == 2
    &&& i.opcode is NOp <==> e.operation == 0
    &&& i.opcode is Call <==> e.operation == 1
    &&& i.opcode is Ret <==> e.operation == 2
    &&& i.opcode is AssertEq <==> e.operation == 4
    &&& i.ap_update is Regular <==> e.ap_move == 0 && e.operation != 1
    &&& i.ap_update is Add2 <==> e.ap_move == 0 && e.operation == 1
    &&& i.ap_update is Add <==> e.ap_move == 1
    &&& i.ap_update is Add1 <==> e.ap_move == 2
    &&& i.fp_update is APPlus2 <==> e.operation == 1
    &&& i.fp_update is Dst <==> e.operation == 2
}

/// The parts come out of the word again.
proof fn lemma_parts(e: Encoding)
    requires
        (Encoding { operation: 0, ..e }).fits(),
        0 <= e.operation < 16,
    ensures
        0 <= e.word() < 0x1_0000_0000_0000_0000,
        e.operation < 8 ==> e.word() < 0x8000_0000_0000_0000,
        e.word() % 0x1_0000 == e.off0 + 0x8000,
        e.word() / 0x1_0000 % 0x1_0000 == e.off1 + 0x8000,
        e.word() / 0x1_0000_0000 % 0x1_0000 == e.off2 + 0x8000,
        e.word() / 0x1_0000_0000_0000 % 2 == e.dst_reg,
        e.word() / 0x2_0000_0000_0000 % 2 == e.op0_reg,
        e.word() / 0x4_0000_0000_0000 % 8 == e.op1_src,
        e.word() / 0x20_0000_0000_0000 % 4 == e.res_logic,
        e.word() / 0x80_0000_0000_0000 % 8 == e.pc_jump,
        e.word() / 0x400_0000_0000_0000 % 4 == e.ap_move,
        e.word() / 0x1000_0000_0000_0000 == e.operation,
{
    let f6 = e.ap_move + 4 * e.operation;
    let f5 = e.pc_jump + 8 * f6;
    let f4 = e.res_logic + 4 * f5;
    let f3 = e.op1_src + 8 * f4;
    let f2 = e.op0_reg + 2 * f3;
    let f1 = e.dst_reg + 2 * f2;
    let w2 = (e.off2 + 0x8000) + 0x1_0000 * f1;
    let w1 = (e.off1 + 0x8000) + 0x1_0000 * w2;
    let w = (e.off0 + 0x8000) + 0x1_0000 * w1;
    assert(w == e.word());
    assert(w / 0x1_0000 == w1);
    assert(w / 0x1_0000_0000 == w2);
    assert(w / 0x1_0000_0000_0000 == f1);
    assert(w / 0x2_0000_0000_0000 == f2);
    assert(w / 0x4_0000_0000_0000 == f3);
    assert(w / 0x20_0000_0000_0000 == f4);
    assert(w / 0x80_0000_0000_0000 == f5);
    assert(w / 0x400_0000_0000_0000 == f6);
    assert(w / 0x1000_0000_0000_0000 == e.operation);
}

/// Decoding undoes encoding: a word gives the instruction that its parts mean, or names the first
/// part that means nothing.
pub proof fn law_decoding_undoes_encoding(e: Encoding, imm: Option<int>)
    requires
        e.fits(),
    ensures
        match decoded(e.word() as i64, imm) {
            Ok(i) => means(e, imm, i),
            Err(Fault::InvalidOp1Reg(flag)) => flag == e.op1_src && !e.has_op1_src(),
            Err(Fault::NoImm) => e.op1_src == 1 && imm is None,
            Err(Fault::InvalidPcUpdate(flag)) => {
                &&& e.has_op1_src() && (e.op1_src == 1 ==> imm is Some)
                &&& flag == e.pc_jump && !e.has_pc_jump()
            },
            Err(Fault::InvalidRes(flag)) => {
                &&& e.has_op1_src() && (e.op1_src == 1 ==> imm is Some) && e.has_pc_jump()
                &&& flag == e.res_logic && !e.has_res_logic()
            },
            Err(Fault::InvalidOpcode(flag)) => {
                &&& e.has_op1_src() && (e.op1_src == 1 ==> imm is Some) && e.has_pc_jump()
                &&& e.has_res_logic()
                &&& flag == e.operation && !e.has_operation()
            },
            Err(Fault::InvalidApUpdate(flag)) => {
                &&& e.has_op1_src() && (e.op1_src == 1 ==> imm is Some) && e.has_pc_jump()
                &&& e.has_res_logic() && e.has_operation()
                &&& flag == e.ap_move && !e.has_ap_move()
            },
            Err(_) => false,
        },
        decoded(e.word() as i64, imm) is Ok ==> e.has_op1_src() && e.has_pc_jump()
            && e.has_res_logic() && e.has_operation() && e.has_ap_move() && (e.op1_src == 1
            ==> imm is Some),
{
    lemma_parts(e);
    assert(word_bits(e.word() as i64) == e.word());
}

/// Every word that is not negative is an encoding.
pub proof fn law_every_word_is_an_encoding(word: i64) -> (e: Encoding)
    requires
        word >= 0,
    ensures
        e.fits(),
        e.word() == word,
{
    let w = word as int;
    let w1 = w / 0x1_0000;
    let w2 = w1 / 0x1_0000;
    let f1 = w2 / 0x1_0000;
    let f2 = f1 / 2;
    let f3 = f2 / 2;
    let f4 = f3 / 8;
    let f5 = f4 / 4;
    let f6 = f5 / 8;
    Encoding {
        off0: w % 0x1_0000 - 0x8000,
        off1: w1 % 0x1_0000 - 0x8000,
        off2: w2 % 0x1_0000 - 0x8000,
        dst_reg: f1 % 2,
        op0_reg: f2 % 2,
        op1_src: f3 % 8,
        res_logic: f4 % 4,
        pc_jump: f5 % 8,
        ap_move: f6 % 4,
        operation: f6 / 4,
    }
}

/// The parts of a word do not depend on its sign.
proof fn lemma_parts_without_sign(word: i64, signed: i64)
    requires
        word >= 0,
        signed == word + i64::MIN,
    ensures
        offset_field(signed, 1) == offset_field(word, 1),
        offset_field(signed, 0x1_0000) == offset_field(word, 0x1_0000),
        offset_field(signed, 0x1_0000_0000) == offset_field(word, 0x1_0000_0000),
        flag_field(signed, 0x1_0000_0000_0000, 2) == flag_field(word, 0x1_0000_0000_0000, 2),
        flag_field(signed, 0x2_0000_0000_0000, 2) == flag_field(word, 0x2_0000_0000_0000, 2),
        flag_field(signed, 0x4_0000_0000_0000, 8) == flag_field(word, 0x4_0000_0000_0000, 8),
        flag_field(signed, 0x20_0000_0000_0000, 4) == flag_field(word, 0x20_0000_0000_0000, 4),
        flag_field(signed, 0x80_0000_0000_0000, 8) == flag_field(word, 0x80_0000_0000_0000, 8),
        flag_field(signed, 0x400_0000_0000_0000, 4) == flag_field(word, 0x400_0000_0000_0000, 4),
        flag_field(signed, 0x1000_0000_0000_0000, 8) == flag_field(word, 0x1000_0000_0000_0000, 8),
{
    let e = law_every_word_is_an_encoding(word);
    let other = Encoding { operation: e.operation + 8, ..e };
    lemma_parts(e);
    lemma_parts(other);
    assert(other.word() == word + 0x8000_0000_0000_0000);
    assert(word_bits(signed) == other.word());
    assert(word_bits(word) == e.word());
    assert(other.operation % 8 == e.operation % 8);
}

/// The sign of a word says nothing.
pub proof fn law_the_top_bit_is_not_looked_at(word: i64, imm: Option<int>)
    requires
        word >= 0,
    ensures
        decoded((word + i64::MIN) as i64, imm) == decoded(word, imm),
{
    lemma_parts_without_sign(word, (word + i64::MIN) as i64);
}

} // verus!
