use vstd::prelude::*;
use crate::hart::instruction::Extensions;
use crate::hart::instruction::Instruction;
use crate::hart::instruction::types::Csr;
use crate::hart::instruction::types::FenceMode;
use crate::hart::instruction::types::FenceSet;
use crate::hart::instruction::types::Int12;
use crate::hart::instruction::types::Int13Trunc1;
use crate::hart::instruction::types::Int21Trunc1;
use crate::hart::instruction::types::Int32Trunc12;
use crate::hart::instruction::types::OpCode;
use crate::hart::instruction::types::UInt5;
use crate::hart::register::Reg;

verus! {

/// Bits 6:0.
pub open spec fn opcode_bits(w: u32) -> u32 {
    w & 0x7f
}

/// Bits 11:7.
pub open spec fn rd_bits(w: u32) -> u32 {
    (w >> 7) & 0x1f
}

/// Bits 14:12.
pub open spec fn funct3_bits(w: u32) -> u32 {
    (w >> 12) & 7
}

/// Bits 19:15.
pub open spec fn rs1_bits(w: u32) -> u32 {
    (w >> 15) & 0x1f
}

/// Bits 24:20.
pub open spec fn rs2_bits(w: u32) -> u32 {
    (w >> 20) & 0x1f
}

/// Bits 31:25.
pub open spec fn funct7_bits(w: u32) -> u32 {
    (w >> 25) & 0x7f
}

/// Bits 31:27.
pub open spec fn funct5_bits(w: u32) -> u32 {
    (w >> 27) & 0x1f
}

/// Bits 31:20.
pub open spec fn funct12_bits(w: u32) -> u32 {
    (w >> 20) & 0xfff
}

/// The immediate of the I format: bits 31:20, sign-extended.
pub open spec fn imm_i_bits(w: u32) -> i32 {
    (w as i32) >> 20
}

/// The immediate of the S format: bits 31:25 over bits 11:7, sign-extended.
pub open spec fn imm_s_bits(w: u32) -> i32 {
    (((w & 0xfe000000) as i32) >> 20) | (((w & 0xf80) >> 7) as i32)
}

/// The immediate of the B format: bit 31, bit 7, bits 30:25, bits 11:8 and a zero, sign-extended.
pub open spec fn imm_b_bits(w: u32) -> i32 {
    (((w & 0x80000000) as i32) >> 19) | (((w & 0x80) << 4) as i32) | (((w & 0x7e000000) >> 20) as i32)
        | (((w & 0xf00) >> 7) as i32)
}

/// The immediate of the U format: bits 31:12 over twelve zeros.
pub open spec fn imm_u_bits(w: u32) -> i32 {
    (w & 0xfffff000) as i32
}

/// The immediate of the J format: bit 31, bits 19:12, bit 20, bits 30:21 and a zero, sign-extended.
pub open spec fn imm_j_bits(w: u32) -> i32 {
    (((w & 0x80000000) as i32) >> 11) | ((w & 0x000ff000) as i32) | (((w & 0x00100000) >> 9) as i32)
        | (((w & 0x7fe00000) >> 20) as i32)
}

/// Bit 26 of an atomic instruction: acquire.
pub open spec fn aq_bit(w: u32) -> bool {
    w & 0x0400_0000 != 0
}

/// Bit 25 of an atomic instruction: release.
pub open spec fn rl_bit(w: u32) -> bool {
    w & 0x0200_0000 != 0
}

/// Bits 27:24 of a fence: what must come before.
pub open spec fn pred_bits(w: u32) -> u32 {
    (w >> 24) & 15
}

/// Bits 23:20 of a fence: what must come after.
pub open spec fn succ_bits(w: u32) -> u32 {
    (w >> 20) & 15
}

/// Bits 31:28 of a fence: its mode.
pub open spec fn fm_bits(w: u32) -> u32 {
    (w >> 28) & 15
}

/// The destination register; `X0` is written as `Ignore`.
pub open spec fn spec_rd(w: u32) -> Reg {
    if rd_bits(w) == 0 {
        Reg::Ignore
    } else {
        Reg::spec_from_u32(rd_bits(w))
    }
}

pub open spec fn spec_rs1(w: u32) -> Reg {
    Reg::spec_from_u32(rs1_bits(w))
}

pub open spec fn spec_rs2(w: u32) -> Reg {
    Reg::spec_from_u32(rs2_bits(w))
}

pub open spec fn spec_shamt(w: u32) -> UInt5 {
    UInt5::spec_new(rs2_bits(w) as int)
}

pub open spec fn spec_uimm(w: u32) -> UInt5 {
    UInt5::spec_new(rs1_bits(w) as int)
}

pub open spec fn spec_csr(w: u32) -> Csr {
    Csr::spec_new(funct12_bits(w) as int)
}

pub open spec fn spec_imm_i(w: u32) -> Int12 {
    Int12::spec_new(imm_i_bits(w) as int)
}

pub open spec fn spec_imm_s(w: u32) -> Int12 {
    Int12::spec_new(imm_s_bits(w) as int)
}

pub open spec fn spec_imm_b(w: u32) -> Int13Trunc1 {
    Int13Trunc1::spec_new(imm_b_bits(w) as int)
}

pub open spec fn spec_imm_u(w: u32) -> Int32Trunc12 {
    Int32Trunc12::spec_new(imm_u_bits(w) as int)
}

pub open spec fn spec_imm_j(w: u32) -> Int21Trunc1 {
    Int21Trunc1::spec_new(imm_j_bits(w) as int)
}

pub open spec fn spec_pred(w: u32) -> FenceSet {
    FenceSet::spec_new(pred_bits(w) as int)
}

pub open spec fn spec_succ(w: u32) -> FenceSet {
    FenceSet::spec_new(succ_bits(w) as int)
}

pub open spec fn spec_mode(w: u32) -> FenceMode {
    FenceMode::spec_new(fm_bits(w) as u8)
}

/// Every field lies in the range of its width, and every immediate in the range of its type.
pub proof fn lemma_field_ranges(w: u32)
    by (bit_vector)
    ensures
        opcode_bits(w) < 128,
        rd_bits(w) < 32,
        funct3_bits(w) < 8,
        rs1_bits(w) < 32,
        rs2_bits(w) < 32,
        funct7_bits(w) < 128,
        funct5_bits(w) < 32,
        funct12_bits(w) < 4096,
        pred_bits(w) < 16,
        succ_bits(w) < 16,
        fm_bits(w) < 16,
        -2048 <= imm_i_bits(w) < 2048,
        -2048 <= imm_s_bits(w) < 2048,
        -4096 <= imm_b_bits(w) < 4096,
        (imm_b_bits(w) as int) % 2 == 0,
        (imm_u_bits(w) as int) % 4096 == 0,
        -0x10_0000 <= imm_j_bits(w) < 0x10_0000,
        (imm_j_bits(w) as int) % 2 == 0,
{
}

/// The instruction of the load class that `w` encodes.
pub open spec fn decode_load(w: u32) -> Instruction {
    let rd = spec_rd(w);
    let rs1 = spec_rs1(w);
    let imm = spec_imm_i(w);
    let f3 = funct3_bits(w);
    if f3 == 0 {
        Instruction::Lb { rd, rs1, imm }
    } else if f3 == 1 {
        Instruction::Lh { rd, rs1, imm }
    } else if f3 == 2 {
        Instruction::Lw { rd, rs1, imm }
    } else if f3 == 4 {
        Instruction::Lbu { rd, rs1, imm }
    } else if f3 == 5 {
        Instruction::Lhu { rd, rs1, imm }
    } else {
        Instruction::Invalid { raw: w }
    }
}

/// The fence that `w` encodes. The instruction fence keeps none of its fields.
pub open spec fn decode_misc_mem(w: u32, ext: Extensions) -> Instruction {
    let f3 = funct3_bits(w);
    if f3 == 0 {
        Instruction::Fence {
            rd: spec_rd(w),
            rs1: spec_rs1(w),
            pred: spec_pred(w),
            succ: spec_succ(w),
            mode: spec_mode(w),
        }
    } else if f3 == 1 && ext.zifencei {
        Instruction::Fencei { rd: Reg::Ignore, rs1: Reg::Ignore, imm: Int12::spec_new(0) }
    } else {
        Instruction::Invalid { raw: w }
    }
}

/// The register-immediate instruction that `w` encodes.
pub open spec fn decode_op_imm(w: u32) -> Instruction {
    let rd = spec_rd(w);
    let rs1 = spec_rs1(w);
    let imm = spec_imm_i(w);
    let shamt = spec_shamt(w);
    let f3 = funct3_bits(w);
    let f7 = funct7_bits(w);
    if f3 == 0 {
        Instruction::Addi { rd, rs1, imm }
    } else if f3 == 2 {
        Instruction::Slti { rd, rs1, imm }
    } else if f3 == 3 {
        Instruction::Sltiu { rd, rs1, imm }
    } else if f3 == 4 {
        Instruction::Xori { rd, rs1, imm }
    } else if f3 == 6 {
        Instruction::Ori { rd, rs1, imm }
    } else if f3 == 7 {
        Instruction::Andi { rd, rs1, imm }
    } else if f3 == 1 && f7 == 0 {
        Instruction::Slli { rd, rs1, shamt }
    } else if f3 == 5 && f7 == 0 {
        Instruction::Srli { rd, rs1, shamt }
    } else if f3 == 5 && f7 == 0x20 {
        Instruction::Srai { rd, rs1, shamt }
    } else {
        Instruction::Invalid { raw: w }
    }
}

/// The store that `w` encodes.
pub open spec fn decode_store(w: u32) -> Instruction {
    let rs1 = spec_rs1(w);
    let rs2 = spec_rs2(w);
    let imm = spec_imm_s(w);
    let f3 = funct3_bits(w);
    if f3 == 0 {
        Instruction::Sb { rs1, rs2, imm }
    } else if f3 == 1 {
        Instruction::Sh { rs1, rs2, imm }
    } else if f3 == 2 {
        Instruction::Sw { rs1, rs2, imm }
    } else {
        Instruction::Invalid { raw: w }
    }
}

/// The atomic instruction that `w` encodes: words only, and only with the extension.
pub open spec fn decode_amo(w: u32, ext: Extensions) -> Instruction {
    let rd = spec_rd(w);
    let rs1 = spec_rs1(w);
    let rs2 = spec_rs2(w);
    let aq = aq_bit(w);
    let rl = rl_bit(w);
    let f5 = funct5_bits(w);
    if !ext.a || funct3_bits(w) != 2 {
        Instruction::Invalid { raw: w }
    } else if f5 == 0b00010 {
        Instruction::Lrw { rd, rs1, aq, rl }
    } else if f5 == 0b00011 {
        Instruction::Scw { rd, rs1, rs2, aq, rl }
    } else if f5 == 0b00001 {
        Instruction::AmoSwapw { rd, rs1, rs2, aq, rl }
    } else if f5 == 0b00000 {
        Instruction::AmoAddw { rd, rs1, rs2, aq, rl }
    } else if f5 == 0b00100 {
        Instruction::AmoXorw { rd, rs1, rs2, aq, rl }
    } else if f5 == 0b01100 {
        Instruction::AmoAndw { rd, rs1, rs2, aq, rl }
    } else if f5 == 0b01000 {
        Instruction::AmoOrw { rd, rs1, rs2, aq, rl }
    } else if f5 == 0b10000 {
        Instruction::AmoMinw { rd, rs1, rs2, aq, rl }
    } else if f5 == 0b10100 {
        Instruction::AmoMaxw { rd, rs1, rs2, aq, rl }
    } else if f5 == 0b11000 {
        Instruction::AmoMinuw { rd, rs1, rs2, aq, rl }
    } else if f5 == 0b11100 {
        Instruction::AmoMaxuw { rd, rs1, rs2, aq, rl }
    } else {
        Instruction::Invalid { raw: w }
    }
}

/// The register-register instruction that `w` encodes.
pub open spec fn decode_op(w: u32, ext: Extensions) -> Instruction {
    let rd = spec_rd(w);
    let rs1 = spec_rs1(w);
    let rs2 = spec_rs2(w);
    let f3 = funct3_bits(w);
    let f7 = funct7_bits(w);
    if f7 == 0 {
        if f3 == 0 {
            Instruction::Add { rd, rs1, rs2 }
        } else if f3 == 1 {
            Instruction::Sll { rd, rs1, rs2 }
        } else if f3 == 2 {
            Instruction::Slt { rd, rs1, rs2 }
        } else if f3 == 3 {
            Instruction::Sltu { rd, rs1, rs2 }
        } else if f3 == 4 {
            Instruction::Xor { rd, rs1, rs2 }
        } else if f3 == 5 {
            Instruction::Srl { rd, rs1, rs2 }
        } else if f3 == 6 {
            Instruction::Or { rd, rs1, rs2 }
        } else {
            Instruction::And { rd, rs1, rs2 }
        }
    } else if f7 == 0x20 && f3 == 0 {
        Instruction::Sub { rd, rs1, rs2 }
    } else if f7 == 0x20 && f3 == 5 {
        Instruction::Sra { rd, rs1, rs2 }
    } else if f7 == 1 && ext.m {
        if f3 == 0 {
            Instruction::Mul { rd, rs1, rs2 }
        } else if f3 == 1 {
            Instruction::Mulh { rd, rs1, rs2 }
        } else if f3 == 2 {
            Instruction::Mulhsu { rd, rs1, rs2 }
        } else if f3 == 3 {
            Instruction::Mulhu { rd, rs1, rs2 }
        } else if f3 == 4 {
            Instruction::Div { rd, rs1, rs2 }
        } else if f3 == 5 {
            Instruction::Divu { rd, rs1, rs2 }
        } else if f3 == 6 {
            Instruction::Rem { rd, rs1, rs2 }
        } else {
            Instruction::Remu { rd, rs1, rs2 }
        }
    } else {
        Instruction::Invalid { raw: w }
    }
}

/// The conditional branch that `w` encodes.
pub open spec fn decode_branch(w: u32) -> Instruction {
    let rs1 = spec_rs1(w);
    let rs2 = spec_rs2(w);
    let imm = spec_imm_b(w);
    let f3 = funct3_bits(w);
    if f3 == 0 {
        Instruction::Beq { rs1, rs2, imm }
    } else if f3 == 1 {
        Instruction::Bne { rs1, rs2, imm }
    } else if f3 == 4 {
        Instruction::Blt { rs1, rs2, imm }
    } else if f3 == 5 {
        Instruction::Bge { rs1, rs2, imm }
    } else if f3 == 6 {
        Instruction::Bltu { rs1, rs2, imm }
    } else if f3 == 7 {
        Instruction::Bgeu { rs1, rs2, imm }
    } else {
        Instruction::Invalid { raw: w }
    }
}

/// The system instruction that `w` encodes.
pub open spec fn decode_system(w: u32, ext: Extensions) -> Instruction {
    let rd = spec_rd(w);
    let rs1 = spec_rs1(w);
    let csr = spec_csr(w);
    let uimm = spec_uimm(w);
    let f3 = funct3_bits(w);
    if f3 == 0 {
        if funct12_bits(w) == 0 {
            Instruction::Ecall
        } else if funct12_bits(w) == 1 {
            Instruction::Ebreak
        } else {
            Instruction::Invalid { raw: w }
        }
    } else if f3 == 4 || !ext.zicsr {
        Instruction::Invalid { raw: w }
    } else if f3 == 1 {
        Instruction::CsrRw { rd, rs1, csr }
    } else if f3 == 2 {
        Instruction::CsrRs { rd, rs1, csr }
    } else if f3 == 3 {
        Instruction::CsrRc { rd, rs1, csr }
    } else if f3 == 5 {
        Instruction::CsrRwi { rd, uimm, csr }
    } else if f3 == 6 {
        Instruction::CsrRsi { rd, uimm, csr }
    } else {
        Instruction::CsrRci { rd, uimm, csr }
    }
}

/// The instruction that the word `w` encodes for a hart with the extensions `ext`.
pub open spec fn decode_spec(w: u32, ext: Extensions) -> Instruction {
    match OpCode::spec_from_u32(opcode_bits(w)) {
        OpCode::Load => decode_load(w),
        OpCode::MiscMem => decode_misc_mem(w, ext),
        OpCode::OpImm => decode_op_imm(w),
        OpCode::Auipc => Instruction::Auipc { rd: spec_rd(w), imm: spec_imm_u(w) },
        OpCode::Store => decode_store(w),
        OpCode::Amo => decode_amo(w, ext),
        OpCode::Op => decode_op(w, ext),
        OpCode::Lui => Instruction::Lui { rd: spec_rd(w), imm: spec_imm_u(w) },
        OpCode::Branch => decode_branch(w),
        OpCode::Jalr => if funct3_bits(w) == 0 {
            Instruction::Jalr { rd: spec_rd(w), rs1: spec_rs1(w), imm: spec_imm_i(w) }
        } else {
            Instruction::Invalid { raw: w }
        },
        OpCode::Jal => Instruction::Jal { rd: spec_rd(w), imm: spec_imm_j(w) },
        OpCode::System => decode_system(w, ext),
        OpCode::Invalid => Instruction::Invalid { raw: w },
    }
}

/// Reads the fields of one instruction word.
pub struct Decoder {
    raw: u32,
}

impl Decoder {
    pub closed spec fn word(&self) -> u32 {
        self.raw
    }

    pub fn new(raw: u32) -> (d: Decoder)
        ensures
            d.word() == raw,
    {
        Decoder { raw }
    }

    pub fn opcode(&self) -> (op: OpCode)
        ensures
            op == OpCode::spec_from_u32(opcode_bits(self.word())),
    {
        OpCode::from_u32(self.raw & 0x7f)
    }

    pub fn rd(&self) -> (r: Reg)
        ensures
            r == spec_rd(self.word()),
    {
        proof {
            lemma_field_ranges(self.raw);
        }
        let n: u32 = (self.raw >> 7) & 0x1f;
        if n == 0 {
            Reg::Ignore
        } else {
            Reg::from_u32(n)
        }
    }

    pub fn funct3(&self) -> (f: u32)
        ensures
            f == funct3_bits(self.word()),
            f < 8,
    {
        proof {
            lemma_field_ranges(self.raw);
        }
        (self.raw >> 12) & 7
    }

    pub fn funct5(&self) -> (f: u32)
        ensures
            f == funct5_bits(self.word()),
            f < 32,
    {
        proof {
            lemma_field_ranges(self.raw);
        }
        (self.raw >> 27) & 0x1f
    }

    pub fn funct7(&self) -> (f: u32)
        ensures
            f == funct7_bits(self.word()),
            f < 128,
    {
        proof {
            lemma_field_ranges(self.raw);
        }
        (self.raw >> 25) & 0x7f
    }

    pub fn funct12(&self) -> (f: u32)
        ensures
            f == funct12_bits(self.word()),
            f < 4096,
    {
        proof {
            lemma_field_ranges(self.raw);
        }
        (self.raw >> 20) & 0xfff
    }

    pub fn rs1(&self) -> (r: Reg)
        ensures
            r == spec_rs1(self.word()),
    {
        proof {
            lemma_field_ranges(self.raw);
        }
        Reg::from_u32((self.raw >> 15) & 0x1f)
    }

    pub fn rs2(&self) -> (r: Reg)
        ensures
            r == spec_rs2(self.word()),
    {
        proof {
            lemma_field_ranges(self.raw);
        }
        Reg::from_u32((self.raw >> 20) & 0x1f)
    }

    pub fn shamt(&self) -> (s: UInt5)
        ensures
            s == spec_shamt(self.word()),
    {
        proof {
            lemma_field_ranges(self.raw);
        }
        UInt5::new((self.raw >> 20) & 0x1f)
    }

    pub fn imm_i(&self) -> (imm: Int12)
        ensures
            imm == spec_imm_i(self.word()),
    {
        proof {
            lemma_field_ranges(self.raw);
        }
        Int12::new((self.raw as i32) >> 20)
    }

    pub fn imm_s(&self) -> (imm: Int12)
        ensures
            imm == spec_imm_s(self.word()),
    {
        proof {
            lemma_field_ranges(self.raw);
        }
        let upper: u32 = self.raw & 0xfe000000;
        let lower: u32 = self.raw & 0xf80;
        Int12::new(((upper as i32) >> 20) | ((lower >> 7) as i32))
    }

    pub fn imm_j(&self) -> (imm: Int21Trunc1)
        ensures
            imm == spec_imm_j(self.word()),
    {
        proof {
            lemma_field_ranges(self.raw);
        }
        let imm20: u32 = self.raw & 0x80000000;
        let imm10_1: u32 = self.raw & 0x7fe00000;
        let imm11: u32 = self.raw & 0x00100000;
        let imm19_12: u32 = self.raw & 0x000ff000;
        Int21Trunc1::new(
            ((imm20 as i32) >> 11) | (imm19_12 as i32) | ((imm11 >> 9) as i32) | ((imm10_1 >> 20) as i32),
        )
    }

    pub fn imm_b(&self) -> (imm: Int13Trunc1)
        ensures
            imm == spec_imm_b(self.word()),
    {
        proof {
            lemma_field_ranges(self.raw);
        }
        let imm12: u32 = self.raw & 0x80000000;
        let imm10_5: u32 = self.raw & 0x7e000000;
        let imm4_1: u32 = self.raw & 0xf00;
        let imm11: u32 = self.raw & 0x80;
        Int13Trunc1::new(
            ((imm12 as i32) >> 19) | ((imm11 << 4) as i32) | ((imm10_5 >> 20) as i32) | ((imm4_1 >> 7) as i32),
        )
    }

    pub fn imm_u(&self) -> (imm: Int32Trunc12)
        ensures
            imm == spec_imm_u(self.word()),
    {
        proof {
            lemma_field_ranges(self.raw);
        }
        Int32Trunc12::new((self.raw & 0xfffff000) as i32)
    }

    pub fn csr(&self) -> (c: Csr)
        ensures
            c == spec_csr(self.word()),
    {
        proof {
            lemma_field_ranges(self.raw);
        }
        Csr::new((self.raw >> 20) & 0xfff)
    }

    pub fn uimm(&self) -> (u: UInt5)
        ensures
            u == spec_uimm(self.word()),
    {
        proof {
            lemma_field_ranges(self.raw);
        }
        UInt5::new((self.raw >> 15) & 0x1f)
    }

    pub fn aq(&self) -> (b: bool)
        ensures
            b == aq_bit(self.word()),
    {
        self.raw & 0x0400_0000 != 0
    }

    pub fn rl(&self) -> (b: bool)
        ensures
            b == rl_bit(self.word()),
    {
        self.raw & 0x0200_0000 != 0
    }

    pub fn pred(&self) -> (s: FenceSet)
        ensures
            s == spec_pred(self.word()),
    {
        proof {
            lemma_field_ranges(self.raw);
        }
        FenceSet::new(((self.raw >> 24) & 15) as u8)
    }

    pub fn succ(&self) -> (s: FenceSet)
        ensures
            s == spec_succ(self.word()),
    {
        proof {
            lemma_field_ranges(self.raw);
        }
        FenceSet::new(((self.raw >> 20) & 15) as u8)
    }

    pub fn mode(&self) -> (m: FenceMode)
        ensures
            m == spec_mode(self.word()),
    {
        proof {
            lemma_field_ranges(self.raw);
        }
        FenceMode::new(((self.raw >> 28) & 15) as u8)
    }
}

/// Decodes `word` for a hart with the extensions `ext`. Every word decodes:
/// one that is no instruction of the enabled set gives `Invalid` with the word in it.
pub fn decode_with(word: u32, ext: Extensions) -> (inst: Instruction)
    ensures
        inst == decode_spec(word, ext),
{
    let decoder = Decoder::new(word);
    let raw: u32 = word;
    let rd = decoder.rd();
    let rs1 = decoder.rs1();
    let rs2 = decoder.rs2();
    let funct3: u32 = decoder.funct3();
    let funct7: u32 = decoder.funct7();
    match decoder.opcode() {
        OpCode::Load => {
            let imm = decoder.imm_i();
            match funct3 {
                0 => Instruction::Lb { rd, rs1, imm },
                1 => Instruction::Lh { rd, rs1, imm },
                2 => Instruction::Lw { rd, rs1, imm },
                4 => Instruction::Lbu { rd, rs1, imm },
                5 => Instruction::Lhu { rd, rs1, imm },
                _ => Instruction::Invalid { raw },
            }
        },
        OpCode::MiscMem => {
            if funct3 == 0 {
                Instruction::Fence {
                    rd,
                    rs1,
                    pred: decoder.pred(),
                    succ: decoder.succ(),
                    mode: decoder.mode(),
                }
            } else if funct3 == 1 && ext.zifencei {
                Instruction::Fencei { rd: Reg::Ignore, rs1: Reg::Ignore, imm: Int12::new(0) }
            } else {
                Instruction::Invalid { raw }
            }
        },
        OpCode::OpImm => {
            let imm = decoder.imm_i();
            let shamt = decoder.shamt();
            if funct3 == 0 {
                Instruction::Addi { rd, rs1, imm }
            } else if funct3 == 2 {
                Instruction::Slti { rd, rs1, imm }
            } else if funct3 == 3 {
                Instruction::Sltiu { rd, rs1, imm }
            } else if funct3 == 4 {
                Instruction::Xori { rd, rs1, imm }
            } else if funct3 == 6 {
                Instruction::Ori { rd, rs1, imm }
            } else if funct3 == 7 {
                Instruction::Andi { rd, rs1, imm }
            } else if funct3 == 1 && funct7 == 0 {
                Instruction::Slli { rd, rs1, shamt }
            } else if funct3 == 5 && funct7 == 0 {
                Instruction::Srli { rd, rs1, shamt }
            } else if funct3 == 5 && funct7 == 0x20 {
                Instruction::Srai { rd, rs1, shamt }
            } else {
                Instruction::Invalid { raw }
            }
        },
        OpCode::Auipc => Instruction::Auipc { rd, imm: decoder.imm_u() },
        OpCode::Store => {
            let imm = decoder.imm_s();
            match funct3 {
                0 => Instruction::Sb { rs1, rs2, imm },
                1 => Instruction::Sh { rs1, rs2, imm },
                2 => Instruction::Sw { rs1, rs2, imm },
                _ => Instruction::Invalid { raw },
            }
        },
        OpCode::Amo => {
            let aq = decoder.aq();
            let rl = decoder.rl();
            if !ext.a || funct3 != 2 {
                Instruction::Invalid { raw }
            } else {
                match decoder.funct5() {
                    0b00010 => Instruction::Lrw { rd, rs1, aq, rl },
                    0b00011 => Instruction::Scw { rd, rs1, rs2, aq, rl },
                    0b00001 => Instruction::AmoSwapw { rd, rs1, rs2, aq, rl },
                    0b00000 => Instruction::AmoAddw { rd, rs1, rs2, aq, rl },
                    0b00100 => Instruction::AmoXorw { rd, rs1, rs2, aq, rl },
                    0b01100 => Instruction::AmoAndw { rd, rs1, rs2, aq, rl },
                    0b01000 => Instruction::AmoOrw { rd, rs1, rs2, aq, rl },
                    0b10000 => Instruction::AmoMinw { rd, rs1, rs2, aq, rl },
                    0b10100 => Instruction::AmoMaxw { rd, rs1, rs2, aq, rl },
                    0b11000 => Instruction::AmoMinuw { rd, rs1, rs2, aq, rl },
                    0b11100 => Instruction::AmoMaxuw { rd, rs1, rs2, aq, rl },
                    _ => Instruction::Invalid { raw },
                }
            }
        },
        OpCode::Op => {
            if funct7 == 0 {
                match funct3 {
                    0 => Instruction::Add { rd, rs1, rs2 },
                    1 => Instruction::Sll { rd, rs1, rs2 },
                    2 => Instruction::Slt { rd, rs1, rs2 },
                    3 => Instruction::Sltu { rd, rs1, rs2 },
                    4 => Instruction::Xor { rd, rs1, rs2 },
                    5 => Instruction::Srl { rd, rs1, rs2 },
                    6 => Instruction::Or { rd, rs1, rs2 },
                    _ => Instruction::And { rd, rs1, rs2 },
                }
            } else if funct7 == 0x20 && funct3 == 0 {
                Instruction::Sub { rd, rs1, rs2 }
            } else if funct7 == 0x20 && funct3 == 5 {
                Instruction::Sra { rd, rs1, rs2 }
            } else if funct7 == 1 && ext.m {
                match funct3 {
                    0 => Instruction::Mul { rd, rs1, rs2 },
                    1 => Instruction::Mulh { rd, rs1, rs2 },
                    2 => Instruction::Mulhsu { rd, rs1, rs2 },
                    3 => Instruction::Mulhu { rd, rs1, rs2 },
                    4 => Instruction::Div { rd, rs1, rs2 },
                    5 => Instruction::Divu { rd, rs1, rs2 },
                    6 => Instruction::Rem { rd, rs1, rs2 },
                    _ => Instruction::Remu { rd, rs1, rs2 },
                }
            } else {
                Instruction::Invalid { raw }
            }
        },
        OpCode::Lui => Instruction::Lui { rd, imm: decoder.imm_u() },
        OpCode::Branch => {
            let imm = decoder.imm_b();
            match funct3 {
                0 => Instruction::Beq { rs1, rs2, imm },
                1 => Instruction::Bne { rs1, rs2, imm },
                4 => Instruction::Blt { rs1, rs2, imm },
                5 => Instruction::Bge { rs1, rs2, imm },
                6 => Instruction::Bltu { rs1, rs2, imm },
                7 => Instruction::Bgeu { rs1, rs2, imm },
                _ => Instruction::Invalid { raw },
            }
        },
        OpCode::Jalr => {
            if funct3 == 0 {
                Instruction::Jalr { rd, rs1, imm: decoder.imm_i() }
            } else {
                Instruction::Invalid { raw }
            }
        },
        OpCode::Jal => Instruction::Jal { rd, imm: decoder.imm_j() },
        OpCode::System => {
            let csr = decoder.csr();
            let uimm = decoder.uimm();
            if funct3 == 0 {
                match decoder.funct12() {
                    0 => Instruction::Ecall,
                    1 => Instruction::Ebreak,
                    _ => Instruction::Invalid { raw },
                }
            } else if funct3 == 4 || !ext.zicsr {
                Instruction::Invalid { raw }
            } else {
                match funct3 {
                    1 => Instruction::CsrRw { rd, rs1, csr },
                    2 => Instruction::CsrRs { rd, rs1, csr },
                    3 => Instruction::CsrRc { rd, rs1, csr },
                    5 => Instruction::CsrRwi { rd, uimm, csr },
                    6 => Instruction::CsrRsi { rd, uimm, csr },
                    _ => Instruction::CsrRci { rd, uimm, csr },
                }
            }
        },
        OpCode::Invalid => Instruction::Invalid { raw },
    }
}

/// A value that encodes an instruction.
pub trait Decode {
    /// The instruction that the value encodes, with every extension enabled.
    fn decode(&self) -> Instruction;
}

impl Decode for u32 {
    fn decode(&self) -> (inst: Instruction)
        ensures
            inst == decode_spec(*self, Extensions::spec_all()),
    {
        decode_with(*self, Extensions::all())
    }
}

impl From<u32> for Instruction {
    fn from(value: u32) -> (inst: Instruction) {
        decode_with(value, Extensions::all())
    }
}

impl vstd::std_specs::convert::FromSpecImpl<u32> for Instruction {
    open spec fn obeys_from_spec() -> bool {
        true
    }

    open spec fn from_spec(value: u32) -> Instruction {
        decode_spec(value, Extensions::spec_all())
    }
}

} // verus!
