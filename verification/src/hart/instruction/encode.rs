use vstd::prelude::*;
use crate::hart::instruction::Extensions;
use crate::hart::instruction::Instruction;
use crate::hart::instruction::decode::aq_bit;
use crate::hart::instruction::decode::decode_spec;
use crate::hart::instruction::decode::fm_bits;
use crate::hart::instruction::decode::funct12_bits;
use crate::hart::instruction::decode::funct3_bits;
use crate::hart::instruction::decode::funct5_bits;
use crate::hart::instruction::decode::funct7_bits;
use crate::hart::instruction::decode::imm_b_bits;
use crate::hart::instruction::decode::imm_i_bits;
use crate::hart::instruction::decode::imm_j_bits;
use crate::hart::instruction::decode::imm_s_bits;
use crate::hart::instruction::decode::imm_u_bits;
use crate::hart::instruction::decode::lemma_field_ranges;
use crate::hart::instruction::decode::opcode_bits;
use crate::hart::instruction::decode::pred_bits;
use crate::hart::instruction::decode::rd_bits;
use crate::hart::instruction::decode::rl_bit;
use crate::hart::instruction::decode::rs1_bits;
use crate::hart::instruction::decode::rs2_bits;
use crate::hart::instruction::decode::spec_rd;
use crate::hart::instruction::decode::spec_rs1;
use crate::hart::instruction::decode::spec_rs2;
use crate::hart::instruction::decode::succ_bits;
use crate::hart::instruction::instruction_type::InstructionKind;
use crate::hart::instruction::types::Csr;
use crate::hart::instruction::types::FenceMode;
use crate::hart::instruction::types::FenceSet;
use crate::hart::instruction::types::Int12;
use crate::hart::instruction::types::Int13Trunc1;
use crate::hart::instruction::types::Int21Trunc1;
use crate::hart::instruction::types::Int32Trunc12;
use crate::hart::instruction::types::OpCode;
use crate::hart::instruction::types::UInt5;
use crate::hart::register::Reg;

verus! {

/// A register number in the field at bits 11:7.
pub open spec fn enc_rd(r: Reg) -> u32 {
    (r.number() as u32) << 7
}

/// A register number in the field at bits 19:15.
pub open spec fn enc_rs1(r: Reg) -> u32 {
    (r.number() as u32) << 15
}

/// A register number in the field at bits 24:20.
pub open spec fn enc_rs2(r: Reg) -> u32 {
    (r.number() as u32) << 20
}

/// Five bits in the field at bits 19:15.
pub open spec fn enc_uimm(v: u32) -> u32 {
    v << 15
}

/// Up to twelve bits in the field at bits 31:20.
pub open spec fn enc_upper(v: u32) -> u32 {
    v << 20
}

/// An immediate in the places of the I format.
pub open spec fn enc_imm_i(v: i32) -> u32 {
    (v as u32) << 20
}

/// An immediate in the places of the S format.
pub open spec fn enc_imm_s(v: i32) -> u32 {
    (((v as u32) & 0xfe0) << 20) | (((v as u32) & 0x1f) << 7)
}

/// An immediate in the places of the B format.
pub open spec fn enc_imm_b(v: i32) -> u32 {
    (((v as u32) & 0x1000) << 19) | (((v as u32) & 0x7e0) << 20) | (((v as u32) & 0x1e) << 7) | (((v as u32)
        & 0x800) >> 4)
}

/// An immediate in the places of the U format.
pub open spec fn enc_imm_u(v: i32) -> u32 {
    (v as u32) & 0xfffff000
}

/// An immediate in the places of the J format.
pub open spec fn enc_imm_j(v: i32) -> u32 {
    (((v as u32) & 0x100000) << 11) | ((v as u32) & 0xff000) | (((v as u32) & 0x800) << 9) | (((v as u32)
        & 0x7fe) << 20)
}

/// The fields of a fence. Every mode besides the normal and the
/// total-store-order one is written as mode 1.
pub open spec fn enc_fence(pred: u32, succ: u32, mode: FenceMode) -> u32 {
    (match mode {
        FenceMode::Normal => 0u32,
        FenceMode::Tso => 0x8000_0000u32,
        FenceMode::Other => 0x1000_0000u32,
    }) | (pred << 24) | (succ << 20)
}

/// The acquire and release bits of an atomic instruction.
pub open spec fn enc_aq_rl(aq: bool, rl: bool) -> u32 {
    (if aq { 0x0400_0000u32 } else { 0u32 }) | (if rl { 0x0200_0000u32 } else { 0u32 })
}

impl Instruction {
    /// The kind of this instruction.
    pub open spec fn spec_kind(self) -> InstructionKind {
        match self {
            Instruction::Lui { .. } => InstructionKind::Lui,
            Instruction::Auipc { .. } => InstructionKind::Auipc,
            Instruction::Jal { .. } => InstructionKind::Jal,
            Instruction::Jalr { .. } => InstructionKind::Jalr,
            Instruction::Beq { .. } => InstructionKind::Beq,
            Instruction::Bne { .. } => InstructionKind::Bne,
            Instruction::Blt { .. } => InstructionKind::Blt,
            Instruction::Bge { .. } => InstructionKind::Bge,
            Instruction::Bltu { .. } => InstructionKind::Bltu,
            Instruction::Bgeu { .. } => InstructionKind::Bgeu,
            Instruction::Lb { .. } => InstructionKind::Lb,
            Instruction::Lh { .. } => InstructionKind::Lh,
            Instruction::Lw { .. } => InstructionKind::Lw,
            Instruction::Lbu { .. } => InstructionKind::Lbu,
            Instruction::Lhu { .. } => InstructionKind::Lhu,
            Instruction::Sb { .. } => InstructionKind::Sb,
            Instruction::Sh { .. } => InstructionKind::Sh,
            Instruction::Sw { .. } => InstructionKind::Sw,
            Instruction::Addi { .. } => InstructionKind::Addi,
            Instruction::Slti { .. } => InstructionKind::Slti,
            Instruction::Sltiu { .. } => InstructionKind::Sltiu,
            Instruction::Xori { .. } => InstructionKind::Xori,
            Instruction::Ori { .. } => InstructionKind::Ori,
            Instruction::Andi { .. } => InstructionKind::Andi,
            Instruction::Slli { .. } => InstructionKind::Slli,
            Instruction::Srli { .. } => InstructionKind::Srli,
            Instruction::Srai { .. } => InstructionKind::Srai,
            Instruction::Add { .. } => InstructionKind::Add,
            Instruction::Sub { .. } => InstructionKind::Sub,
            Instruction::Sll { .. } => InstructionKind::Sll,
            Instruction::Slt { .. } => InstructionKind::Slt,
            Instruction::Sltu { .. } => InstructionKind::Sltu,
            Instruction::Xor { .. } => InstructionKind::Xor,
            Instruction::Srl { .. } => InstructionKind::Srl,
            Instruction::Sra { .. } => InstructionKind::Sra,
            Instruction::Or { .. } => InstructionKind::Or,
            Instruction::And { .. } => InstructionKind::And,
            Instruction::Fence { .. } => InstructionKind::Fence,
            Instruction::Ecall => InstructionKind::Ecall,
            Instruction::Ebreak => InstructionKind::Ebreak,
            Instruction::Fencei { .. } => InstructionKind::Fencei,
            Instruction::CsrRw { .. } => InstructionKind::CsrRw,
            Instruction::CsrRs { .. } => InstructionKind::CsrRs,
            Instruction::CsrRc { .. } => InstructionKind::CsrRc,
            Instruction::CsrRwi { .. } => InstructionKind::CsrRwi,
            Instruction::CsrRsi { .. } => InstructionKind::CsrRsi,
            Instruction::CsrRci { .. } => InstructionKind::CsrRci,
            Instruction::Mul { .. } => InstructionKind::Mul,
            Instruction::Mulh { .. } => InstructionKind::Mulh,
            Instruction::Mulhsu { .. } => InstructionKind::Mulhsu,
            Instruction::Mulhu { .. } => InstructionKind::Mulhu,
            Instruction::Div { .. } => InstructionKind::Div,
            Instruction::Divu { .. } => InstructionKind::Divu,
            Instruction::Rem { .. } => InstructionKind::Rem,
            Instruction::Remu { .. } => InstructionKind::Remu,
            Instruction::Lrw { .. } => InstructionKind::Lrw,
            Instruction::Scw { .. } => InstructionKind::Scw,
            Instruction::AmoSwapw { .. } => InstructionKind::AmoSwapw,
            Instruction::AmoAddw { .. } => InstructionKind::AmoAddw,
            Instruction::AmoXorw { .. } => InstructionKind::AmoXorw,
            Instruction::AmoAndw { .. } => InstructionKind::AmoAndw,
            Instruction::AmoOrw { .. } => InstructionKind::AmoOrw,
            Instruction::AmoMinw { .. } => InstructionKind::AmoMinw,
            Instruction::AmoMaxw { .. } => InstructionKind::AmoMaxw,
            Instruction::AmoMinuw { .. } => InstructionKind::AmoMinuw,
            Instruction::AmoMaxuw { .. } => InstructionKind::AmoMaxuw,
            Instruction::Invalid { .. } => InstructionKind::Invalid,
        }
    }

    /// The bits that the fields of this instruction take in its encoding.
    pub open spec fn spec_fields(self) -> u32 {
        match self {
            Instruction::Lui { rd, imm } => enc_rd(rd) | enc_imm_u(imm@ as i32),
            Instruction::Auipc { rd, imm } => enc_rd(rd) | enc_imm_u(imm@ as i32),
            Instruction::Jal { rd, imm } => enc_rd(rd) | enc_imm_j(imm@ as i32),
            Instruction::Jalr { rd, rs1, imm } => enc_rd(rd) | enc_rs1(rs1) | enc_imm_i(imm@ as i32),
            Instruction::Beq { rs1, rs2, imm } => enc_rs1(rs1) | enc_rs2(rs2) | enc_imm_b(imm@ as i32),
            Instruction::Bne { rs1, rs2, imm } => enc_rs1(rs1) | enc_rs2(rs2) | enc_imm_b(imm@ as i32),
            Instruction::Blt { rs1, rs2, imm } => enc_rs1(rs1) | enc_rs2(rs2) | enc_imm_b(imm@ as i32),
            Instruction::Bge { rs1, rs2, imm } => enc_rs1(rs1) | enc_rs2(rs2) | enc_imm_b(imm@ as i32),
            Instruction::Bltu { rs1, rs2, imm } => enc_rs1(rs1) | enc_rs2(rs2) | enc_imm_b(imm@ as i32),
            Instruction::Bgeu { rs1, rs2, imm } => enc_rs1(rs1) | enc_rs2(rs2) | enc_imm_b(imm@ as i32),
            Instruction::Lb { rd, rs1, imm } => enc_rd(rd) | enc_rs1(rs1) | enc_imm_i(imm@ as i32),
            Instruction::Lh { rd, rs1, imm } => enc_rd(rd) | enc_rs1(rs1) | enc_imm_i(imm@ as i32),
            Instruction::Lw { rd, rs1, imm } => enc_rd(rd) | enc_rs1(rs1) | enc_imm_i(imm@ as i32),
            Instruction::Lbu { rd, rs1, imm } => enc_rd(rd) | enc_rs1(rs1) | enc_imm_i(imm@ as i32),
            Instruction::Lhu { rd, rs1, imm } => enc_rd(rd) | enc_rs1(rs1) | enc_imm_i(imm@ as i32),
            Instruction::Sb { rs1, rs2, imm } => enc_rs1(rs1) | enc_rs2(rs2) | enc_imm_s(imm@ as i32),
            Instruction::Sh { rs1, rs2, imm } => enc_rs1(rs1) | enc_rs2(rs2) | enc_imm_s(imm@ as i32),
            Instruction::Sw { rs1, rs2, imm } => enc_rs1(rs1) | enc_rs2(rs2) | enc_imm_s(imm@ as i32),
            Instruction::Addi { rd, rs1, imm } => enc_rd(rd) | enc_rs1(rs1) | enc_imm_i(imm@ as i32),
            Instruction::Slti { rd, rs1, imm } => enc_rd(rd) | enc_rs1(rs1) | enc_imm_i(imm@ as i32),
            Instruction::Sltiu { rd, rs1, imm } => enc_rd(rd) | enc_rs1(rs1) | enc_imm_i(imm@ as i32),
            Instruction::Xori { rd, rs1, imm } => enc_rd(rd) | enc_rs1(rs1) | enc_imm_i(imm@ as i32),
            Instruction::Ori { rd, rs1, imm } => enc_rd(rd) | enc_rs1(rs1) | enc_imm_i(imm@ as i32),
            Instruction::Andi { rd, rs1, imm } => enc_rd(rd) | enc_rs1(rs1) | enc_imm_i(imm@ as i32),
            Instruction::Slli { rd, rs1, shamt } => enc_rd(rd) | enc_rs1(rs1) | enc_upper(shamt@ as u32),
            Instruction::Srli { rd, rs1, shamt } => enc_rd(rd) | enc_rs1(rs1) | enc_upper(shamt@ as u32),
            Instruction::Srai { rd, rs1, shamt } => enc_rd(rd) | enc_rs1(rs1) | enc_upper(shamt@ as u32),
            Instruction::Add { rd, rs1, rs2 } => enc_rd(rd) | enc_rs1(rs1) | enc_rs2(rs2),
            Instruction::Sub { rd, rs1, rs2 } => enc_rd(rd) | enc_rs1(rs1) | enc_rs2(rs2),
            Instruction::Sll { rd, rs1, rs2 } => enc_rd(rd) | enc_rs1(rs1) | enc_rs2(rs2),
            Instruction::Slt { rd, rs1, rs2 } => enc_rd(rd) | enc_rs1(rs1) | enc_rs2(rs2),
            Instruction::Sltu { rd, rs1, rs2 } => enc_rd(rd) | enc_rs1(rs1) | enc_rs2(rs2),
            Instruction::Xor { rd, rs1, rs2 } => enc_rd(rd) | enc_rs1(rs1) | enc_rs2(rs2),
            Instruction::Srl { rd, rs1, rs2 } => enc_rd(rd) | enc_rs1(rs1) | enc_rs2(rs2),
            Instruction::Sra { rd, rs1, rs2 } => enc_rd(rd) | enc_rs1(rs1) | enc_rs2(rs2),
            Instruction::Or { rd, rs1, rs2 } => enc_rd(rd) | enc_rs1(rs1) | enc_rs2(rs2),
            Instruction::And { rd, rs1, rs2 } => enc_rd(rd) | enc_rs1(rs1) | enc_rs2(rs2),
            Instruction::Fence { rd, rs1, pred, succ, mode } => enc_rd(rd) | enc_rs1(rs1) | enc_fence(pred@ as u32, succ@ as u32, mode),
            Instruction::Ecall => 0,
            Instruction::Ebreak => 0,
            Instruction::Fencei { .. } => 0,
            Instruction::CsrRw { rd, rs1, csr } => enc_rd(rd) | enc_rs1(rs1) | enc_upper(csr@ as u32),
            Instruction::CsrRs { rd, rs1, csr } => enc_rd(rd) | enc_rs1(rs1) | enc_upper(csr@ as u32),
            Instruction::CsrRc { rd, rs1, csr } => enc_rd(rd) | enc_rs1(rs1) | enc_upper(csr@ as u32),
            Instruction::CsrRwi { rd, uimm, csr } => enc_rd(rd) | enc_uimm(uimm@ as u32) | enc_upper(csr@ as u32),
            Instruction::CsrRsi { rd, uimm, csr } => enc_rd(rd) | enc_uimm(uimm@ as u32) | enc_upper(csr@ as u32),
            Instruction::CsrRci { rd, uimm, csr } => enc_rd(rd) | enc_uimm(uimm@ as u32) | enc_upper(csr@ as u32),
            Instruction::Mul { rd, rs1, rs2 } => enc_rd(rd) | enc_rs1(rs1) | enc_rs2(rs2),
            Instruction::Mulh { rd, rs1, rs2 } => enc_rd(rd) | enc_rs1(rs1) | enc_rs2(rs2),
            Instruction::Mulhsu { rd, rs1, rs2 } => enc_rd(rd) | enc_rs1(rs1) | enc_rs2(rs2),
            Instruction::Mulhu { rd, rs1, rs2 } => enc_rd(rd) | enc_rs1(rs1) | enc_rs2(rs2),
            Instruction::Div { rd, rs1, rs2 } => enc_rd(rd) | enc_rs1(rs1) | enc_rs2(rs2),
            Instruction::Divu { rd, rs1, rs2 } => enc_rd(rd) | enc_rs1(rs1) | enc_rs2(rs2),
            Instruction::Rem { rd, rs1, rs2 } => enc_rd(rd) | enc_rs1(rs1) | enc_rs2(rs2),
            Instruction::Remu { rd, rs1, rs2 } => enc_rd(rd) | enc_rs1(rs1) | enc_rs2(rs2),
            Instruction::Lrw { rd, rs1, aq, rl } => enc_rd(rd) | enc_rs1(rs1) | enc_aq_rl(aq, rl),
            Instruction::Scw { rd, rs1, rs2, aq, rl } => enc_rd(rd) | enc_rs1(rs1) | enc_rs2(rs2) | enc_aq_rl(aq, rl),
            Instruction::AmoSwapw { rd, rs1, rs2, aq, rl } => enc_rd(rd) | enc_rs1(rs1) | enc_rs2(rs2) | enc_aq_rl(aq, rl),
            Instruction::AmoAddw { rd, rs1, rs2, aq, rl } => enc_rd(rd) | enc_rs1(rs1) | enc_rs2(rs2) | enc_aq_rl(aq, rl),
            Instruction::AmoXorw { rd, rs1, rs2, aq, rl } => enc_rd(rd) | enc_rs1(rs1) | enc_rs2(rs2) | enc_aq_rl(aq, rl),
            Instruction::AmoAndw { rd, rs1, rs2, aq, rl } => enc_rd(rd) | enc_rs1(rs1) | enc_rs2(rs2) | enc_aq_rl(aq, rl),
            Instruction::AmoOrw { rd, rs1, rs2, aq, rl } => enc_rd(rd) | enc_rs1(rs1) | enc_rs2(rs2) | enc_aq_rl(aq, rl),
            Instruction::AmoMinw { rd, rs1, rs2, aq, rl } => enc_rd(rd) | enc_rs1(rs1) | enc_rs2(rs2) | enc_aq_rl(aq, rl),
            Instruction::AmoMaxw { rd, rs1, rs2, aq, rl } => enc_rd(rd) | enc_rs1(rs1) | enc_rs2(rs2) | enc_aq_rl(aq, rl),
            Instruction::AmoMinuw { rd, rs1, rs2, aq, rl } => enc_rd(rd) | enc_rs1(rs1) | enc_rs2(rs2) | enc_aq_rl(aq, rl),
            Instruction::AmoMaxuw { rd, rs1, rs2, aq, rl } => enc_rd(rd) | enc_rs1(rs1) | enc_rs2(rs2) | enc_aq_rl(aq, rl),
            Instruction::Invalid { raw } => raw,
        }
    }

    /// The word that encodes this instruction: the template of its kind with
    /// the fields put in. Bits that no field holds are zero.
    pub open spec fn spec_encode(self) -> u32 {
        self.spec_kind().spec_template() | self.spec_fields()
    }

    /// The kind of this instruction.
    pub fn kind(&self) -> (k: InstructionKind)
        ensures
            k == self.spec_kind(),
    {
        match self {
            Instruction::Lui { .. } => InstructionKind::Lui,
            Instruction::Auipc { .. } => InstructionKind::Auipc,
            Instruction::Jal { .. } => InstructionKind::Jal,
            Instruction::Jalr { .. } => InstructionKind::Jalr,
            Instruction::Beq { .. } => InstructionKind::Beq,
            Instruction::Bne { .. } => InstructionKind::Bne,
            Instruction::Blt { .. } => InstructionKind::Blt,
            Instruction::Bge { .. } => InstructionKind::Bge,
            Instruction::Bltu { .. } => InstructionKind::Bltu,
            Instruction::Bgeu { .. } => InstructionKind::Bgeu,
            Instruction::Lb { .. } => InstructionKind::Lb,
            Instruction::Lh { .. } => InstructionKind::Lh,
            Instruction::Lw { .. } => InstructionKind::Lw,
            Instruction::Lbu { .. } => InstructionKind::Lbu,
            Instruction::Lhu { .. } => InstructionKind::Lhu,
            Instruction::Sb { .. } => InstructionKind::Sb,
            Instruction::Sh { .. } => InstructionKind::Sh,
            Instruction::Sw { .. } => InstructionKind::Sw,
            Instruction::Addi { .. } => InstructionKind::Addi,
            Instruction::Slti { .. } => InstructionKind::Slti,
            Instruction::Sltiu { .. } => InstructionKind::Sltiu,
            Instruction::Xori { .. } => InstructionKind::Xori,
            Instruction::Ori { .. } => InstructionKind::Ori,
            Instruction::Andi { .. } => InstructionKind::Andi,
            Instruction::Slli { .. } => InstructionKind::Slli,
            Instruction::Srli { .. } => InstructionKind::Srli,
            Instruction::Srai { .. } => InstructionKind::Srai,
            Instruction::Add { .. } => InstructionKind::Add,
            Instruction::Sub { .. } => InstructionKind::Sub,
            Instruction::Sll { .. } => InstructionKind::Sll,
            Instruction::Slt { .. } => InstructionKind::Slt,
            Instruction::Sltu { .. } => InstructionKind::Sltu,
            Instruction::Xor { .. } => InstructionKind::Xor,
            Instruction::Srl { .. } => InstructionKind::Srl,
            Instruction::Sra { .. } => InstructionKind::Sra,
            Instruction::Or { .. } => InstructionKind::Or,
            Instruction::And { .. } => InstructionKind::And,
            Instruction::Fence { .. } => InstructionKind::Fence,
            Instruction::Ecall => InstructionKind::Ecall,
            Instruction::Ebreak => InstructionKind::Ebreak,
            Instruction::Fencei { .. } => InstructionKind::Fencei,
            Instruction::CsrRw { .. } => InstructionKind::CsrRw,
            Instruction::CsrRs { .. } => InstructionKind::CsrRs,
            Instruction::CsrRc { .. } => InstructionKind::CsrRc,
            Instruction::CsrRwi { .. } => InstructionKind::CsrRwi,
            Instruction::CsrRsi { .. } => InstructionKind::CsrRsi,
            Instruction::CsrRci { .. } => InstructionKind::CsrRci,
            Instruction::Mul { .. } => InstructionKind::Mul,
            Instruction::Mulh { .. } => InstructionKind::Mulh,
            Instruction::Mulhsu { .. } => InstructionKind::Mulhsu,
            Instruction::Mulhu { .. } => InstructionKind::Mulhu,
            Instruction::Div { .. } => InstructionKind::Div,
            Instruction::Divu { .. } => InstructionKind::Divu,
            Instruction::Rem { .. } => InstructionKind::Rem,
            Instruction::Remu { .. } => InstructionKind::Remu,
            Instruction::Lrw { .. } => InstructionKind::Lrw,
            Instruction::Scw { .. } => InstructionKind::Scw,
            Instruction::AmoSwapw { .. } => InstructionKind::AmoSwapw,
            Instruction::AmoAddw { .. } => InstructionKind::AmoAddw,
            Instruction::AmoXorw { .. } => InstructionKind::AmoXorw,
            Instruction::AmoAndw { .. } => InstructionKind::AmoAndw,
            Instruction::AmoOrw { .. } => InstructionKind::AmoOrw,
            Instruction::AmoMinw { .. } => InstructionKind::AmoMinw,
            Instruction::AmoMaxw { .. } => InstructionKind::AmoMaxw,
            Instruction::AmoMinuw { .. } => InstructionKind::AmoMinuw,
            Instruction::AmoMaxuw { .. } => InstructionKind::AmoMaxuw,
            Instruction::Invalid { .. } => InstructionKind::Invalid,
        }
    }

    /// The bits that the fields of this instruction take in its encoding.
    pub fn fields(&self) -> (bits: u32)
        ensures
            bits == self.spec_fields(),
    {
        match *self {
            Instruction::Lui { rd, imm } => field_rd(rd) | field_imm_u(imm),
            Instruction::Auipc { rd, imm } => field_rd(rd) | field_imm_u(imm),
            Instruction::Jal { rd, imm } => field_rd(rd) | field_imm_j(imm),
            Instruction::Jalr { rd, rs1, imm } => field_rd(rd) | field_rs1(rs1) | field_imm_i(imm),
            Instruction::Beq { rs1, rs2, imm } => field_rs1(rs1) | field_rs2(rs2) | field_imm_b(imm),
            Instruction::Bne { rs1, rs2, imm } => field_rs1(rs1) | field_rs2(rs2) | field_imm_b(imm),
            Instruction::Blt { rs1, rs2, imm } => field_rs1(rs1) | field_rs2(rs2) | field_imm_b(imm),
            Instruction::Bge { rs1, rs2, imm } => field_rs1(rs1) | field_rs2(rs2) | field_imm_b(imm),
            Instruction::Bltu { rs1, rs2, imm } => field_rs1(rs1) | field_rs2(rs2) | field_imm_b(imm),
            Instruction::Bgeu { rs1, rs2, imm } => field_rs1(rs1) | field_rs2(rs2) | field_imm_b(imm),
            Instruction::Lb { rd, rs1, imm } => field_rd(rd) | field_rs1(rs1) | field_imm_i(imm),
            Instruction::Lh { rd, rs1, imm } => field_rd(rd) | field_rs1(rs1) | field_imm_i(imm),
            Instruction::Lw { rd, rs1, imm } => field_rd(rd) | field_rs1(rs1) | field_imm_i(imm),
            Instruction::Lbu { rd, rs1, imm } => field_rd(rd) | field_rs1(rs1) | field_imm_i(imm),
            Instruction::Lhu { rd, rs1, imm } => field_rd(rd) | field_rs1(rs1) | field_imm_i(imm),
            Instruction::Sb { rs1, rs2, imm } => field_rs1(rs1) | field_rs2(rs2) | field_imm_s(imm),
            Instruction::Sh { rs1, rs2, imm } => field_rs1(rs1) | field_rs2(rs2) | field_imm_s(imm),
            Instruction::Sw { rs1, rs2, imm } => field_rs1(rs1) | field_rs2(rs2) | field_imm_s(imm),
            Instruction::Addi { rd, rs1, imm } => field_rd(rd) | field_rs1(rs1) | field_imm_i(imm),
            Instruction::Slti { rd, rs1, imm } => field_rd(rd) | field_rs1(rs1) | field_imm_i(imm),
            Instruction::Sltiu { rd, rs1, imm } => field_rd(rd) | field_rs1(rs1) | field_imm_i(imm),
            Instruction::Xori { rd, rs1, imm } => field_rd(rd) | field_rs1(rs1) | field_imm_i(imm),
            Instruction::Ori { rd, rs1, imm } => field_rd(rd) | field_rs1(rs1) | field_imm_i(imm),
            Instruction::Andi { rd, rs1, imm } => field_rd(rd) | field_rs1(rs1) | field_imm_i(imm),
            Instruction::Slli { rd, rs1, shamt } => field_rd(rd) | field_rs1(rs1) | field_upper(shamt.value()),
            Instruction::Srli { rd, rs1, shamt } => field_rd(rd) | field_rs1(rs1) | field_upper(shamt.value()),
            Instruction::Srai { rd, rs1, shamt } => field_rd(rd) | field_rs1(rs1) | field_upper(shamt.value()),
            Instruction::Add { rd, rs1, rs2 } => field_rd(rd) | field_rs1(rs1) | field_rs2(rs2),
            Instruction::Sub { rd, rs1, rs2 } => field_rd(rd) | field_rs1(rs1) | field_rs2(rs2),
            Instruction::Sll { rd, rs1, rs2 } => field_rd(rd) | field_rs1(rs1) | field_rs2(rs2),
            Instruction::Slt { rd, rs1, rs2 } => field_rd(rd) | field_rs1(rs1) | field_rs2(rs2),
            Instruction::Sltu { rd, rs1, rs2 } => field_rd(rd) | field_rs1(rs1) | field_rs2(rs2),
            Instruction::Xor { rd, rs1, rs2 } => field_rd(rd) | field_rs1(rs1) | field_rs2(rs2),
            Instruction::Srl { rd, rs1, rs2 } => field_rd(rd) | field_rs1(rs1) | field_rs2(rs2),
            Instruction::Sra { rd, rs1, rs2 } => field_rd(rd) | field_rs1(rs1) | field_rs2(rs2),
            Instruction::Or { rd, rs1, rs2 } => field_rd(rd) | field_rs1(rs1) | field_rs2(rs2),
            Instruction::And { rd, rs1, rs2 } => field_rd(rd) | field_rs1(rs1) | field_rs2(rs2),
            Instruction::Fence { rd, rs1, pred, succ, mode } => field_rd(rd) | field_rs1(rs1) | field_fence(pred, succ, mode),
            Instruction::Ecall => 0,
            Instruction::Ebreak => 0,
            Instruction::Fencei { .. } => 0,
            Instruction::CsrRw { rd, rs1, csr } => field_rd(rd) | field_rs1(rs1) | field_upper(csr.value()),
            Instruction::CsrRs { rd, rs1, csr } => field_rd(rd) | field_rs1(rs1) | field_upper(csr.value()),
            Instruction::CsrRc { rd, rs1, csr } => field_rd(rd) | field_rs1(rs1) | field_upper(csr.value()),
            Instruction::CsrRwi { rd, uimm, csr } => field_rd(rd) | field_uimm(uimm) | field_upper(csr.value()),
            Instruction::CsrRsi { rd, uimm, csr } => field_rd(rd) | field_uimm(uimm) | field_upper(csr.value()),
            Instruction::CsrRci { rd, uimm, csr } => field_rd(rd) | field_uimm(uimm) | field_upper(csr.value()),
            Instruction::Mul { rd, rs1, rs2 } => field_rd(rd) | field_rs1(rs1) | field_rs2(rs2),
            Instruction::Mulh { rd, rs1, rs2 } => field_rd(rd) | field_rs1(rs1) | field_rs2(rs2),
            Instruction::Mulhsu { rd, rs1, rs2 } => field_rd(rd) | field_rs1(rs1) | field_rs2(rs2),
            Instruction::Mulhu { rd, rs1, rs2 } => field_rd(rd) | field_rs1(rs1) | field_rs2(rs2),
            Instruction::Div { rd, rs1, rs2 } => field_rd(rd) | field_rs1(rs1) | field_rs2(rs2),
            Instruction::Divu { rd, rs1, rs2 } => field_rd(rd) | field_rs1(rs1) | field_rs2(rs2),
            Instruction::Rem { rd, rs1, rs2 } => field_rd(rd) | field_rs1(rs1) | field_rs2(rs2),
            Instruction::Remu { rd, rs1, rs2 } => field_rd(rd) | field_rs1(rs1) | field_rs2(rs2),
            Instruction::Lrw { rd, rs1, aq, rl } => field_rd(rd) | field_rs1(rs1) | field_aq_rl(aq, rl),
            Instruction::Scw { rd, rs1, rs2, aq, rl } => field_rd(rd) | field_rs1(rs1) | field_rs2(rs2) | field_aq_rl(aq, rl),
            Instruction::AmoSwapw { rd, rs1, rs2, aq, rl } => field_rd(rd) | field_rs1(rs1) | field_rs2(rs2) | field_aq_rl(aq, rl),
            Instruction::AmoAddw { rd, rs1, rs2, aq, rl } => field_rd(rd) | field_rs1(rs1) | field_rs2(rs2) | field_aq_rl(aq, rl),
            Instruction::AmoXorw { rd, rs1, rs2, aq, rl } => field_rd(rd) | field_rs1(rs1) | field_rs2(rs2) | field_aq_rl(aq, rl),
            Instruction::AmoAndw { rd, rs1, rs2, aq, rl } => field_rd(rd) | field_rs1(rs1) | field_rs2(rs2) | field_aq_rl(aq, rl),
            Instruction::AmoOrw { rd, rs1, rs2, aq, rl } => field_rd(rd) | field_rs1(rs1) | field_rs2(rs2) | field_aq_rl(aq, rl),
            Instruction::AmoMinw { rd, rs1, rs2, aq, rl } => field_rd(rd) | field_rs1(rs1) | field_rs2(rs2) | field_aq_rl(aq, rl),
            Instruction::AmoMaxw { rd, rs1, rs2, aq, rl } => field_rd(rd) | field_rs1(rs1) | field_rs2(rs2) | field_aq_rl(aq, rl),
            Instruction::AmoMinuw { rd, rs1, rs2, aq, rl } => field_rd(rd) | field_rs1(rs1) | field_rs2(rs2) | field_aq_rl(aq, rl),
            Instruction::AmoMaxuw { rd, rs1, rs2, aq, rl } => field_rd(rd) | field_rs1(rs1) | field_rs2(rs2) | field_aq_rl(aq, rl),
            Instruction::Invalid { raw } => raw,
        }
    }

    /// Encodes this instruction: the template of its kind with the fields put in.
    pub fn encode(&self) -> (w: u32)
        ensures
            w == self.spec_encode(),
    {
        self.kind().template() | self.fields()
    }
}

fn field_rd(r: Reg) -> (f: u32)
    ensures
        f == enc_rd(r),
{
    let n: u32 = r.index() as u32;
    n << 7
}

fn field_rs1(r: Reg) -> (f: u32)
    ensures
        f == enc_rs1(r),
{
    let n: u32 = r.index() as u32;
    n << 15
}

fn field_rs2(r: Reg) -> (f: u32)
    ensures
        f == enc_rs2(r),
{
    let n: u32 = r.index() as u32;
    n << 20
}

fn field_uimm(u: UInt5) -> (f: u32)
    ensures
        f == enc_uimm(u@ as u32),
{
    u.value() << 15
}

fn field_upper(v: u32) -> (f: u32)
    requires
        v < 4096,
    ensures
        f == enc_upper(v),
{
    v << 20
}

fn field_imm_i(imm: Int12) -> (f: u32)
    ensures
        f == enc_imm_i(imm@ as i32),
{
    let v: u32 = imm.value() as u32;
    v << 20
}

fn field_imm_s(imm: Int12) -> (f: u32)
    ensures
        f == enc_imm_s(imm@ as i32),
{
    let v: u32 = imm.value() as u32;
    ((v & 0xfe0) << 20) | ((v & 0x1f) << 7)
}

fn field_imm_b(imm: Int13Trunc1) -> (f: u32)
    ensures
        f == enc_imm_b(imm@ as i32),
{
    let v: u32 = imm.value() as u32;
    ((v & 0x1000) << 19) | ((v & 0x7e0) << 20) | ((v & 0x1e) << 7) | ((v & 0x800) >> 4)
}

fn field_imm_u(imm: Int32Trunc12) -> (f: u32)
    ensures
        f == enc_imm_u(imm@ as i32),
{
    let v: u32 = imm.value() as u32;
    v & 0xfffff000
}

fn field_imm_j(imm: Int21Trunc1) -> (f: u32)
    ensures
        f == enc_imm_j(imm@ as i32),
{
    let v: u32 = imm.value() as u32;
    ((v & 0x100000) << 11) | (v & 0xff000) | ((v & 0x800) << 9) | ((v & 0x7fe) << 20)
}

fn field_fence(pred: FenceSet, succ: FenceSet, mode: FenceMode) -> (f: u32)
    ensures
        f == enc_fence(pred@ as u32, succ@ as u32, mode),
{
    let fm: u32 = match mode {
        FenceMode::Normal => 0,
        FenceMode::Tso => 0x8000_0000,
        FenceMode::Other => 0x1000_0000,
    };
    let p: u32 = pred.raw() as u32;
    let s: u32 = succ.raw() as u32;
    fm | (p << 24) | (s << 20)
}

fn field_aq_rl(aq: bool, rl: bool) -> (f: u32)
    ensures
        f == enc_aq_rl(aq, rl),
{
    let a: u32 = if aq { 0x0400_0000 } else { 0 };
    let r: u32 = if rl { 0x0200_0000 } else { 0 };
    a | r
}

/// What the templates hold: the bits that tell the kinds apart, and zeros where the fields go.
proof fn lemma_templates()
    by (bit_vector)
    ensures
        opcode_bits(0x00000037u32) == 55,
        0x00000037u32 & 0xffffff80 == 0,
        opcode_bits(0x00000017u32) == 23,
        0x00000017u32 & 0xffffff80 == 0,
        opcode_bits(0x0000006fu32) == 111,
        0x0000006fu32 & 0xffffff80 == 0,
        opcode_bits(0x00000067u32) == 103,
        funct3_bits(0x00000067u32) == 0,
        0x00000067u32 & 0xffff8f80 == 0,
        opcode_bits(0x00000063u32) == 99,
        funct3_bits(0x00000063u32) == 0,
        0x00000063u32 & 0xffff8f80 == 0,
        opcode_bits(0x00001063u32) == 99,
        funct3_bits(0x00001063u32) == 1,
        0x00001063u32 & 0xffff8f80 == 0,
        opcode_bits(0x00004063u32) == 99,
        funct3_bits(0x00004063u32) == 4,
        0x00004063u32 & 0xffff8f80 == 0,
        opcode_bits(0x00005063u32) == 99,
        funct3_bits(0x00005063u32) == 5,
        0x00005063u32 & 0xffff8f80 == 0,
        opcode_bits(0x00006063u32) == 99,
        funct3_bits(0x00006063u32) == 6,
        0x00006063u32 & 0xffff8f80 == 0,
        opcode_bits(0x00007063u32) == 99,
        funct3_bits(0x00007063u32) == 7,
        0x00007063u32 & 0xffff8f80 == 0,
        opcode_bits(0x00000003u32) == 3,
        funct3_bits(0x00000003u32) == 0,
        0x00000003u32 & 0xffff8f80 == 0,
        opcode_bits(0x00001003u32) == 3,
        funct3_bits(0x00001003u32) == 1,
        0x00001003u32 & 0xffff8f80 == 0,
        opcode_bits(0x00002003u32) == 3,
        funct3_bits(0x00002003u32) == 2,
        0x00002003u32 & 0xffff8f80 == 0,
        opcode_bits(0x00004003u32) == 3,
        funct3_bits(0x00004003u32) == 4,
        0x00004003u32 & 0xffff8f80 == 0,
        opcode_bits(0x00005003u32) == 3,
        funct3_bits(0x00005003u32) == 5,
        0x00005003u32 & 0xffff8f80 == 0,
        opcode_bits(0x00000023u32) == 35,
        funct3_bits(0x00000023u32) == 0,
        0x00000023u32 & 0xffff8f80 == 0,
        opcode_bits(0x00001023u32) == 35,
        funct3_bits(0x00001023u32) == 1,
        0x00001023u32 & 0xffff8f80 == 0,
        opcode_bits(0x00002023u32) == 35,
        funct3_bits(0x00002023u32) == 2,
        0x00002023u32 & 0xffff8f80 == 0,
        opcode_bits(0x00000013u32) == 19,
        funct3_bits(0x00000013u32) == 0,
        0x00000013u32 & 0xffff8f80 == 0,
        opcode_bits(0x00002013u32) == 19,
        funct3_bits(0x00002013u32) == 2,
        0x00002013u32 & 0xffff8f80 == 0,
        opcode_bits(0x00003013u32) == 19,
        funct3_bits(0x00003013u32) == 3,
        0x00003013u32 & 0xffff8f80 == 0,
        opcode_bits(0x00004013u32) == 19,
        funct3_bits(0x00004013u32) == 4,
        0x00004013u32 & 0xffff8f80 == 0,
        opcode_bits(0x00006013u32) == 19,
        funct3_bits(0x00006013u32) == 6,
        0x00006013u32 & 0xffff8f80 == 0,
        opcode_bits(0x00007013u32) == 19,
        funct3_bits(0x00007013u32) == 7,
        0x00007013u32 & 0xffff8f80 == 0,
        opcode_bits(0x00001013u32) == 19,
        funct3_bits(0x00001013u32) == 1,
        funct7_bits(0x00001013u32) == 0,
        0x00001013u32 & 0x01ff8f80 == 0,
        opcode_bits(0x00005013u32) == 19,
        funct3_bits(0x00005013u32) == 5,
        funct7_bits(0x00005013u32) == 0,
        0x00005013u32 & 0x01ff8f80 == 0,
        opcode_bits(0x40005013u32) == 19,
        funct3_bits(0x40005013u32) == 5,
        funct7_bits(0x40005013u32) == 32,
        0x40005013u32 & 0x01ff8f80 == 0,
        opcode_bits(0x00000033u32) == 51,
        funct3_bits(0x00000033u32) == 0,
        funct7_bits(0x00000033u32) == 0,
        0x00000033u32 & 0x01ff8f80 == 0,
        opcode_bits(0x40000033u32) == 51,
        funct3_bits(0x40000033u32) == 0,
        funct7_bits(0x40000033u32) == 32,
        0x40000033u32 & 0x01ff8f80 == 0,
        opcode_bits(0x00001033u32) == 51,
        funct3_bits(0x00001033u32) == 1,
        funct7_bits(0x00001033u32) == 0,
        0x00001033u32 & 0x01ff8f80 == 0,
        opcode_bits(0x00002033u32) == 51,
        funct3_bits(0x00002033u32) == 2,
        funct7_bits(0x00002033u32) == 0,
        0x00002033u32 & 0x01ff8f80 == 0,
        opcode_bits(0x00003033u32) == 51,
        funct3_bits(0x00003033u32) == 3,
        funct7_bits(0x00003033u32) == 0,
        0x00003033u32 & 0x01ff8f80 == 0,
        opcode_bits(0x00004033u32) == 51,
        funct3_bits(0x00004033u32) == 4,
        funct7_bits(0x00004033u32) == 0,
        0x00004033u32 & 0x01ff8f80 == 0,
        opcode_bits(0x00005033u32) == 51,
        funct3_bits(0x00005033u32) == 5,
        funct7_bits(0x00005033u32) == 0,
        0x00005033u32 & 0x01ff8f80 == 0,
        opcode_bits(0x40005033u32) == 51,
        funct3_bits(0x40005033u32) == 5,
        funct7_bits(0x40005033u32) == 32,
        0x40005033u32 & 0x01ff8f80 == 0,
        opcode_bits(0x00006033u32) == 51,
        funct3_bits(0x00006033u32) == 6,
        funct7_bits(0x00006033u32) == 0,
        0x00006033u32 & 0x01ff8f80 == 0,
        opcode_bits(0x00007033u32) == 51,
        funct3_bits(0x00007033u32) == 7,
        funct7_bits(0x00007033u32) == 0,
        0x00007033u32 & 0x01ff8f80 == 0,
        opcode_bits(0x0000000fu32) == 15,
        funct3_bits(0x0000000fu32) == 0,
        0x0000000fu32 & 0xffff8f80 == 0,
        opcode_bits(0x00000073u32) == 115,
        funct3_bits(0x00000073u32) == 0,
        funct12_bits(0x00000073u32) == 0,
        opcode_bits(0x00100073u32) == 115,
        funct3_bits(0x00100073u32) == 0,
        funct12_bits(0x00100073u32) == 1,
        opcode_bits(0x0000100fu32) == 15,
        funct3_bits(0x0000100fu32) == 1,
        opcode_bits(0x00001073u32) == 115,
        funct3_bits(0x00001073u32) == 1,
        0x00001073u32 & 0xffff8f80 == 0,
        opcode_bits(0x00002073u32) == 115,
        funct3_bits(0x00002073u32) == 2,
        0x00002073u32 & 0xffff8f80 == 0,
        opcode_bits(0x00003073u32) == 115,
        funct3_bits(0x00003073u32) == 3,
        0x00003073u32 & 0xffff8f80 == 0,
        opcode_bits(0x00005073u32) == 115,
        funct3_bits(0x00005073u32) == 5,
        0x00005073u32 & 0xffff8f80 == 0,
        opcode_bits(0x00006073u32) == 115,
        funct3_bits(0x00006073u32) == 6,
        0x00006073u32 & 0xffff8f80 == 0,
        opcode_bits(0x00007073u32) == 115,
        funct3_bits(0x00007073u32) == 7,
        0x00007073u32 & 0xffff8f80 == 0,
        opcode_bits(0x02000033u32) == 51,
        funct3_bits(0x02000033u32) == 0,
        funct7_bits(0x02000033u32) == 1,
        0x02000033u32 & 0x01ff8f80 == 0,
        opcode_bits(0x02001033u32) == 51,
        funct3_bits(0x02001033u32) == 1,
        funct7_bits(0x02001033u32) == 1,
        0x02001033u32 & 0x01ff8f80 == 0,
        opcode_bits(0x02002033u32) == 51,
        funct3_bits(0x02002033u32) == 2,
        funct7_bits(0x02002033u32) == 1,
        0x02002033u32 & 0x01ff8f80 == 0,
        opcode_bits(0x02003033u32) == 51,
        funct3_bits(0x02003033u32) == 3,
        funct7_bits(0x02003033u32) == 1,
        0x02003033u32 & 0x01ff8f80 == 0,
        opcode_bits(0x02004033u32) == 51,
        funct3_bits(0x02004033u32) == 4,
        funct7_bits(0x02004033u32) == 1,
        0x02004033u32 & 0x01ff8f80 == 0,
        opcode_bits(0x02005033u32) == 51,
        funct3_bits(0x02005033u32) == 5,
        funct7_bits(0x02005033u32) == 1,
        0x02005033u32 & 0x01ff8f80 == 0,
        opcode_bits(0x02006033u32) == 51,
        funct3_bits(0x02006033u32) == 6,
        funct7_bits(0x02006033u32) == 1,
        0x02006033u32 & 0x01ff8f80 == 0,
        opcode_bits(0x02007033u32) == 51,
        funct3_bits(0x02007033u32) == 7,
        funct7_bits(0x02007033u32) == 1,
        0x02007033u32 & 0x01ff8f80 == 0,
        opcode_bits(0x1000202fu32) == 47,
        funct3_bits(0x1000202fu32) == 2,
        funct5_bits(0x1000202fu32) == 2,
        0x1000202fu32 & 0x07ff8f80 == 0,
        opcode_bits(0x1800202fu32) == 47,
        funct3_bits(0x1800202fu32) == 2,
        funct5_bits(0x1800202fu32) == 3,
        0x1800202fu32 & 0x07ff8f80 == 0,
        opcode_bits(0x0800202fu32) == 47,
        funct3_bits(0x0800202fu32) == 2,
        funct5_bits(0x0800202fu32) == 1,
        0x0800202fu32 & 0x07ff8f80 == 0,
        opcode_bits(0x0000202fu32) == 47,
        funct3_bits(0x0000202fu32) == 2,
        funct5_bits(0x0000202fu32) == 0,
        0x0000202fu32 & 0x07ff8f80 == 0,
        opcode_bits(0x2000202fu32) == 47,
        funct3_bits(0x2000202fu32) == 2,
        funct5_bits(0x2000202fu32) == 4,
        0x2000202fu32 & 0x07ff8f80 == 0,
        opcode_bits(0x6000202fu32) == 47,
        funct3_bits(0x6000202fu32) == 2,
        funct5_bits(0x6000202fu32) == 12,
        0x6000202fu32 & 0x07ff8f80 == 0,
        opcode_bits(0x4000202fu32) == 47,
        funct3_bits(0x4000202fu32) == 2,
        funct5_bits(0x4000202fu32) == 8,
        0x4000202fu32 & 0x07ff8f80 == 0,
        opcode_bits(0x8000202fu32) == 47,
        funct3_bits(0x8000202fu32) == 2,
        funct5_bits(0x8000202fu32) == 16,
        0x8000202fu32 & 0x07ff8f80 == 0,
        opcode_bits(0xa000202fu32) == 47,
        funct3_bits(0xa000202fu32) == 2,
        funct5_bits(0xa000202fu32) == 20,
        0xa000202fu32 & 0x07ff8f80 == 0,
        opcode_bits(0xc000202fu32) == 47,
        funct3_bits(0xc000202fu32) == 2,
        funct5_bits(0xc000202fu32) == 24,
        0xc000202fu32 & 0x07ff8f80 == 0,
        opcode_bits(0xe000202fu32) == 47,
        funct3_bits(0xe000202fu32) == 2,
        funct5_bits(0xe000202fu32) == 28,
        0xe000202fu32 & 0x07ff8f80 == 0,
{
}

/// An R-format word gives back the fields that were put into its template.
proof fn lemma_format_r(t: u32, rd: u32, rs1: u32, rs2: u32)
    by (bit_vector)
    requires
        t & 0x01ff8f80 == 0,
        rd < 32,
        rs1 < 32,
        rs2 < 32,
    ensures
        ({
            let w = t | ((rd << 7) | (rs1 << 15) | (rs2 << 20));
            &&& opcode_bits(w) == opcode_bits(t)
            &&& funct3_bits(w) == funct3_bits(t)
            &&& funct7_bits(w) == funct7_bits(t)
            &&& rd_bits(w) == rd
            &&& rs1_bits(w) == rs1
            &&& rs2_bits(w) == rs2
        }),
{
}

/// A word with twelve free upper bits gives back what was put into its template.
proof fn lemma_format_upper(t: u32, rd: u32, rs1: u32, upper: u32)
    by (bit_vector)
    requires
        t & 0xffff8f80 == 0,
        rd < 32,
        rs1 < 32,
        upper < 4096,
    ensures
        ({
            let w = t | ((rd << 7) | (rs1 << 15) | (upper << 20));
            &&& opcode_bits(w) == opcode_bits(t)
            &&& funct3_bits(w) == funct3_bits(t)
            &&& rd_bits(w) == rd
            &&& rs1_bits(w) == rs1
            &&& funct12_bits(w) == upper
        }),
{
}

/// An I-format word gives back the fields that were put into its template.
proof fn lemma_format_i(t: u32, rd: u32, rs1: u32, v: i32)
    by (bit_vector)
    requires
        t & 0xffff8f80 == 0,
        rd < 32,
        rs1 < 32,
        -2048 <= v < 2048,
    ensures
        ({
            let w = t | ((rd << 7) | (rs1 << 15) | enc_imm_i(v));
            &&& opcode_bits(w) == opcode_bits(t)
            &&& funct3_bits(w) == funct3_bits(t)
            &&& rd_bits(w) == rd
            &&& rs1_bits(w) == rs1
            &&& imm_i_bits(w) == v
        }),
{
}

/// An S-format word gives back the fields that were put into its template.
proof fn lemma_format_s(t: u32, rs1: u32, rs2: u32, v: i32)
    by (bit_vector)
    requires
        t & 0xffff8f80 == 0,
        rs1 < 32,
        rs2 < 32,
        -2048 <= v < 2048,
    ensures
        ({
            let w = t | ((rs1 << 15) | (rs2 << 20) | enc_imm_s(v));
            &&& opcode_bits(w) == opcode_bits(t)
            &&& funct3_bits(w) == funct3_bits(t)
            &&& rs1_bits(w) == rs1
            &&& rs2_bits(w) == rs2
            &&& imm_s_bits(w) == v
        }),
{
}

/// A B-format word gives back the fields that were put into its template.
proof fn lemma_format_b(t: u32, rs1: u32, rs2: u32, v: i32)
    by (bit_vector)
    requires
        t & 0xffff8f80 == 0,
        rs1 < 32,
        rs2 < 32,
        -4096 <= v < 4096,
        v & 1 == 0,
    ensures
        ({
            let w = t | ((rs1 << 15) | (rs2 << 20) | enc_imm_b(v));
            &&& opcode_bits(w) == opcode_bits(t)
            &&& funct3_bits(w) == funct3_bits(t)
            &&& rs1_bits(w) == rs1
            &&& rs2_bits(w) == rs2
            &&& imm_b_bits(w) == v
        }),
{
}

/// A U-format word gives back the fields that were put into its template.
proof fn lemma_format_u(t: u32, rd: u32, v: i32)
    by (bit_vector)
    requires
        t & 0xffffff80 == 0,
        rd < 32,
        v & 0xfff == 0,
    ensures
        ({
            let w = t | ((rd << 7) | enc_imm_u(v));
            &&& opcode_bits(w) == opcode_bits(t)
            &&& rd_bits(w) == rd
            &&& imm_u_bits(w) == v
        }),
{
}

/// A J-format word gives back the fields that were put into its template.
proof fn lemma_format_j(t: u32, rd: u32, v: i32)
    by (bit_vector)
    requires
        t & 0xffffff80 == 0,
        rd < 32,
        -0x10_0000 <= v < 0x10_0000,
        v & 1 == 0,
    ensures
        ({
            let w = t | ((rd << 7) | enc_imm_j(v));
            &&& opcode_bits(w) == opcode_bits(t)
            &&& rd_bits(w) == rd
            &&& imm_j_bits(w) == v
        }),
{
}

/// A fence gives back the fields that were put into its template.
proof fn lemma_format_fence(t: u32, rd: u32, rs1: u32, pred: u32, succ: u32, fm: u32)
    by (bit_vector)
    requires
        t & 0xffff8f80 == 0,
        rd < 32,
        rs1 < 32,
        pred < 16,
        succ < 16,
        fm == 0 || fm == 0x8000_0000 || fm == 0x1000_0000,
    ensures
        ({
            let w = t | ((rd << 7) | (rs1 << 15) | (fm | (pred << 24) | (succ << 20)));
            &&& opcode_bits(w) == opcode_bits(t)
            &&& funct3_bits(w) == funct3_bits(t)
            &&& rd_bits(w) == rd
            &&& rs1_bits(w) == rs1
            &&& pred_bits(w) == pred
            &&& succ_bits(w) == succ
            &&& fm_bits(w) == fm >> 28
            &&& (fm == 0 ==> fm >> 28 == 0)
            &&& (fm == 0x8000_0000 ==> fm >> 28 == 8)
            &&& (fm == 0x1000_0000 ==> fm >> 28 == 1)
        }),
{
}

/// An atomic instruction gives back the fields that were put into its template.
proof fn lemma_format_a(t: u32, rd: u32, rs1: u32, rs2: u32, aq: bool, rl: bool)
    by (bit_vector)
    requires
        t & 0x07ff8f80 == 0,
        rd < 32,
        rs1 < 32,
        rs2 < 32,
    ensures
        ({
            let w = t | ((rd << 7) | (rs1 << 15) | (rs2 << 20) | enc_aq_rl(aq, rl));
            let v = t | ((rd << 7) | (rs1 << 15) | enc_aq_rl(aq, rl));
            &&& opcode_bits(w) == opcode_bits(t)
            &&& funct3_bits(w) == funct3_bits(t)
            &&& funct5_bits(w) == funct5_bits(t)
            &&& rd_bits(w) == rd
            &&& rs1_bits(w) == rs1
            &&& rs2_bits(w) == rs2
            &&& aq_bit(w) == aq
            &&& rl_bit(w) == rl
            &&& opcode_bits(v) == opcode_bits(t)
            &&& funct3_bits(v) == funct3_bits(t)
            &&& funct5_bits(v) == funct5_bits(t)
            &&& rd_bits(v) == rd
            &&& rs1_bits(v) == rs1
            &&& aq_bit(v) == aq
            &&& rl_bit(v) == rl
        }),
{
}

/// Oddness and the low twelve bits, as the formats ask for them.
proof fn lemma_low_bits(v: i32)
    by (bit_vector)
    ensures
        (v & 1 == 0) <==> (v as int) % 2 == 0,
        (v & 0xfff == 0) <==> (v as int) % 4096 == 0,
{
}

/// The registers that a word names carry the numbers in its fields.
proof fn lemma_register_fields(w: u32)
    ensures
        spec_rd(w).number() == rd_bits(w),
        spec_rs1(w).number() == rs1_bits(w),
        spec_rs2(w).number() == rs2_bits(w),
        enc_rd(spec_rd(w)) == rd_bits(w) << 7,
        enc_rs1(spec_rs1(w)) == rs1_bits(w) << 15,
        enc_rs2(spec_rs2(w)) == rs2_bits(w) << 20,
{
    lemma_field_ranges(w);
}

/// Whether decoding `w`, encoding the result and decoding again gives the
/// first result, or `w` is no instruction.
pub open spec fn round_trips(w: u32, ext: Extensions) -> bool {
    let inst = decode_spec(w, ext);
    !(inst is Invalid) ==> decode_spec(inst.spec_encode(), ext) == inst
}

proof fn lemma_round_trip_load(w: u32, ext: Extensions)
    requires
        OpCode::spec_from_u32(opcode_bits(w)) == OpCode::Load,
    ensures
        round_trips(w, ext),
{
    lemma_field_ranges(w);
    lemma_templates();
    lemma_register_fields(w);
    let inst = decode_spec(w, ext);
    let t = inst.spec_kind().spec_template();
    if !(inst is Invalid) {
        Int12::lemma_new(imm_i_bits(w) as int);
        lemma_format_i(t, rd_bits(w), rs1_bits(w), imm_i_bits(w));
    }
}

proof fn lemma_round_trip_jalr(w: u32, ext: Extensions)
    requires
        OpCode::spec_from_u32(opcode_bits(w)) == OpCode::Jalr,
    ensures
        round_trips(w, ext),
{
    lemma_field_ranges(w);
    lemma_templates();
    lemma_register_fields(w);
    let inst = decode_spec(w, ext);
    let t = inst.spec_kind().spec_template();
    if !(inst is Invalid) {
        Int12::lemma_new(imm_i_bits(w) as int);
        lemma_format_i(t, rd_bits(w), rs1_bits(w), imm_i_bits(w));
    }
}

proof fn lemma_round_trip_opimm(w: u32, ext: Extensions)
    requires
        OpCode::spec_from_u32(opcode_bits(w)) == OpCode::OpImm,
    ensures
        round_trips(w, ext),
{
    lemma_field_ranges(w);
    lemma_templates();
    lemma_register_fields(w);
    let inst = decode_spec(w, ext);
    let t = inst.spec_kind().spec_template();
    if !(inst is Invalid) {
        if inst is Slli || inst is Srli || inst is Srai {
            UInt5::lemma_new(rs2_bits(w) as int);
            lemma_format_r(t, rd_bits(w), rs1_bits(w), rs2_bits(w));
        } else {
            Int12::lemma_new(imm_i_bits(w) as int);
            lemma_format_i(t, rd_bits(w), rs1_bits(w), imm_i_bits(w));
        }
    }
}

proof fn lemma_round_trip_store(w: u32, ext: Extensions)
    requires
        OpCode::spec_from_u32(opcode_bits(w)) == OpCode::Store,
    ensures
        round_trips(w, ext),
{
    lemma_field_ranges(w);
    lemma_templates();
    lemma_register_fields(w);
    let inst = decode_spec(w, ext);
    let t = inst.spec_kind().spec_template();
    if !(inst is Invalid) {
        Int12::lemma_new(imm_s_bits(w) as int);
        lemma_format_s(t, rs1_bits(w), rs2_bits(w), imm_s_bits(w));
    }
}

proof fn lemma_round_trip_branch(w: u32, ext: Extensions)
    requires
        OpCode::spec_from_u32(opcode_bits(w)) == OpCode::Branch,
    ensures
        round_trips(w, ext),
{
    lemma_field_ranges(w);
    lemma_templates();
    lemma_register_fields(w);
    let inst = decode_spec(w, ext);
    let t = inst.spec_kind().spec_template();
    if !(inst is Invalid) {
        Int13Trunc1::lemma_new(imm_b_bits(w) as int);
        lemma_low_bits(imm_b_bits(w));
        lemma_format_b(t, rs1_bits(w), rs2_bits(w), imm_b_bits(w));
    }
}

proof fn lemma_round_trip_lui(w: u32, ext: Extensions)
    requires
        OpCode::spec_from_u32(opcode_bits(w)) == OpCode::Lui,
    ensures
        round_trips(w, ext),
{
    lemma_field_ranges(w);
    lemma_templates();
    lemma_register_fields(w);
    let inst = decode_spec(w, ext);
    let t = inst.spec_kind().spec_template();
    if !(inst is Invalid) {
        Int32Trunc12::lemma_new(imm_u_bits(w) as int);
        lemma_low_bits(imm_u_bits(w));
        lemma_format_u(t, rd_bits(w), imm_u_bits(w));
    }
}

proof fn lemma_round_trip_auipc(w: u32, ext: Extensions)
    requires
        OpCode::spec_from_u32(opcode_bits(w)) == OpCode::Auipc,
    ensures
        round_trips(w, ext),
{
    lemma_field_ranges(w);
    lemma_templates();
    lemma_register_fields(w);
    let inst = decode_spec(w, ext);
    let t = inst.spec_kind().spec_template();
    if !(inst is Invalid) {
        Int32Trunc12::lemma_new(imm_u_bits(w) as int);
        lemma_low_bits(imm_u_bits(w));
        lemma_format_u(t, rd_bits(w), imm_u_bits(w));
    }
}

proof fn lemma_round_trip_jal(w: u32, ext: Extensions)
    requires
        OpCode::spec_from_u32(opcode_bits(w)) == OpCode::Jal,
    ensures
        round_trips(w, ext),
{
    lemma_field_ranges(w);
    lemma_templates();
    lemma_register_fields(w);
    let inst = decode_spec(w, ext);
    let t = inst.spec_kind().spec_template();
    if !(inst is Invalid) {
        Int21Trunc1::lemma_new(imm_j_bits(w) as int);
        lemma_low_bits(imm_j_bits(w));
        lemma_format_j(t, rd_bits(w), imm_j_bits(w));
    }
}

proof fn lemma_round_trip_op(w: u32, ext: Extensions)
    requires
        OpCode::spec_from_u32(opcode_bits(w)) == OpCode::Op,
    ensures
        round_trips(w, ext),
{
    lemma_field_ranges(w);
    lemma_templates();
    lemma_register_fields(w);
    let inst = decode_spec(w, ext);
    let t = inst.spec_kind().spec_template();
    if !(inst is Invalid) {
        lemma_format_r(t, rd_bits(w), rs1_bits(w), rs2_bits(w));
    }
}

proof fn lemma_round_trip_amo(w: u32, ext: Extensions)
    requires
        OpCode::spec_from_u32(opcode_bits(w)) == OpCode::Amo,
    ensures
        round_trips(w, ext),
{
    lemma_field_ranges(w);
    lemma_templates();
    lemma_register_fields(w);
    let inst = decode_spec(w, ext);
    let t = inst.spec_kind().spec_template();
    if !(inst is Invalid) {
        lemma_format_a(t, rd_bits(w), rs1_bits(w), rs2_bits(w), aq_bit(w), rl_bit(w));
    }
}

proof fn lemma_round_trip_miscmem(w: u32, ext: Extensions)
    requires
        OpCode::spec_from_u32(opcode_bits(w)) == OpCode::MiscMem,
    ensures
        round_trips(w, ext),
{
    lemma_field_ranges(w);
    lemma_templates();
    lemma_register_fields(w);
    let inst = decode_spec(w, ext);
    let t = inst.spec_kind().spec_template();
    if !(inst is Invalid) {
        if inst is Fence {
            FenceSet::lemma_new(pred_bits(w) as int);
            FenceSet::lemma_new(succ_bits(w) as int);
            let fm: u32 = match inst->mode {
                FenceMode::Normal => 0u32,
                FenceMode::Tso => 0x8000_0000u32,
                FenceMode::Other => 0x1000_0000u32,
            };
            lemma_format_fence(t, rd_bits(w), rs1_bits(w), pred_bits(w), succ_bits(w), fm);
        } else {
            lemma_zero_fields(t);
        }
    }
}

proof fn lemma_round_trip_system(w: u32, ext: Extensions)
    requires
        OpCode::spec_from_u32(opcode_bits(w)) == OpCode::System,
    ensures
        round_trips(w, ext),
{
    lemma_field_ranges(w);
    lemma_templates();
    lemma_register_fields(w);
    let inst = decode_spec(w, ext);
    let t = inst.spec_kind().spec_template();
    if !(inst is Invalid) {
        if inst is Ecall || inst is Ebreak {
            lemma_zero_fields(t);
        } else {
            Csr::lemma_new(funct12_bits(w) as int);
            UInt5::lemma_new(rs1_bits(w) as int);
            lemma_format_upper(t, rd_bits(w), rs1_bits(w), funct12_bits(w));
        }
    }
}

/// A template with nothing put in is the template.
proof fn lemma_zero_fields(t: u32)
    by (bit_vector)
    ensures
        t | 0 == t,
{
}

/// Decoding is a left inverse of encoding on what decoding gives: for every
/// word that is an instruction of the enabled set, the decoded instruction,
/// encoded from the template of its kind and decoded again, is the same
/// instruction with the same fields.
pub proof fn lemma_decode_encode_round_trip(w: u32, ext: Extensions)
    ensures
        !(decode_spec(w, ext) is Invalid) ==> decode_spec(decode_spec(w, ext).spec_encode(), ext)
            == decode_spec(w, ext),
{
    match OpCode::spec_from_u32(opcode_bits(w)) {
        OpCode::Load => lemma_round_trip_load(w, ext),
        OpCode::MiscMem => lemma_round_trip_miscmem(w, ext),
        OpCode::OpImm => lemma_round_trip_opimm(w, ext),
        OpCode::Auipc => lemma_round_trip_auipc(w, ext),
        OpCode::Store => lemma_round_trip_store(w, ext),
        OpCode::Amo => lemma_round_trip_amo(w, ext),
        OpCode::Op => lemma_round_trip_op(w, ext),
        OpCode::Lui => lemma_round_trip_lui(w, ext),
        OpCode::Branch => lemma_round_trip_branch(w, ext),
        OpCode::Jalr => lemma_round_trip_jalr(w, ext),
        OpCode::Jal => lemma_round_trip_jal(w, ext),
        OpCode::System => lemma_round_trip_system(w, ext),
        OpCode::Invalid => {},
    }
}

} // verus!
