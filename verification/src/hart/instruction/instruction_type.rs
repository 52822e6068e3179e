use vstd::prelude::*;
use crate::hart::instruction::types::OpCode;

verus! {

/// The kind of an instruction, without its fields.
#[derive(Copy, Clone, Debug, PartialEq, Eq, Structural)]
pub enum InstructionKind {
    Lui,
    Auipc,
    Jal,
    Jalr,
    Beq,
    Bne,
    Blt,
    Bge,
    Bltu,
    Bgeu,
    Lb,
    Lh,
    Lw,
    Lbu,
    Lhu,
    Sb,
    Sh,
    Sw,
    Addi,
    Slti,
    Sltiu,
    Xori,
    Ori,
    Andi,
    Slli,
    Srli,
    Srai,
    Add,
    Sub,
    Sll,
    Slt,
    Sltu,
    Xor,
    Srl,
    Sra,
    Or,
    And,
    Fence,
    Ecall,
    Ebreak,
    Fencei,
    CsrRw,
    CsrRs,
    CsrRc,
    CsrRwi,
    CsrRsi,
    CsrRci,
    Mul,
    Mulh,
    Mulhsu,
    Mulhu,
    Div,
    Divu,
    Rem,
    Remu,
    Lrw,
    Scw,
    AmoSwapw,
    AmoAddw,
    AmoXorw,
    AmoAndw,
    AmoOrw,
    AmoMinw,
    AmoMaxw,
    AmoMinuw,
    AmoMaxuw,
    /// No instruction. It is the last kind.
    Invalid,
}

impl InstructionKind {
    /// The opcode class that instructions of this kind belong to.
    pub open spec fn spec_opcode(self) -> OpCode {
        match self {
            InstructionKind::Lui => OpCode::Lui,
            InstructionKind::Auipc => OpCode::Auipc,
            InstructionKind::Jal => OpCode::Jal,
            InstructionKind::Jalr => OpCode::Jalr,
            InstructionKind::Beq => OpCode::Branch,
            InstructionKind::Bne => OpCode::Branch,
            InstructionKind::Blt => OpCode::Branch,
            InstructionKind::Bge => OpCode::Branch,
            InstructionKind::Bltu => OpCode::Branch,
            InstructionKind::Bgeu => OpCode::Branch,
            InstructionKind::Lb => OpCode::Load,
            InstructionKind::Lh => OpCode::Load,
            InstructionKind::Lw => OpCode::Load,
            InstructionKind::Lbu => OpCode::Load,
            InstructionKind::Lhu => OpCode::Load,
            InstructionKind::Sb => OpCode::Store,
            InstructionKind::Sh => OpCode::Store,
            InstructionKind::Sw => OpCode::Store,
            InstructionKind::Addi => OpCode::OpImm,
            InstructionKind::Slti => OpCode::OpImm,
            InstructionKind::Sltiu => OpCode::OpImm,
            InstructionKind::Xori => OpCode::OpImm,
            InstructionKind::Ori => OpCode::OpImm,
            InstructionKind::Andi => OpCode::OpImm,
            InstructionKind::Slli => OpCode::OpImm,
            InstructionKind::Srli => OpCode::OpImm,
            InstructionKind::Srai => OpCode::OpImm,
            InstructionKind::Add => OpCode::Op,
            InstructionKind::Sub => OpCode::Op,
            InstructionKind::Sll => OpCode::Op,
            InstructionKind::Slt => OpCode::Op,
            InstructionKind::Sltu => OpCode::Op,
            InstructionKind::Xor => OpCode::Op,
            InstructionKind::Srl => OpCode::Op,
            InstructionKind::Sra => OpCode::Op,
            InstructionKind::Or => OpCode::Op,
            InstructionKind::And => OpCode::Op,
            InstructionKind::Fence => OpCode::MiscMem,
            InstructionKind::Ecall => OpCode::System,
            InstructionKind::Ebreak => OpCode::System,
            InstructionKind::Fencei => OpCode::MiscMem,
            InstructionKind::CsrRw => OpCode::System,
            InstructionKind::CsrRs => OpCode::System,
            InstructionKind::CsrRc => OpCode::System,
            InstructionKind::CsrRwi => OpCode::System,
            InstructionKind::CsrRsi => OpCode::System,
            InstructionKind::CsrRci => OpCode::System,
            InstructionKind::Mul => OpCode::Op,
            InstructionKind::Mulh => OpCode::Op,
            InstructionKind::Mulhsu => OpCode::Op,
            InstructionKind::Mulhu => OpCode::Op,
            InstructionKind::Div => OpCode::Op,
            InstructionKind::Divu => OpCode::Op,
            InstructionKind::Rem => OpCode::Op,
            InstructionKind::Remu => OpCode::Op,
            InstructionKind::Lrw => OpCode::Amo,
            InstructionKind::Scw => OpCode::Amo,
            InstructionKind::AmoSwapw => OpCode::Amo,
            InstructionKind::AmoAddw => OpCode::Amo,
            InstructionKind::AmoXorw => OpCode::Amo,
            InstructionKind::AmoAndw => OpCode::Amo,
            InstructionKind::AmoOrw => OpCode::Amo,
            InstructionKind::AmoMinw => OpCode::Amo,
            InstructionKind::AmoMaxw => OpCode::Amo,
            InstructionKind::AmoMinuw => OpCode::Amo,
            InstructionKind::AmoMaxuw => OpCode::Amo,
            InstructionKind::Invalid => OpCode::Invalid,
        }
    }

    /// The encoding of this kind with every field at zero.
    pub open spec fn spec_template(self) -> u32 {
        match self {
            InstructionKind::Lui => 0b0000000_00000_00000_000_00000_0110111,
            InstructionKind::Auipc => 0b0000000_00000_00000_000_00000_0010111,
            InstructionKind::Jal => 0b0000000_00000_00000_000_00000_1101111,
            InstructionKind::Jalr => 0b0000000_00000_00000_000_00000_1100111,
            InstructionKind::Beq => 0b0000000_00000_00000_000_00000_1100011,
            InstructionKind::Bne => 0b0000000_00000_00000_001_00000_1100011,
            InstructionKind::Blt => 0b0000000_00000_00000_100_00000_1100011,
            InstructionKind::Bge => 0b0000000_00000_00000_101_00000_1100011,
            InstructionKind::Bltu => 0b0000000_00000_00000_110_00000_1100011,
            InstructionKind::Bgeu => 0b0000000_00000_00000_111_00000_1100011,
            InstructionKind::Lb => 0b0000000_00000_00000_000_00000_0000011,
            InstructionKind::Lh => 0b0000000_00000_00000_001_00000_0000011,
            InstructionKind::Lw => 0b0000000_00000_00000_010_00000_0000011,
            InstructionKind::Lbu => 0b0000000_00000_00000_100_00000_0000011,
            InstructionKind::Lhu => 0b0000000_00000_00000_101_00000_0000011,
            InstructionKind::Sb => 0b0000000_00000_00000_000_00000_0100011,
            InstructionKind::Sh => 0b0000000_00000_00000_001_00000_0100011,
            InstructionKind::Sw => 0b0000000_00000_00000_010_00000_0100011,
            InstructionKind::Addi => 0b0000000_00000_00000_000_00000_0010011,
            InstructionKind::Slti => 0b0000000_00000_00000_010_00000_0010011,
            InstructionKind::Sltiu => 0b0000000_00000_00000_011_00000_0010011,
            InstructionKind::Xori => 0b0000000_00000_00000_100_00000_0010011,
            InstructionKind::Ori => 0b0000000_00000_00000_110_00000_0010011,
            InstructionKind::Andi => 0b0000000_00000_00000_111_00000_0010011,
            InstructionKind::Slli => 0b0000000_00000_00000_001_00000_0010011,
            InstructionKind::Srli => 0b0000000_00000_00000_101_00000_0010011,
            InstructionKind::Srai => 0b0100000_00000_00000_101_00000_0010011,
            InstructionKind::Add => 0b0000000_00000_00000_000_00000_0110011,
            InstructionKind::Sub => 0b0100000_00000_00000_000_00000_0110011,
            InstructionKind::Sll => 0b0000000_00000_00000_001_00000_0110011,
            InstructionKind::Slt => 0b0000000_00000_00000_010_00000_0110011,
            InstructionKind::Sltu => 0b0000000_00000_00000_011_00000_0110011,
            InstructionKind::Xor => 0b0000000_00000_00000_100_00000_0110011,
            InstructionKind::Srl => 0b0000000_00000_00000_101_00000_0110011,
            InstructionKind::Sra => 0b0100000_00000_00000_101_00000_0110011,
            InstructionKind::Or => 0b0000000_00000_00000_110_00000_0110011,
            InstructionKind::And => 0b0000000_00000_00000_111_00000_0110011,
            InstructionKind::Fence => 0b0000000_00000_00000_000_00000_0001111,
            InstructionKind::Ecall => 0b0000000_00000_00000_000_00000_1110011,
            InstructionKind::Ebreak => 0b0000000_00001_00000_000_00000_1110011,
            InstructionKind::Fencei => 0b0000000_00000_00000_001_00000_0001111,
            InstructionKind::CsrRw => 0b0000000_00000_00000_001_00000_1110011,
            InstructionKind::CsrRs => 0b0000000_00000_00000_010_00000_1110011,
            InstructionKind::CsrRc => 0b0000000_00000_00000_011_00000_1110011,
            InstructionKind::CsrRwi => 0b0000000_00000_00000_101_00000_1110011,
            InstructionKind::CsrRsi => 0b0000000_00000_00000_110_00000_1110011,
            InstructionKind::CsrRci => 0b0000000_00000_00000_111_00000_1110011,
            InstructionKind::Mul => 0b0000001_00000_00000_000_00000_0110011,
            InstructionKind::Mulh => 0b0000001_00000_00000_001_00000_0110011,
            InstructionKind::Mulhsu => 0b0000001_00000_00000_010_00000_0110011,
            InstructionKind::Mulhu => 0b0000001_00000_00000_011_00000_0110011,
            InstructionKind::Div => 0b0000001_00000_00000_100_00000_0110011,
            InstructionKind::Divu => 0b0000001_00000_00000_101_00000_0110011,
            InstructionKind::Rem => 0b0000001_00000_00000_110_00000_0110011,
            InstructionKind::Remu => 0b0000001_00000_00000_111_00000_0110011,
            InstructionKind::Lrw => 0b0001000_00000_00000_010_00000_0101111,
            InstructionKind::Scw => 0b0001100_00000_00000_010_00000_0101111,
            InstructionKind::AmoSwapw => 0b0000100_00000_00000_010_00000_0101111,
            InstructionKind::AmoAddw => 0b0000000_00000_00000_010_00000_0101111,
            InstructionKind::AmoXorw => 0b0010000_00000_00000_010_00000_0101111,
            InstructionKind::AmoAndw => 0b0110000_00000_00000_010_00000_0101111,
            InstructionKind::AmoOrw => 0b0100000_00000_00000_010_00000_0101111,
            InstructionKind::AmoMinw => 0b1000000_00000_00000_010_00000_0101111,
            InstructionKind::AmoMaxw => 0b1010000_00000_00000_010_00000_0101111,
            InstructionKind::AmoMinuw => 0b1100000_00000_00000_010_00000_0101111,
            InstructionKind::AmoMaxuw => 0b1110000_00000_00000_010_00000_0101111,
            InstructionKind::Invalid => 0,
        }
    }

    /// The opcode class that instructions of this kind belong to.
    pub fn opcode(&self) -> (op: OpCode)
        ensures
            op == self.spec_opcode(),
    {
        match self {
            InstructionKind::Lui => OpCode::Lui,
            InstructionKind::Auipc => OpCode::Auipc,
            InstructionKind::Jal => OpCode::Jal,
            InstructionKind::Jalr => OpCode::Jalr,
            InstructionKind::Beq | InstructionKind::Bne | InstructionKind::Blt | InstructionKind::Bge | InstructionKind::Bltu | InstructionKind::Bgeu => OpCode::Branch,
            InstructionKind::Lb | InstructionKind::Lh | InstructionKind::Lw | InstructionKind::Lbu | InstructionKind::Lhu => OpCode::Load,
            InstructionKind::Sb | InstructionKind::Sh | InstructionKind::Sw => OpCode::Store,
            InstructionKind::Addi | InstructionKind::Slti | InstructionKind::Sltiu | InstructionKind::Xori | InstructionKind::Ori | InstructionKind::Andi | InstructionKind::Slli | InstructionKind::Srli | InstructionKind::Srai => OpCode::OpImm,
            InstructionKind::Add | InstructionKind::Sub | InstructionKind::Sll | InstructionKind::Slt | InstructionKind::Sltu | InstructionKind::Xor | InstructionKind::Srl | InstructionKind::Sra | InstructionKind::Or | InstructionKind::And | InstructionKind::Mul | InstructionKind::Mulh | InstructionKind::Mulhsu | InstructionKind::Mulhu | InstructionKind::Div | InstructionKind::Divu | InstructionKind::Rem | InstructionKind::Remu => OpCode::Op,
            InstructionKind::Fence | InstructionKind::Fencei => OpCode::MiscMem,
            InstructionKind::Ecall | InstructionKind::Ebreak | InstructionKind::CsrRw | InstructionKind::CsrRs | InstructionKind::CsrRc | InstructionKind::CsrRwi | InstructionKind::CsrRsi | InstructionKind::CsrRci => OpCode::System,
            InstructionKind::Lrw | InstructionKind::Scw | InstructionKind::AmoSwapw | InstructionKind::AmoAddw | InstructionKind::AmoXorw | InstructionKind::AmoAndw | InstructionKind::AmoOrw | InstructionKind::AmoMinw | InstructionKind::AmoMaxw | InstructionKind::AmoMinuw | InstructionKind::AmoMaxuw => OpCode::Amo,
            InstructionKind::Invalid => OpCode::Invalid,
        }
    }

    /// The encoding of this kind with every field at zero: the bits that
    /// tell the kind apart are set, the bits of the fields are clear.
    pub fn template(&self) -> (t: u32)
        ensures
            t == self.spec_template(),
    {
        match self {
            InstructionKind::Lui => 0b0000000_00000_00000_000_00000_0110111,
            InstructionKind::Auipc => 0b0000000_00000_00000_000_00000_0010111,
            InstructionKind::Jal => 0b0000000_00000_00000_000_00000_1101111,
            InstructionKind::Jalr => 0b0000000_00000_00000_000_00000_1100111,
            InstructionKind::Beq => 0b0000000_00000_00000_000_00000_1100011,
            InstructionKind::Bne => 0b0000000_00000_00000_001_00000_1100011,
            InstructionKind::Blt => 0b0000000_00000_00000_100_00000_1100011,
            InstructionKind::Bge => 0b0000000_00000_00000_101_00000_1100011,
            InstructionKind::Bltu => 0b0000000_00000_00000_110_00000_1100011,
            InstructionKind::Bgeu => 0b0000000_00000_00000_111_00000_1100011,
            InstructionKind::Lb => 0b0000000_00000_00000_000_00000_0000011,
            InstructionKind::Lh => 0b0000000_00000_00000_001_00000_0000011,
            InstructionKind::Lw => 0b0000000_00000_00000_010_00000_0000011,
            InstructionKind::Lbu => 0b0000000_00000_00000_100_00000_0000011,
            InstructionKind::Lhu => 0b0000000_00000_00000_101_00000_0000011,
            InstructionKind::Sb => 0b0000000_00000_00000_000_00000_0100011,
            InstructionKind::Sh => 0b0000000_00000_00000_001_00000_0100011,
            InstructionKind::Sw => 0b0000000_00000_00000_010_00000_0100011,
            InstructionKind::Addi => 0b0000000_00000_00000_000_00000_0010011,
            InstructionKind::Slti => 0b0000000_00000_00000_010_00000_0010011,
            InstructionKind::Sltiu => 0b0000000_00000_00000_011_00000_0010011,
            InstructionKind::Xori => 0b0000000_00000_00000_100_00000_0010011,
            InstructionKind::Ori => 0b0000000_00000_00000_110_00000_0010011,
            InstructionKind::Andi => 0b0000000_00000_00000_111_00000_0010011,
            InstructionKind::Slli => 0b0000000_00000_00000_001_00000_0010011,
            InstructionKind::Srli => 0b0000000_00000_00000_101_00000_0010011,
            InstructionKind::Srai => 0b0100000_00000_00000_101_00000_0010011,
            InstructionKind::Add => 0b0000000_00000_00000_000_00000_0110011,
            InstructionKind::Sub => 0b0100000_00000_00000_000_00000_0110011,
            InstructionKind::Sll => 0b0000000_00000_00000_001_00000_0110011,
            InstructionKind::Slt => 0b0000000_00000_00000_010_00000_0110011,
            InstructionKind::Sltu => 0b0000000_00000_00000_011_00000_0110011,
            InstructionKind::Xor => 0b0000000_00000_00000_100_00000_0110011,
            InstructionKind::Srl => 0b0000000_00000_00000_101_00000_0110011,
            InstructionKind::Sra => 0b0100000_00000_00000_101_00000_0110011,
            InstructionKind::Or => 0b0000000_00000_00000_110_00000_0110011,
            InstructionKind::And => 0b0000000_00000_00000_111_00000_0110011,
            InstructionKind::Fence => 0b0000000_00000_00000_000_00000_0001111,
            InstructionKind::Ecall => 0b0000000_00000_00000_000_00000_1110011,
            InstructionKind::Ebreak => 0b0000000_00001_00000_000_00000_1110011,
            InstructionKind::Fencei => 0b0000000_00000_00000_001_00000_0001111,
            InstructionKind::CsrRw => 0b0000000_00000_00000_001_00000_1110011,
            InstructionKind::CsrRs => 0b0000000_00000_00000_010_00000_1110011,
            InstructionKind::CsrRc => 0b0000000_00000_00000_011_00000_1110011,
            InstructionKind::CsrRwi => 0b0000000_00000_00000_101_00000_1110011,
            InstructionKind::CsrRsi => 0b0000000_00000_00000_110_00000_1110011,
            InstructionKind::CsrRci => 0b0000000_00000_00000_111_00000_1110011,
            InstructionKind::Mul => 0b0000001_00000_00000_000_00000_0110011,
            InstructionKind::Mulh => 0b0000001_00000_00000_001_00000_0110011,
            InstructionKind::Mulhsu => 0b0000001_00000_00000_010_00000_0110011,
            InstructionKind::Mulhu => 0b0000001_00000_00000_011_00000_0110011,
            InstructionKind::Div => 0b0000001_00000_00000_100_00000_0110011,
            InstructionKind::Divu => 0b0000001_00000_00000_101_00000_0110011,
            InstructionKind::Rem => 0b0000001_00000_00000_110_00000_0110011,
            InstructionKind::Remu => 0b0000001_00000_00000_111_00000_0110011,
            InstructionKind::Lrw => 0b0001000_00000_00000_010_00000_0101111,
            InstructionKind::Scw => 0b0001100_00000_00000_010_00000_0101111,
            InstructionKind::AmoSwapw => 0b0000100_00000_00000_010_00000_0101111,
            InstructionKind::AmoAddw => 0b0000000_00000_00000_010_00000_0101111,
            InstructionKind::AmoXorw => 0b0010000_00000_00000_010_00000_0101111,
            InstructionKind::AmoAndw => 0b0110000_00000_00000_010_00000_0101111,
            InstructionKind::AmoOrw => 0b0100000_00000_00000_010_00000_0101111,
            InstructionKind::AmoMinw => 0b1000000_00000_00000_010_00000_0101111,
            InstructionKind::AmoMaxw => 0b1010000_00000_00000_010_00000_0101111,
            InstructionKind::AmoMinuw => 0b1100000_00000_00000_010_00000_0101111,
            InstructionKind::AmoMaxuw => 0b1110000_00000_00000_010_00000_0101111,
            InstructionKind::Invalid => 0,
        }
    }
}

} // verus!
