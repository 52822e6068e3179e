use vstd::prelude::*;
use crate::hart::alu::wrapped;
use crate::hart::instruction::instruction_type::InstructionKind;
use crate::hart::instruction::types::FenceMode;
use crate::hart::instruction::Instruction;
use crate::hart::register::Reg;
use crate::hart::step::to_word;

verus! {

/// An instruction as a flat record of one size: the kind, three registers
/// and a word that holds what else the format has.
#[derive(Clone, Copy, Debug, PartialEq, Eq, Structural)]
pub struct Operation {
    pub kind: InstructionKind,
    pub rd: Reg,
    pub rs1: Reg,
    pub rs2: Reg,
    /// The immediate as a word, the shift amount, the index of the control
    /// and status register over its immediate, the flags of an atomic
    /// instruction or of a fence, or the word of an invalid instruction.
    pub value: u32,
}

/// The flags of an atomic instruction as a word: acquire is bit 1, release is bit 0.
pub open spec fn spec_flags(aq: bool, rl: bool) -> u32 {
    ((if aq { 2int } else { 0int }) + (if rl { 1int } else { 0int })) as u32
}

/// The fields of a fence as a word: the mode over the predecessors over the successors.
pub open spec fn spec_fence(pred: int, succ: int, mode: FenceMode) -> u32 {
    ((match mode {
        FenceMode::Normal => 0int,
        FenceMode::Tso => 8int,
        FenceMode::Other => 1int,
    }) * 256 + pred * 16 + succ) as u32
}

impl Instruction {
    /// The flat record of this instruction. A register that the format lacks is `X0`.
    pub open spec fn spec_operation(self) -> Operation {
        let kind = self.spec_kind();
        match self {
            Instruction::Lui { rd, imm } | Instruction::Auipc { rd, imm } => Operation {
                kind,
                rd,
                rs1: Reg::X0,
                rs2: Reg::X0,
                value: wrapped(imm@),
            },
            Instruction::Jal { rd, imm } => Operation { kind, rd, rs1: Reg::X0, rs2: Reg::X0, value: wrapped(imm@) },
            Instruction::Jalr { rd, rs1, imm }
            | Instruction::Lb { rd, rs1, imm }
            | Instruction::Lh { rd, rs1, imm }
            | Instruction::Lw { rd, rs1, imm }
            | Instruction::Lbu { rd, rs1, imm }
            | Instruction::Lhu { rd, rs1, imm }
            | Instruction::Addi { rd, rs1, imm }
            | Instruction::Slti { rd, rs1, imm }
            | Instruction::Sltiu { rd, rs1, imm }
            | Instruction::Xori { rd, rs1, imm }
            | Instruction::Ori { rd, rs1, imm }
            | Instruction::Andi { rd, rs1, imm }
            | Instruction::Fencei { rd, rs1, imm } => Operation { kind, rd, rs1, rs2: Reg::X0, value: wrapped(imm@) },
            Instruction::Beq { rs1, rs2, imm }
            | Instruction::Bne { rs1, rs2, imm }
            | Instruction::Blt { rs1, rs2, imm }
            | Instruction::Bge { rs1, rs2, imm }
            | Instruction::Bltu { rs1, rs2, imm }
            | Instruction::Bgeu { rs1, rs2, imm } => Operation { kind, rd: Reg::X0, rs1, rs2, value: wrapped(imm@) },
            Instruction::Sb { rs1, rs2, imm } | Instruction::Sh { rs1, rs2, imm } | Instruction::Sw {
                rs1,
                rs2,
                imm,
            } => Operation { kind, rd: Reg::X0, rs1, rs2, value: wrapped(imm@) },
            Instruction::Slli { rd, rs1, shamt } | Instruction::Srli { rd, rs1, shamt } | Instruction::Srai {
                rd,
                rs1,
                shamt,
            } => Operation { kind, rd, rs1, rs2: Reg::X0, value: shamt@ as u32 },
            Instruction::Add { rd, rs1, rs2 }
            | Instruction::Sub { rd, rs1, rs2 }
            | Instruction::Sll { rd, rs1, rs2 }
            | Instruction::Slt { rd, rs1, rs2 }
            | Instruction::Sltu { rd, rs1, rs2 }
            | Instruction::Xor { rd, rs1, rs2 }
            | Instruction::Srl { rd, rs1, rs2 }
            | Instruction::Sra { rd, rs1, rs2 }
            | Instruction::Or { rd, rs1, rs2 }
            | Instruction::And { rd, rs1, rs2 }
            | Instruction::Mul { rd, rs1, rs2 }
            | Instruction::Mulh { rd, rs1, rs2 }
            | Instruction::Mulhsu { rd, rs1, rs2 }
            | Instruction::Mulhu { rd, rs1, rs2 }
            | Instruction::Div { rd, rs1, rs2 }
            | Instruction::Divu { rd, rs1, rs2 }
            | Instruction::Rem { rd, rs1, rs2 }
            | Instruction::Remu { rd, rs1, rs2 } => Operation { kind, rd, rs1, rs2, value: 0 },
            Instruction::Fence { rd, rs1, pred, succ, mode } => Operation {
                kind,
                rd,
                rs1,
                rs2: Reg::X0,
                value: spec_fence(pred@, succ@, mode),
            },
            Instruction::Ecall | Instruction::Ebreak => Operation {
                kind,
                rd: Reg::X0,
                rs1: Reg::X0,
                rs2: Reg::X0,
                value: 0,
            },
            Instruction::CsrRw { rd, rs1, csr } | Instruction::CsrRs { rd, rs1, csr } | Instruction::CsrRc {
                rd,
                rs1,
                csr,
            } => Operation { kind, rd, rs1, rs2: Reg::X0, value: csr@ as u32 },
            Instruction::CsrRwi { rd, uimm, csr } | Instruction::CsrRsi { rd, uimm, csr } | Instruction::CsrRci {
                rd,
                uimm,
                csr,
            } => Operation { kind, rd, rs1: Reg::X0, rs2: Reg::X0, value: (csr@ * 32 + uimm@) as u32 },
            Instruction::Lrw { rd, rs1, aq, rl } => Operation { kind, rd, rs1, rs2: Reg::X0, value: spec_flags(aq, rl) },
            Instruction::Scw { rd, rs1, rs2, aq, rl }
            | Instruction::AmoSwapw { rd, rs1, rs2, aq, rl }
            | Instruction::AmoAddw { rd, rs1, rs2, aq, rl }
            | Instruction::AmoXorw { rd, rs1, rs2, aq, rl }
            | Instruction::AmoAndw { rd, rs1, rs2, aq, rl }
            | Instruction::AmoOrw { rd, rs1, rs2, aq, rl }
            | Instruction::AmoMinw { rd, rs1, rs2, aq, rl }
            | Instruction::AmoMaxw { rd, rs1, rs2, aq, rl }
            | Instruction::AmoMinuw { rd, rs1, rs2, aq, rl }
            | Instruction::AmoMaxuw { rd, rs1, rs2, aq, rl } => Operation { kind, rd, rs1, rs2, value: spec_flags(aq, rl) },
            Instruction::Invalid { raw } => Operation { kind, rd: Reg::X0, rs1: Reg::X0, rs2: Reg::X0, value: raw },
        }
    }
}

fn flags(aq: bool, rl: bool) -> (f: u32)
    ensures
        f == spec_flags(aq, rl),
{
    let a: u32 = if aq { 2 } else { 0 };
    let r: u32 = if rl { 1 } else { 0 };
    a + r
}

impl Operation {
    pub fn new(kind: InstructionKind, rd: Reg, rs1: Reg, rs2: Reg, value: u32) -> (op: Operation)
        ensures
            op == (Operation { kind, rd, rs1, rs2, value }),
    {
        Operation { kind, rd, rs1, rs2, value }
    }

    pub fn kind(&self) -> (k: InstructionKind)
        ensures
            k == self.kind,
    {
        self.kind
    }

    pub fn rd(&self) -> (r: Reg)
        ensures
            r == self.rd,
    {
        self.rd
    }

    pub fn rs1(&self) -> (r: Reg)
        ensures
            r == self.rs1,
    {
        self.rs1
    }

    pub fn rs2(&self) -> (r: Reg)
        ensures
            r == self.rs2,
    {
        self.rs2
    }

    /// The immediate as a word.
    pub fn imm(&self) -> (v: u32)
        ensures
            v == self.value,
    {
        self.value
    }

    /// The shift amount: the five lowest bits of the word.
    pub fn shamt(&self) -> (v: u32)
        ensures
            v == self.value % 32,
            v < 32,
    {
        self.value % 32
    }

    /// The flat record of an instruction.
    pub fn from_instruction(inst: Instruction) -> (op: Operation)
        ensures
            op == inst.spec_operation(),
    {
        let kind = inst.kind();
        let x0 = Reg::X0;
        match inst {
            Instruction::Lui { rd, imm } | Instruction::Auipc { rd, imm } => Operation {
                kind,
                rd,
                rs1: x0,
                rs2: x0,
                value: to_word(imm.value()),
            },
            Instruction::Jal { rd, imm } => Operation { kind, rd, rs1: x0, rs2: x0, value: to_word(imm.value()) },
            Instruction::Jalr { rd, rs1, imm }
            | Instruction::Lb { rd, rs1, imm }
            | Instruction::Lh { rd, rs1, imm }
            | Instruction::Lw { rd, rs1, imm }
            | Instruction::Lbu { rd, rs1, imm }
            | Instruction::Lhu { rd, rs1, imm }
            | Instruction::Addi { rd, rs1, imm }
            | Instruction::Slti { rd, rs1, imm }
            | Instruction::Sltiu { rd, rs1, imm }
            | Instruction::Xori { rd, rs1, imm }
            | Instruction::Ori { rd, rs1, imm }
            | Instruction::Andi { rd, rs1, imm }
            | Instruction::Fencei { rd, rs1, imm } => Operation { kind, rd, rs1, rs2: x0, value: to_word(imm.value()) },
            Instruction::Beq { rs1, rs2, imm }
            | Instruction::Bne { rs1, rs2, imm }
            | Instruction::Blt { rs1, rs2, imm }
            | Instruction::Bge { rs1, rs2, imm }
            | Instruction::Bltu { rs1, rs2, imm }
            | Instruction::Bgeu { rs1, rs2, imm } => Operation { kind, rd: x0, rs1, rs2, value: to_word(imm.value()) },
            Instruction::Sb { rs1, rs2, imm } | Instruction::Sh { rs1, rs2, imm } | Instruction::Sw {
                rs1,
                rs2,
                imm,
            } => Operation { kind, rd: x0, rs1, rs2, value: to_word(imm.value()) },
            Instruction::Slli { rd, rs1, shamt } | Instruction::Srli { rd, rs1, shamt } | Instruction::Srai {
                rd,
                rs1,
                shamt,
            } => Operation { kind, rd, rs1, rs2: x0, value: shamt.value() },
            Instruction::Add { rd, rs1, rs2 }
            | Instruction::Sub { rd, rs1, rs2 }
            | Instruction::Sll { rd, rs1, rs2 }
            | Instruction::Slt { rd, rs1, rs2 }
            | Instruction::Sltu { rd, rs1, rs2 }
            | Instruction::Xor { rd, rs1, rs2 }
            | Instruction::Srl { rd, rs1, rs2 }
            | Instruction::Sra { rd, rs1, rs2 }
            | Instruction::Or { rd, rs1, rs2 }
            | Instruction::And { rd, rs1, rs2 }
            | Instruction::Mul { rd, rs1, rs2 }
            | Instruction::Mulh { rd, rs1, rs2 }
            | Instruction::Mulhsu { rd, rs1, rs2 }
            | Instruction::Mulhu { rd, rs1, rs2 }
            | Instruction::Div { rd, rs1, rs2 }
            | Instruction::Divu { rd, rs1, rs2 }
            | Instruction::Rem { rd, rs1, rs2 }
            | Instruction::Remu { rd, rs1, rs2 } => Operation { kind, rd, rs1, rs2, value: 0 },
            Instruction::Fence { rd, rs1, pred, succ, mode } => {
                let fm: u32 = match mode {
                    FenceMode::Normal => 0,
                    FenceMode::Tso => 8,
                    FenceMode::Other => 1,
                };
                Operation { kind, rd, rs1, rs2: x0, value: fm * 256 + (pred.raw() as u32) * 16 + succ.raw() as u32 }
            },
            Instruction::Ecall | Instruction::Ebreak => Operation { kind, rd: x0, rs1: x0, rs2: x0, value: 0 },
            Instruction::CsrRw { rd, rs1, csr } | Instruction::CsrRs { rd, rs1, csr } | Instruction::CsrRc {
                rd,
                rs1,
                csr,
            } => Operation { kind, rd, rs1, rs2: x0, value: csr.value() },
            Instruction::CsrRwi { rd, uimm, csr } | Instruction::CsrRsi { rd, uimm, csr } | Instruction::CsrRci {
                rd,
                uimm,
                csr,
            } => Operation { kind, rd, rs1: x0, rs2: x0, value: csr.value() * 32 + uimm.value() },
            Instruction::Lrw { rd, rs1, aq, rl } => Operation { kind, rd, rs1, rs2: x0, value: flags(aq, rl) },
            Instruction::Scw { rd, rs1, rs2, aq, rl }
            | Instruction::AmoSwapw { rd, rs1, rs2, aq, rl }
            | Instruction::AmoAddw { rd, rs1, rs2, aq, rl }
            | Instruction::AmoXorw { rd, rs1, rs2, aq, rl }
            | Instruction::AmoAndw { rd, rs1, rs2, aq, rl }
            | Instruction::AmoOrw { rd, rs1, rs2, aq, rl }
            | Instruction::AmoMinw { rd, rs1, rs2, aq, rl }
            | Instruction::AmoMaxw { rd, rs1, rs2, aq, rl }
            | Instruction::AmoMinuw { rd, rs1, rs2, aq, rl }
            | Instruction::AmoMaxuw { rd, rs1, rs2, aq, rl } => Operation { kind, rd, rs1, rs2, value: flags(aq, rl) },
            Instruction::Invalid { raw } => Operation { kind, rd: x0, rs1: x0, rs2: x0, value: raw },
        }
    }
}

} // verus!
