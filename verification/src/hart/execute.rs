use vstd::prelude::*;
use crate::bus::Bus;
use crate::hart::alu::AluOp;
use crate::hart::instruction::types::Conclusion;
use crate::hart::instruction::Instruction;
use crate::hart::step::machine;
use crate::hart::step::to_word;
use crate::hart::step::BranchCond;
use crate::hart::step::Machine;
use crate::hart::step::BREAKPOINT;
use crate::hart::step::ENVIRONMENT_CALL;
use crate::hart::step::ILLEGAL_INSTRUCTION;
use crate::hart::Hart;
use crate::hart::HartView;
use crate::memory::mapping::Mapping;
use crate::memory::model::AmoOp;
use crate::memory::reservation::Reservations;

verus! {

impl Hart {
    /// Carries out a fence, a call to the environment or a breakpoint; anything else is an illegal instruction.
    pub fn execute_system(&mut self, inst: Instruction) -> (c: Conclusion)
        requires
            old(self).wf(),
        ensures
            final(self).wf(),
            final(self)@ == old(self)@.execute_system(inst).hart,
            c == old(self)@.execute_system(inst).conclusion,
    {
        proof {
            reveal(HartView::execute_system);
        }
        match inst {
            Instruction::Fence { .. } => Conclusion::Proceed,
            Instruction::Ecall => Conclusion::Exception(ENVIRONMENT_CALL),
            Instruction::Ebreak => Conclusion::Exception(BREAKPOINT),
            Instruction::Fencei { .. } => self.fence_i(),
            _ => Conclusion::Exception(ILLEGAL_INSTRUCTION),
        }
    }

    /// Carries out a multiplication or a division, or hands on.
    pub fn execute_multiply(&mut self, inst: Instruction) -> (c: Conclusion)
        requires
            old(self).wf(),
        ensures
            final(self).wf(),
            final(self)@ == old(self)@.execute_multiply(inst).hart,
            c == old(self)@.execute_multiply(inst).conclusion,
    {
        proof {
            reveal(HartView::execute_multiply);
        }
        match inst {
            Instruction::Mul { rd, rs1, rs2 } => self.op(AluOp::Mul, rd, rs1, rs2),
            Instruction::Mulh { rd, rs1, rs2 } => self.op(AluOp::Mulh, rd, rs1, rs2),
            Instruction::Mulhsu { rd, rs1, rs2 } => self.op(AluOp::Mulhsu, rd, rs1, rs2),
            Instruction::Mulhu { rd, rs1, rs2 } => self.op(AluOp::Mulhu, rd, rs1, rs2),
            Instruction::Div { rd, rs1, rs2 } => self.op(AluOp::Div, rd, rs1, rs2),
            Instruction::Divu { rd, rs1, rs2 } => self.op(AluOp::Divu, rd, rs1, rs2),
            Instruction::Rem { rd, rs1, rs2 } => self.op(AluOp::Rem, rd, rs1, rs2),
            Instruction::Remu { rd, rs1, rs2 } => self.op(AluOp::Remu, rd, rs1, rs2),
            _ => self.execute_system(inst),
        }
    }

    /// Carries out an operation on two registers, or hands on.
    pub fn execute_register(&mut self, inst: Instruction) -> (c: Conclusion)
        requires
            old(self).wf(),
        ensures
            final(self).wf(),
            final(self)@ == old(self)@.execute_register(inst).hart,
            c == old(self)@.execute_register(inst).conclusion,
    {
        proof {
            reveal(HartView::execute_register);
        }
        match inst {
            Instruction::Add { rd, rs1, rs2 } => self.op(AluOp::Add, rd, rs1, rs2),
            Instruction::Sub { rd, rs1, rs2 } => self.op(AluOp::Sub, rd, rs1, rs2),
            Instruction::Sll { rd, rs1, rs2 } => self.op(AluOp::Sll, rd, rs1, rs2),
            Instruction::Slt { rd, rs1, rs2 } => self.op(AluOp::Slt, rd, rs1, rs2),
            Instruction::Sltu { rd, rs1, rs2 } => self.op(AluOp::Sltu, rd, rs1, rs2),
            Instruction::Xor { rd, rs1, rs2 } => self.op(AluOp::Xor, rd, rs1, rs2),
            Instruction::Srl { rd, rs1, rs2 } => self.op(AluOp::Srl, rd, rs1, rs2),
            Instruction::Sra { rd, rs1, rs2 } => self.op(AluOp::Sra, rd, rs1, rs2),
            Instruction::Or { rd, rs1, rs2 } => self.op(AluOp::Or, rd, rs1, rs2),
            Instruction::And { rd, rs1, rs2 } => self.op(AluOp::And, rd, rs1, rs2),
            _ => self.execute_multiply(inst),
        }
    }

    /// Carries out an operation on a register and an immediate, or hands on.
    pub fn execute_immediate(&mut self, inst: Instruction) -> (c: Conclusion)
        requires
            old(self).wf(),
        ensures
            final(self).wf(),
            final(self)@ == old(self)@.execute_immediate(inst).hart,
            c == old(self)@.execute_immediate(inst).conclusion,
    {
        proof {
            reveal(HartView::execute_immediate);
        }
        match inst {
            Instruction::Addi { rd, rs1, imm } => self.op_imm(AluOp::Add, rd, rs1, to_word(imm.value())),
            Instruction::Slti { rd, rs1, imm } => self.op_imm(AluOp::Slt, rd, rs1, to_word(imm.value())),
            Instruction::Sltiu { rd, rs1, imm } => self.op_imm(AluOp::Sltu, rd, rs1, to_word(imm.value())),
            Instruction::Xori { rd, rs1, imm } => self.op_imm(AluOp::Xor, rd, rs1, to_word(imm.value())),
            Instruction::Ori { rd, rs1, imm } => self.op_imm(AluOp::Or, rd, rs1, to_word(imm.value())),
            Instruction::Andi { rd, rs1, imm } => self.op_imm(AluOp::And, rd, rs1, to_word(imm.value())),
            Instruction::Slli { rd, rs1, shamt } => self.op_imm(AluOp::Sll, rd, rs1, shamt.value()),
            Instruction::Srli { rd, rs1, shamt } => self.op_imm(AluOp::Srl, rd, rs1, shamt.value()),
            Instruction::Srai { rd, rs1, shamt } => self.op_imm(AluOp::Sra, rd, rs1, shamt.value()),
            _ => self.execute_register(inst),
        }
    }

    /// Carries out an instruction that touches nothing but the hart.
    pub fn execute_on_hart(&mut self, inst: Instruction) -> (c: Conclusion)
        requires
            old(self).wf(),
        ensures
            final(self).wf(),
            final(self)@ == old(self)@.execute(inst).hart,
            c == old(self)@.execute(inst).conclusion,
    {
        proof {
            reveal(HartView::execute);
        }
        match inst {
            Instruction::Lui { rd, imm } => self.load_upper(rd, to_word(imm.value())),
            Instruction::Auipc { rd, imm } => self.add_upper(rd, imm.value()),
            Instruction::Jal { rd, imm } => self.jump_and_link(rd, imm.value()),
            Instruction::Jalr { rd, rs1, imm } => self.jump_and_link_register(rd, rs1, imm.value()),
            Instruction::Beq { rs1, rs2, imm } => self.branch(BranchCond::Eq, rs1, rs2, imm.value()),
            Instruction::Bne { rs1, rs2, imm } => self.branch(BranchCond::Ne, rs1, rs2, imm.value()),
            Instruction::Blt { rs1, rs2, imm } => self.branch(BranchCond::Lt, rs1, rs2, imm.value()),
            Instruction::Bge { rs1, rs2, imm } => self.branch(BranchCond::Ge, rs1, rs2, imm.value()),
            Instruction::Bltu { rs1, rs2, imm } => self.branch(BranchCond::Ltu, rs1, rs2, imm.value()),
            Instruction::Bgeu { rs1, rs2, imm } => self.branch(BranchCond::Geu, rs1, rs2, imm.value()),
            _ => self.execute_immediate(inst),
        }
    }

    /// Carries out an atomic instruction, or hands on to the hart alone.
    pub fn execute_atomic(&mut self, inst: Instruction, bus: &mut Bus, cells: &mut Reservations) -> (c: Conclusion)
        requires
            old(self).wf(),
            old(bus).wf(),
        ensures
            final(self).wf(),
            final(bus).wf(),
            machine(final(self), final(bus), final(cells)) == machine(old(self), old(bus), old(cells)).execute_atomic(
                inst,
            ).machine,
            c == machine(old(self), old(bus), old(cells)).execute_atomic(inst).conclusion,
    {
        proof {
            reveal(Machine::execute_atomic);
        }
        match inst {
            Instruction::Lrw { rd, rs1, .. } => self.lr(rd, rs1, bus, cells),
            Instruction::Scw { rd, rs1, rs2, .. } => self.sc(rd, rs1, rs2, bus, cells),
            Instruction::AmoSwapw { rd, rs1, rs2, .. } => self.amo(AmoOp::Swap, rd, rs1, rs2, bus, cells),
            Instruction::AmoAddw { rd, rs1, rs2, .. } => self.amo(AmoOp::Add, rd, rs1, rs2, bus, cells),
            Instruction::AmoXorw { rd, rs1, rs2, .. } => self.amo(AmoOp::Xor, rd, rs1, rs2, bus, cells),
            Instruction::AmoAndw { rd, rs1, rs2, .. } => self.amo(AmoOp::And, rd, rs1, rs2, bus, cells),
            Instruction::AmoOrw { rd, rs1, rs2, .. } => self.amo(AmoOp::Or, rd, rs1, rs2, bus, cells),
            Instruction::AmoMinw { rd, rs1, rs2, .. } => self.amo(AmoOp::Min, rd, rs1, rs2, bus, cells),
            Instruction::AmoMaxw { rd, rs1, rs2, .. } => self.amo(AmoOp::Max, rd, rs1, rs2, bus, cells),
            Instruction::AmoMinuw { rd, rs1, rs2, .. } => self.amo(AmoOp::Minu, rd, rs1, rs2, bus, cells),
            Instruction::AmoMaxuw { rd, rs1, rs2, .. } => self.amo(AmoOp::Maxu, rd, rs1, rs2, bus, cells),
            _ => self.execute_on_hart(inst),
        }
    }

    /// Carries out an instruction. The program counter moves only by a jump.
    pub fn execute(&mut self, inst: Instruction, bus: &mut Bus, cells: &mut Reservations) -> (c: Conclusion)
        requires
            old(self).wf(),
            old(bus).wf(),
        ensures
            final(self).wf(),
            final(bus).wf(),
            machine(final(self), final(bus), final(cells)) == machine(old(self), old(bus), old(cells)).execute(
                inst,
            ).machine,
            c == machine(old(self), old(bus), old(cells)).execute(inst).conclusion,
    {
        proof {
            reveal(Machine::execute);
        }
        match inst {
            Instruction::Lb { rd, rs1, imm } => self.load(1, true, rd, rs1, imm.value(), bus, cells),
            Instruction::Lh { rd, rs1, imm } => self.load(2, true, rd, rs1, imm.value(), bus, cells),
            Instruction::Lw { rd, rs1, imm } => self.load(4, false, rd, rs1, imm.value(), bus, cells),
            Instruction::Lbu { rd, rs1, imm } => self.load(1, false, rd, rs1, imm.value(), bus, cells),
            Instruction::Lhu { rd, rs1, imm } => self.load(2, false, rd, rs1, imm.value(), bus, cells),
            Instruction::Sb { rs1, rs2, imm } => self.store(1, rs1, rs2, imm.value(), bus, cells),
            Instruction::Sh { rs1, rs2, imm } => self.store(2, rs1, rs2, imm.value(), bus, cells),
            Instruction::Sw { rs1, rs2, imm } => self.store(4, rs1, rs2, imm.value(), bus, cells),
            _ => self.execute_atomic(inst, bus, cells),
        }
    }

}

} // verus!
