use vstd::prelude::*;
use crate::bus::Bus;
use crate::hart::alu::lemma_alu_bits;
use crate::hart::alu::signed;
use crate::hart::alu::AluOp;
use crate::hart::instruction::operation::Operation;
use crate::hart::instruction::types::Conclusion;
use crate::hart::step::machine;
use crate::hart::step::BranchCond;
use crate::hart::step::BREAKPOINT;
use crate::hart::step::ENVIRONMENT_CALL;
use crate::hart::step::ILLEGAL_INSTRUCTION;
use crate::hart::Hart;
use crate::memory::mapping::Mapping;
use crate::memory::reservation::Reservations;

verus! {

/// The base integer instructions, each on the flat record of an instruction.
pub trait Rv32i {
    /// Whether the state is in order, so that it can carry out an instruction.
    spec fn rv32i_ready(&self) -> bool;

    /// Load upper immediate.
    fn lui(&mut self, op: &Operation) -> (c: Conclusion)
        requires
            old(self).rv32i_ready(),
        ensures
            final(self).rv32i_ready(),
    ;

    /// Add upper immediate to program counter.
    fn auipc(&mut self, op: &Operation) -> (c: Conclusion)
        requires
            old(self).rv32i_ready(),
        ensures
            final(self).rv32i_ready(),
    ;

    /// Jump and link.
    fn jal(&mut self, op: &Operation) -> (c: Conclusion)
        requires
            old(self).rv32i_ready(),
        ensures
            final(self).rv32i_ready(),
    ;

    /// Jump and link register.
    fn jalr(&mut self, op: &Operation) -> (c: Conclusion)
        requires
            old(self).rv32i_ready(),
        ensures
            final(self).rv32i_ready(),
    ;

    /// Branch equal.
    fn beq(&mut self, op: &Operation) -> (c: Conclusion)
        requires
            old(self).rv32i_ready(),
        ensures
            final(self).rv32i_ready(),
    ;

    /// Branch not equal.
    fn bne(&mut self, op: &Operation) -> (c: Conclusion)
        requires
            old(self).rv32i_ready(),
        ensures
            final(self).rv32i_ready(),
    ;

    /// Branch less than.
    fn blt(&mut self, op: &Operation) -> (c: Conclusion)
        requires
            old(self).rv32i_ready(),
        ensures
            final(self).rv32i_ready(),
    ;

    /// Branch greater than or equal.
    fn bge(&mut self, op: &Operation) -> (c: Conclusion)
        requires
            old(self).rv32i_ready(),
        ensures
            final(self).rv32i_ready(),
    ;

    /// Branch less than unsigned.
    fn bltu(&mut self, op: &Operation) -> (c: Conclusion)
        requires
            old(self).rv32i_ready(),
        ensures
            final(self).rv32i_ready(),
    ;

    /// Branch greater than or equal unsigned.
    fn bgeu(&mut self, op: &Operation) -> (c: Conclusion)
        requires
            old(self).rv32i_ready(),
        ensures
            final(self).rv32i_ready(),
    ;

    /// Load byte.
    fn lb(&mut self, op: &Operation, bus: &mut Bus, cells: &mut Reservations) -> (c: Conclusion)
        requires
            old(self).rv32i_ready(),
            old(bus).wf(),
        ensures
            final(self).rv32i_ready(),
            final(bus).wf(),
    ;

    /// Load half-word.
    fn lh(&mut self, op: &Operation, bus: &mut Bus, cells: &mut Reservations) -> (c: Conclusion)
        requires
            old(self).rv32i_ready(),
            old(bus).wf(),
        ensures
            final(self).rv32i_ready(),
            final(bus).wf(),
    ;

    /// Load word.
    fn lw(&mut self, op: &Operation, bus: &mut Bus, cells: &mut Reservations) -> (c: Conclusion)
        requires
            old(self).rv32i_ready(),
            old(bus).wf(),
        ensures
            final(self).rv32i_ready(),
            final(bus).wf(),
    ;

    /// Load byte unsigned.
    fn lbu(&mut self, op: &Operation, bus: &mut Bus, cells: &mut Reservations) -> (c: Conclusion)
        requires
            old(self).rv32i_ready(),
            old(bus).wf(),
        ensures
            final(self).rv32i_ready(),
            final(bus).wf(),
    ;

    /// Load half-word unsigned.
    fn lhu(&mut self, op: &Operation, bus: &mut Bus, cells: &mut Reservations) -> (c: Conclusion)
        requires
            old(self).rv32i_ready(),
            old(bus).wf(),
        ensures
            final(self).rv32i_ready(),
            final(bus).wf(),
    ;

    /// Store byte.
    fn sb(&mut self, op: &Operation, bus: &mut Bus, cells: &mut Reservations) -> (c: Conclusion)
        requires
            old(self).rv32i_ready(),
            old(bus).wf(),
        ensures
            final(self).rv32i_ready(),
            final(bus).wf(),
    ;

    /// Store half-word.
    fn sh(&mut self, op: &Operation, bus: &mut Bus, cells: &mut Reservations) -> (c: Conclusion)
        requires
            old(self).rv32i_ready(),
            old(bus).wf(),
        ensures
            final(self).rv32i_ready(),
            final(bus).wf(),
    ;

    /// Store word.
    fn sw(&mut self, op: &Operation, bus: &mut Bus, cells: &mut Reservations) -> (c: Conclusion)
        requires
            old(self).rv32i_ready(),
            old(bus).wf(),
        ensures
            final(self).rv32i_ready(),
            final(bus).wf(),
    ;

    /// Add immediate: adds the sign-extended immediate to `rs1` and leaves the sum in `rd`.
    fn addi(&mut self, op: &Operation) -> (c: Conclusion)
        requires
            old(self).rv32i_ready(),
        ensures
            final(self).rv32i_ready(),
    ;

    /// Set less than immediate: `rd` is 1 if `rs1` is less than the immediate, both read as signed.
    fn slti(&mut self, op: &Operation) -> (c: Conclusion)
        requires
            old(self).rv32i_ready(),
        ensures
            final(self).rv32i_ready(),
    ;

    /// Set less than immediate unsigned: the immediate is sign-extended first and then read as unsigned.
    fn sltiu(&mut self, op: &Operation) -> (c: Conclusion)
        requires
            old(self).rv32i_ready(),
        ensures
            final(self).rv32i_ready(),
    ;

    /// Exclusive or immediate.
    fn xori(&mut self, op: &Operation) -> (c: Conclusion)
        requires
            old(self).rv32i_ready(),
        ensures
            final(self).rv32i_ready(),
    ;

    /// Or immediate.
    fn ori(&mut self, op: &Operation) -> (c: Conclusion)
        requires
            old(self).rv32i_ready(),
        ensures
            final(self).rv32i_ready(),
    ;

    /// And immediate.
    fn andi(&mut self, op: &Operation) -> (c: Conclusion)
        requires
            old(self).rv32i_ready(),
        ensures
            final(self).rv32i_ready(),
    ;

    /// Shift left logical immediate.
    fn slli(&mut self, op: &Operation) -> (c: Conclusion)
        requires
            old(self).rv32i_ready(),
        ensures
            final(self).rv32i_ready(),
    ;

    /// Shift right logical immediate.
    fn srli(&mut self, op: &Operation) -> (c: Conclusion)
        requires
            old(self).rv32i_ready(),
        ensures
            final(self).rv32i_ready(),
    ;

    /// Shift right arithmetic immediate.
    fn srai(&mut self, op: &Operation) -> (c: Conclusion)
        requires
            old(self).rv32i_ready(),
        ensures
            final(self).rv32i_ready(),
    ;

    /// Add.
    fn add(&mut self, op: &Operation) -> (c: Conclusion)
        requires
            old(self).rv32i_ready(),
        ensures
            final(self).rv32i_ready(),
    ;

    /// Subtract.
    fn sub(&mut self, op: &Operation) -> (c: Conclusion)
        requires
            old(self).rv32i_ready(),
        ensures
            final(self).rv32i_ready(),
    ;

    /// Shift left logical.
    fn sll(&mut self, op: &Operation) -> (c: Conclusion)
        requires
            old(self).rv32i_ready(),
        ensures
            final(self).rv32i_ready(),
    ;

    /// Set less than.
    fn slt(&mut self, op: &Operation) -> (c: Conclusion)
        requires
            old(self).rv32i_ready(),
        ensures
            final(self).rv32i_ready(),
    ;

    /// Set less than unsigned.
    fn sltu(&mut self, op: &Operation) -> (c: Conclusion)
        requires
            old(self).rv32i_ready(),
        ensures
            final(self).rv32i_ready(),
    ;

    /// Exclusive or.
    fn xor(&mut self, op: &Operation) -> (c: Conclusion)
        requires
            old(self).rv32i_ready(),
        ensures
            final(self).rv32i_ready(),
    ;

    /// Shift right logical.
    fn srl(&mut self, op: &Operation) -> (c: Conclusion)
        requires
            old(self).rv32i_ready(),
        ensures
            final(self).rv32i_ready(),
    ;

    /// Shift right arithmetic.
    fn sra(&mut self, op: &Operation) -> (c: Conclusion)
        requires
            old(self).rv32i_ready(),
        ensures
            final(self).rv32i_ready(),
    ;

    /// Or.
    fn or(&mut self, op: &Operation) -> (c: Conclusion)
        requires
            old(self).rv32i_ready(),
        ensures
            final(self).rv32i_ready(),
    ;

    /// And.
    fn and(&mut self, op: &Operation) -> (c: Conclusion)
        requires
            old(self).rv32i_ready(),
        ensures
            final(self).rv32i_ready(),
    ;

    /// Fence: nothing to do, as a hart carries out its accesses in their order.
    fn fence(&mut self, op: &Operation) -> (c: Conclusion)
        requires
            old(self).rv32i_ready(),
        ensures
            final(self).rv32i_ready(),
    ;

    /// Environment call.
    fn ecall(&mut self, op: &Operation) -> (c: Conclusion)
        requires
            old(self).rv32i_ready(),
        ensures
            final(self).rv32i_ready(),
    ;

    /// Environment break.
    fn ebreak(&mut self, op: &Operation) -> (c: Conclusion)
        requires
            old(self).rv32i_ready(),
        ensures
            final(self).rv32i_ready(),
    ;
}

impl Rv32i for Hart {
    open spec fn rv32i_ready(&self) -> bool {
        self.wf()
    }

    fn lui(&mut self, op: &Operation) -> (c: Conclusion)
        ensures
            final(self)@ == old(self)@.lui(op.rd, op.value).hart,
            c == old(self)@.lui(op.rd, op.value).conclusion,
    {
        let c = self.load_upper(op.rd(), op.imm());
        assert(self.rv32i_ready());
        c
    }

    fn auipc(&mut self, op: &Operation) -> (c: Conclusion)
        ensures
            final(self)@ == old(self)@.auipc(op.rd, signed(op.value)).hart,
            c == old(self)@.auipc(op.rd, signed(op.value)).conclusion,
    {
        let imm: i32 = op.imm() as i32;
        proof {
            lemma_alu_bits(op.value, 0);
        }
        let c = self.add_upper(op.rd(), imm);
        assert(self.rv32i_ready());
        c
    }

    fn jal(&mut self, op: &Operation) -> (c: Conclusion)
        ensures
            final(self)@ == old(self)@.jal(op.rd, signed(op.value)).hart,
            c == old(self)@.jal(op.rd, signed(op.value)).conclusion,
    {
        let imm: i32 = op.imm() as i32;
        proof {
            lemma_alu_bits(op.value, 0);
        }
        let c = self.jump_and_link(op.rd(), imm);
        assert(self.rv32i_ready());
        c
    }

    fn jalr(&mut self, op: &Operation) -> (c: Conclusion)
        ensures
            final(self)@ == old(self)@.jalr(op.rd, op.rs1, signed(op.value)).hart,
            c == old(self)@.jalr(op.rd, op.rs1, signed(op.value)).conclusion,
    {
        let imm: i32 = op.imm() as i32;
        proof {
            lemma_alu_bits(op.value, 0);
        }
        let c = self.jump_and_link_register(op.rd(), op.rs1(), imm);
        assert(self.rv32i_ready());
        c
    }

    fn beq(&mut self, op: &Operation) -> (c: Conclusion)
        ensures
            final(self)@ == old(self)@.branch(BranchCond::Eq, op.rs1, op.rs2, signed(op.value)).hart,
            c == old(self)@.branch(BranchCond::Eq, op.rs1, op.rs2, signed(op.value)).conclusion,
    {
        let imm: i32 = op.imm() as i32;
        proof {
            lemma_alu_bits(op.value, 0);
        }
        let c = self.branch(BranchCond::Eq, op.rs1(), op.rs2(), imm);
        assert(self.rv32i_ready());
        c
    }

    fn bne(&mut self, op: &Operation) -> (c: Conclusion)
        ensures
            final(self)@ == old(self)@.branch(BranchCond::Ne, op.rs1, op.rs2, signed(op.value)).hart,
            c == old(self)@.branch(BranchCond::Ne, op.rs1, op.rs2, signed(op.value)).conclusion,
    {
        let imm: i32 = op.imm() as i32;
        proof {
            lemma_alu_bits(op.value, 0);
        }
        let c = self.branch(BranchCond::Ne, op.rs1(), op.rs2(), imm);
        assert(self.rv32i_ready());
        c
    }

    fn blt(&mut self, op: &Operation) -> (c: Conclusion)
        ensures
            final(self)@ == old(self)@.branch(BranchCond::Lt, op.rs1, op.rs2, signed(op.value)).hart,
            c == old(self)@.branch(BranchCond::Lt, op.rs1, op.rs2, signed(op.value)).conclusion,
    {
        let imm: i32 = op.imm() as i32;
        proof {
            lemma_alu_bits(op.value, 0);
        }
        let c = self.branch(BranchCond::Lt, op.rs1(), op.rs2(), imm);
        assert(self.rv32i_ready());
        c
    }

    fn bge(&mut self, op: &Operation) -> (c: Conclusion)
        ensures
            final(self)@ == old(self)@.branch(BranchCond::Ge, op.rs1, op.rs2, signed(op.value)).hart,
            c == old(self)@.branch(BranchCond::Ge, op.rs1, op.rs2, signed(op.value)).conclusion,
    {
        let imm: i32 = op.imm() as i32;
        proof {
            lemma_alu_bits(op.value, 0);
        }
        let c = self.branch(BranchCond::Ge, op.rs1(), op.rs2(), imm);
        assert(self.rv32i_ready());
        c
    }

    fn bltu(&mut self, op: &Operation) -> (c: Conclusion)
        ensures
            final(self)@ == old(self)@.branch(BranchCond::Ltu, op.rs1, op.rs2, signed(op.value)).hart,
            c == old(self)@.branch(BranchCond::Ltu, op.rs1, op.rs2, signed(op.value)).conclusion,
    {
        let imm: i32 = op.imm() as i32;
        proof {
            lemma_alu_bits(op.value, 0);
        }
        let c = self.branch(BranchCond::Ltu, op.rs1(), op.rs2(), imm);
        assert(self.rv32i_ready());
        c
    }

    fn bgeu(&mut self, op: &Operation) -> (c: Conclusion)
        ensures
            final(self)@ == old(self)@.branch(BranchCond::Geu, op.rs1, op.rs2, signed(op.value)).hart,
            c == old(self)@.branch(BranchCond::Geu, op.rs1, op.rs2, signed(op.value)).conclusion,
    {
        let imm: i32 = op.imm() as i32;
        proof {
            lemma_alu_bits(op.value, 0);
        }
        let c = self.branch(BranchCond::Geu, op.rs1(), op.rs2(), imm);
        assert(self.rv32i_ready());
        c
    }

    fn lb(&mut self, op: &Operation, bus: &mut Bus, cells: &mut Reservations) -> (c: Conclusion)
        ensures
            machine(final(self), final(bus), final(cells)) == machine(old(self), old(bus), old(cells)).load(1, true, op.rd, op.rs1, signed(op.value)).machine,
            c == machine(old(self), old(bus), old(cells)).load(1, true, op.rd, op.rs1, signed(op.value)).conclusion,
    {
        let imm: i32 = op.imm() as i32;
        proof {
            lemma_alu_bits(op.value, 0);
        }
        let c = self.load(1, true, op.rd(), op.rs1(), imm, bus, cells);
        assert(self.rv32i_ready());
        c
    }

    fn lh(&mut self, op: &Operation, bus: &mut Bus, cells: &mut Reservations) -> (c: Conclusion)
        ensures
            machine(final(self), final(bus), final(cells)) == machine(old(self), old(bus), old(cells)).load(2, true, op.rd, op.rs1, signed(op.value)).machine,
            c == machine(old(self), old(bus), old(cells)).load(2, true, op.rd, op.rs1, signed(op.value)).conclusion,
    {
        let imm: i32 = op.imm() as i32;
        proof {
            lemma_alu_bits(op.value, 0);
        }
        let c = self.load(2, true, op.rd(), op.rs1(), imm, bus, cells);
        assert(self.rv32i_ready());
        c
    }

    fn lw(&mut self, op: &Operation, bus: &mut Bus, cells: &mut Reservations) -> (c: Conclusion)
        ensures
            machine(final(self), final(bus), final(cells)) == machine(old(self), old(bus), old(cells)).load(4, false, op.rd, op.rs1, signed(op.value)).machine,
            c == machine(old(self), old(bus), old(cells)).load(4, false, op.rd, op.rs1, signed(op.value)).conclusion,
    {
        let imm: i32 = op.imm() as i32;
        proof {
            lemma_alu_bits(op.value, 0);
        }
        let c = self.load(4, false, op.rd(), op.rs1(), imm, bus, cells);
        assert(self.rv32i_ready());
        c
    }

    fn lbu(&mut self, op: &Operation, bus: &mut Bus, cells: &mut Reservations) -> (c: Conclusion)
        ensures
            machine(final(self), final(bus), final(cells)) == machine(old(self), old(bus), old(cells)).load(1, false, op.rd, op.rs1, signed(op.value)).machine,
            c == machine(old(self), old(bus), old(cells)).load(1, false, op.rd, op.rs1, signed(op.value)).conclusion,
    {
        let imm: i32 = op.imm() as i32;
        proof {
            lemma_alu_bits(op.value, 0);
        }
        let c = self.load(1, false, op.rd(), op.rs1(), imm, bus, cells);
        assert(self.rv32i_ready());
        c
    }

    fn lhu(&mut self, op: &Operation, bus: &mut Bus, cells: &mut Reservations) -> (c: Conclusion)
        ensures
            machine(final(self), final(bus), final(cells)) == machine(old(self), old(bus), old(cells)).load(2, false, op.rd, op.rs1, signed(op.value)).machine,
            c == machine(old(self), old(bus), old(cells)).load(2, false, op.rd, op.rs1, signed(op.value)).conclusion,
    {
        let imm: i32 = op.imm() as i32;
        proof {
            lemma_alu_bits(op.value, 0);
        }
        let c = self.load(2, false, op.rd(), op.rs1(), imm, bus, cells);
        assert(self.rv32i_ready());
        c
    }

    fn sb(&mut self, op: &Operation, bus: &mut Bus, cells: &mut Reservations) -> (c: Conclusion)
        ensures
            machine(final(self), final(bus), final(cells)) == machine(old(self), old(bus), old(cells)).store(1, op.rs1, op.rs2, signed(op.value)).machine,
            c == machine(old(self), old(bus), old(cells)).store(1, op.rs1, op.rs2, signed(op.value)).conclusion,
    {
        let imm: i32 = op.imm() as i32;
        proof {
            lemma_alu_bits(op.value, 0);
        }
        let c = self.store(1, op.rs1(), op.rs2(), imm, bus, cells);
        assert(self.rv32i_ready());
        c
    }

    fn sh(&mut self, op: &Operation, bus: &mut Bus, cells: &mut Reservations) -> (c: Conclusion)
        ensures
            machine(final(self), final(bus), final(cells)) == machine(old(self), old(bus), old(cells)).store(2, op.rs1, op.rs2, signed(op.value)).machine,
            c == machine(old(self), old(bus), old(cells)).store(2, op.rs1, op.rs2, signed(op.value)).conclusion,
    {
        let imm: i32 = op.imm() as i32;
        proof {
            lemma_alu_bits(op.value, 0);
        }
        let c = self.store(2, op.rs1(), op.rs2(), imm, bus, cells);
        assert(self.rv32i_ready());
        c
    }

    fn sw(&mut self, op: &Operation, bus: &mut Bus, cells: &mut Reservations) -> (c: Conclusion)
        ensures
            machine(final(self), final(bus), final(cells)) == machine(old(self), old(bus), old(cells)).store(4, op.rs1, op.rs2, signed(op.value)).machine,
            c == machine(old(self), old(bus), old(cells)).store(4, op.rs1, op.rs2, signed(op.value)).conclusion,
    {
        let imm: i32 = op.imm() as i32;
        proof {
            lemma_alu_bits(op.value, 0);
        }
        let c = self.store(4, op.rs1(), op.rs2(), imm, bus, cells);
        assert(self.rv32i_ready());
        c
    }

    fn addi(&mut self, op: &Operation) -> (c: Conclusion)
        ensures
            final(self)@ == old(self)@.op_imm(AluOp::Add, op.rd, op.rs1, op.value).hart,
            c == old(self)@.op_imm(AluOp::Add, op.rd, op.rs1, op.value).conclusion,
    {
        let c = self.op_imm(AluOp::Add, op.rd(), op.rs1(), op.imm());
        assert(self.rv32i_ready());
        c
    }

    fn slti(&mut self, op: &Operation) -> (c: Conclusion)
        ensures
            final(self)@ == old(self)@.op_imm(AluOp::Slt, op.rd, op.rs1, op.value).hart,
            c == old(self)@.op_imm(AluOp::Slt, op.rd, op.rs1, op.value).conclusion,
    {
        let c = self.op_imm(AluOp::Slt, op.rd(), op.rs1(), op.imm());
        assert(self.rv32i_ready());
        c
    }

    fn sltiu(&mut self, op: &Operation) -> (c: Conclusion)
        ensures
            final(self)@ == old(self)@.op_imm(AluOp::Sltu, op.rd, op.rs1, op.value).hart,
            c == old(self)@.op_imm(AluOp::Sltu, op.rd, op.rs1, op.value).conclusion,
    {
        let c = self.op_imm(AluOp::Sltu, op.rd(), op.rs1(), op.imm());
        assert(self.rv32i_ready());
        c
    }

    fn xori(&mut self, op: &Operation) -> (c: Conclusion)
        ensures
            final(self)@ == old(self)@.op_imm(AluOp::Xor, op.rd, op.rs1, op.value).hart,
            c == old(self)@.op_imm(AluOp::Xor, op.rd, op.rs1, op.value).conclusion,
    {
        let c = self.op_imm(AluOp::Xor, op.rd(), op.rs1(), op.imm());
        assert(self.rv32i_ready());
        c
    }

    fn ori(&mut self, op: &Operation) -> (c: Conclusion)
        ensures
            final(self)@ == old(self)@.op_imm(AluOp::Or, op.rd, op.rs1, op.value).hart,
            c == old(self)@.op_imm(AluOp::Or, op.rd, op.rs1, op.value).conclusion,
    {
        let c = self.op_imm(AluOp::Or, op.rd(), op.rs1(), op.imm());
        assert(self.rv32i_ready());
        c
    }

    fn andi(&mut self, op: &Operation) -> (c: Conclusion)
        ensures
            final(self)@ == old(self)@.op_imm(AluOp::And, op.rd, op.rs1, op.value).hart,
            c == old(self)@.op_imm(AluOp::And, op.rd, op.rs1, op.value).conclusion,
    {
        let c = self.op_imm(AluOp::And, op.rd(), op.rs1(), op.imm());
        assert(self.rv32i_ready());
        c
    }

    fn slli(&mut self, op: &Operation) -> (c: Conclusion)
        ensures
            final(self)@ == old(self)@.op_imm(AluOp::Sll, op.rd, op.rs1, (op.value % 32) as u32).hart,
            c == old(self)@.op_imm(AluOp::Sll, op.rd, op.rs1, (op.value % 32) as u32).conclusion,
    {
        let c = self.op_imm(AluOp::Sll, op.rd(), op.rs1(), op.shamt());
        assert(self.rv32i_ready());
        c
    }

    fn srli(&mut self, op: &Operation) -> (c: Conclusion)
        ensures
            final(self)@ == old(self)@.op_imm(AluOp::Srl, op.rd, op.rs1, (op.value % 32) as u32).hart,
            c == old(self)@.op_imm(AluOp::Srl, op.rd, op.rs1, (op.value % 32) as u32).conclusion,
    {
        let c = self.op_imm(AluOp::Srl, op.rd(), op.rs1(), op.shamt());
        assert(self.rv32i_ready());
        c
    }

    fn srai(&mut self, op: &Operation) -> (c: Conclusion)
        ensures
            final(self)@ == old(self)@.op_imm(AluOp::Sra, op.rd, op.rs1, (op.value % 32) as u32).hart,
            c == old(self)@.op_imm(AluOp::Sra, op.rd, op.rs1, (op.value % 32) as u32).conclusion,
    {
        let c = self.op_imm(AluOp::Sra, op.rd(), op.rs1(), op.shamt());
        assert(self.rv32i_ready());
        c
    }

    fn add(&mut self, op: &Operation) -> (c: Conclusion)
        ensures
            final(self)@ == old(self)@.op(AluOp::Add, op.rd, op.rs1, op.rs2).hart,
            c == old(self)@.op(AluOp::Add, op.rd, op.rs1, op.rs2).conclusion,
    {
        let c = self.op(AluOp::Add, op.rd(), op.rs1(), op.rs2());
        assert(self.rv32i_ready());
        c
    }

    fn sub(&mut self, op: &Operation) -> (c: Conclusion)
        ensures
            final(self)@ == old(self)@.op(AluOp::Sub, op.rd, op.rs1, op.rs2).hart,
            c == old(self)@.op(AluOp::Sub, op.rd, op.rs1, op.rs2).conclusion,
    {
        let c = self.op(AluOp::Sub, op.rd(), op.rs1(), op.rs2());
        assert(self.rv32i_ready());
        c
    }

    fn sll(&mut self, op: &Operation) -> (c: Conclusion)
        ensures
            final(self)@ == old(self)@.op(AluOp::Sll, op.rd, op.rs1, op.rs2).hart,
            c == old(self)@.op(AluOp::Sll, op.rd, op.rs1, op.rs2).conclusion,
    {
        let c = self.op(AluOp::Sll, op.rd(), op.rs1(), op.rs2());
        assert(self.rv32i_ready());
        c
    }

    fn slt(&mut self, op: &Operation) -> (c: Conclusion)
        ensures
            final(self)@ == old(self)@.op(AluOp::Slt, op.rd, op.rs1, op.rs2).hart,
            c == old(self)@.op(AluOp::Slt, op.rd, op.rs1, op.rs2).conclusion,
    {
        let c = self.op(AluOp::Slt, op.rd(), op.rs1(), op.rs2());
        assert(self.rv32i_ready());
        c
    }

    fn sltu(&mut self, op: &Operation) -> (c: Conclusion)
        ensures
            final(self)@ == old(self)@.op(AluOp::Sltu, op.rd, op.rs1, op.rs2).hart,
            c == old(self)@.op(AluOp::Sltu, op.rd, op.rs1, op.rs2).conclusion,
    {
        let c = self.op(AluOp::Sltu, op.rd(), op.rs1(), op.rs2());
        assert(self.rv32i_ready());
        c
    }

    fn xor(&mut self, op: &Operation) -> (c: Conclusion)
        ensures
            final(self)@ == old(self)@.op(AluOp::Xor, op.rd, op.rs1, op.rs2).hart,
            c == old(self)@.op(AluOp::Xor, op.rd, op.rs1, op.rs2).conclusion,
    {
        let c = self.op(AluOp::Xor, op.rd(), op.rs1(), op.rs2());
        assert(self.rv32i_ready());
        c
    }

    fn srl(&mut self, op: &Operation) -> (c: Conclusion)
        ensures
            final(self)@ == old(self)@.op(AluOp::Srl, op.rd, op.rs1, op.rs2).hart,
            c == old(self)@.op(AluOp::Srl, op.rd, op.rs1, op.rs2).conclusion,
    {
        let c = self.op(AluOp::Srl, op.rd(), op.rs1(), op.rs2());
        assert(self.rv32i_ready());
        c
    }

    fn sra(&mut self, op: &Operation) -> (c: Conclusion)
        ensures
            final(self)@ == old(self)@.op(AluOp::Sra, op.rd, op.rs1, op.rs2).hart,
            c == old(self)@.op(AluOp::Sra, op.rd, op.rs1, op.rs2).conclusion,
    {
        let c = self.op(AluOp::Sra, op.rd(), op.rs1(), op.rs2());
        assert(self.rv32i_ready());
        c
    }

    fn or(&mut self, op: &Operation) -> (c: Conclusion)
        ensures
            final(self)@ == old(self)@.op(AluOp::Or, op.rd, op.rs1, op.rs2).hart,
            c == old(self)@.op(AluOp::Or, op.rd, op.rs1, op.rs2).conclusion,
    {
        let c = self.op(AluOp::Or, op.rd(), op.rs1(), op.rs2());
        assert(self.rv32i_ready());
        c
    }

    fn and(&mut self, op: &Operation) -> (c: Conclusion)
        ensures
            final(self)@ == old(self)@.op(AluOp::And, op.rd, op.rs1, op.rs2).hart,
            c == old(self)@.op(AluOp::And, op.rd, op.rs1, op.rs2).conclusion,
    {
        let c = self.op(AluOp::And, op.rd(), op.rs1(), op.rs2());
        assert(self.rv32i_ready());
        c
    }

    fn fence(&mut self, op: &Operation) -> (c: Conclusion)
        ensures
            final(self)@ == old(self)@,
            c == Conclusion::Proceed,
    {
        assert(self.rv32i_ready());
        Conclusion::Proceed
    }

    fn ecall(&mut self, op: &Operation) -> (c: Conclusion)
        ensures
            final(self)@ == old(self)@,
            c == Conclusion::Exception(ENVIRONMENT_CALL),
    {
        assert(self.rv32i_ready());
        Conclusion::Exception(ENVIRONMENT_CALL)
    }

    fn ebreak(&mut self, op: &Operation) -> (c: Conclusion)
        ensures
            final(self)@ == old(self)@,
            c == Conclusion::Exception(BREAKPOINT),
    {
        assert(self.rv32i_ready());
        Conclusion::Exception(BREAKPOINT)
    }
}

} // verus!
