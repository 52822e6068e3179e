use vstd::prelude::*;
use crate::hart::alu::AluOp;
use crate::hart::instruction::operation::Operation;
use crate::hart::instruction::types::Conclusion;
use crate::hart::Hart;

verus! {

/// The instructions for integer multiplication and division, each on the
/// flat record of an instruction.
pub trait Rv32m {
    /// Whether the state is in order, so that it can carry out an instruction.
    spec fn rv32m_ready(&self) -> bool;

    /// Multiply: the lower word of the product.
    fn mul(&mut self, op: &Operation) -> (c: Conclusion)
        requires
            old(self).rv32m_ready(),
        ensures
            final(self).rv32m_ready(),
    ;

    /// Multiply high: the upper word of the product of two signed words.
    fn mulh(&mut self, op: &Operation) -> (c: Conclusion)
        requires
            old(self).rv32m_ready(),
        ensures
            final(self).rv32m_ready(),
    ;

    /// Multiply high signed by unsigned.
    fn mulhsu(&mut self, op: &Operation) -> (c: Conclusion)
        requires
            old(self).rv32m_ready(),
        ensures
            final(self).rv32m_ready(),
    ;

    /// Multiply high unsigned.
    fn mulhu(&mut self, op: &Operation) -> (c: Conclusion)
        requires
            old(self).rv32m_ready(),
        ensures
            final(self).rv32m_ready(),
    ;

    /// Divide signed.
    fn div(&mut self, op: &Operation) -> (c: Conclusion)
        requires
            old(self).rv32m_ready(),
        ensures
            final(self).rv32m_ready(),
    ;

    /// Divide unsigned.
    fn divu(&mut self, op: &Operation) -> (c: Conclusion)
        requires
            old(self).rv32m_ready(),
        ensures
            final(self).rv32m_ready(),
    ;

    /// Remainder signed.
    fn rem(&mut self, op: &Operation) -> (c: Conclusion)
        requires
            old(self).rv32m_ready(),
        ensures
            final(self).rv32m_ready(),
    ;

    /// Remainder unsigned.
    fn remu(&mut self, op: &Operation) -> (c: Conclusion)
        requires
            old(self).rv32m_ready(),
        ensures
            final(self).rv32m_ready(),
    ;
}

impl Rv32m for Hart {
    open spec fn rv32m_ready(&self) -> bool {
        self.wf()
    }

    fn mul(&mut self, op: &Operation) -> (c: Conclusion)
        ensures
            final(self)@ == old(self)@.op(AluOp::Mul, op.rd, op.rs1, op.rs2).hart,
            c == old(self)@.op(AluOp::Mul, op.rd, op.rs1, op.rs2).conclusion,
    {
        let c = self.op(AluOp::Mul, op.rd(), op.rs1(), op.rs2());
        assert(self.rv32m_ready());
        c
    }

    fn mulh(&mut self, op: &Operation) -> (c: Conclusion)
        ensures
            final(self)@ == old(self)@.op(AluOp::Mulh, op.rd, op.rs1, op.rs2).hart,
            c == old(self)@.op(AluOp::Mulh, op.rd, op.rs1, op.rs2).conclusion,
    {
        let c = self.op(AluOp::Mulh, op.rd(), op.rs1(), op.rs2());
        assert(self.rv32m_ready());
        c
    }

    fn mulhsu(&mut self, op: &Operation) -> (c: Conclusion)
        ensures
            final(self)@ == old(self)@.op(AluOp::Mulhsu, op.rd, op.rs1, op.rs2).hart,
            c == old(self)@.op(AluOp::Mulhsu, op.rd, op.rs1, op.rs2).conclusion,
    {
        let c = self.op(AluOp::Mulhsu, op.rd(), op.rs1(), op.rs2());
        assert(self.rv32m_ready());
        c
    }

    fn mulhu(&mut self, op: &Operation) -> (c: Conclusion)
        ensures
            final(self)@ == old(self)@.op(AluOp::Mulhu, op.rd, op.rs1, op.rs2).hart,
            c == old(self)@.op(AluOp::Mulhu, op.rd, op.rs1, op.rs2).conclusion,
    {
        let c = self.op(AluOp::Mulhu, op.rd(), op.rs1(), op.rs2());
        assert(self.rv32m_ready());
        c
    }

    fn div(&mut self, op: &Operation) -> (c: Conclusion)
        ensures
            final(self)@ == old(self)@.op(AluOp::Div, op.rd, op.rs1, op.rs2).hart,
            c == old(self)@.op(AluOp::Div, op.rd, op.rs1, op.rs2).conclusion,
    {
        let c = self.op(AluOp::Div, op.rd(), op.rs1(), op.rs2());
        assert(self.rv32m_ready());
        c
    }

    fn divu(&mut self, op: &Operation) -> (c: Conclusion)
        ensures
            final(self)@ == old(self)@.op(AluOp::Divu, op.rd, op.rs1, op.rs2).hart,
            c == old(self)@.op(AluOp::Divu, op.rd, op.rs1, op.rs2).conclusion,
    {
        let c = self.op(AluOp::Divu, op.rd(), op.rs1(), op.rs2());
        assert(self.rv32m_ready());
        c
    }

    fn rem(&mut self, op: &Operation) -> (c: Conclusion)
        ensures
            final(self)@ == old(self)@.op(AluOp::Rem, op.rd, op.rs1, op.rs2).hart,
            c == old(self)@.op(AluOp::Rem, op.rd, op.rs1, op.rs2).conclusion,
    {
        let c = self.op(AluOp::Rem, op.rd(), op.rs1(), op.rs2());
        assert(self.rv32m_ready());
        c
    }

    fn remu(&mut self, op: &Operation) -> (c: Conclusion)
        ensures
            final(self)@ == old(self)@.op(AluOp::Remu, op.rd, op.rs1, op.rs2).hart,
            c == old(self)@.op(AluOp::Remu, op.rd, op.rs1, op.rs2).conclusion,
    {
        let c = self.op(AluOp::Remu, op.rd(), op.rs1(), op.rs2());
        assert(self.rv32m_ready());
        c
    }
}

} // verus!
