use vstd::prelude::*;
use crate::hart::instruction::operation::Operation;
use crate::hart::instruction::types::Conclusion;
use crate::hart::step::ILLEGAL_INSTRUCTION;
use crate::hart::Hart;

verus! {

/// The instructions that access control and status registers, each on the
/// flat record of an instruction.
pub trait Zicsr {
    /// Whether the state is in order, so that it can carry out an instruction.
    spec fn zicsr_ready(&self) -> bool;

    /// Read and write a control and status register.
    fn csrrw(&mut self, op: &Operation) -> (c: Conclusion)
        requires
            old(self).zicsr_ready(),
        ensures
            final(self).zicsr_ready(),
    ;

    /// Read a control and status register and set bits in it.
    fn csrrs(&mut self, op: &Operation) -> (c: Conclusion)
        requires
            old(self).zicsr_ready(),
        ensures
            final(self).zicsr_ready(),
    ;

    /// Read a control and status register and clear bits in it.
    fn csrrc(&mut self, op: &Operation) -> (c: Conclusion)
        requires
            old(self).zicsr_ready(),
        ensures
            final(self).zicsr_ready(),
    ;

    /// Read and write a control and status register, with an immediate.
    fn csrrwi(&mut self, op: &Operation) -> (c: Conclusion)
        requires
            old(self).zicsr_ready(),
        ensures
            final(self).zicsr_ready(),
    ;

    /// Read a control and status register and set bits in it, with an immediate.
    fn csrrsi(&mut self, op: &Operation) -> (c: Conclusion)
        requires
            old(self).zicsr_ready(),
        ensures
            final(self).zicsr_ready(),
    ;

    /// Read a control and status register and clear bits in it, with an immediate.
    fn csrrci(&mut self, op: &Operation) -> (c: Conclusion)
        requires
            old(self).zicsr_ready(),
        ensures
            final(self).zicsr_ready(),
    ;
}

/// A hart has no control and status registers: each access is an illegal instruction.
impl Zicsr for Hart {
    open spec fn zicsr_ready(&self) -> bool {
        self.wf()
    }

    fn csrrw(&mut self, op: &Operation) -> (c: Conclusion)
        ensures
            final(self)@ == old(self)@,
            c == Conclusion::Exception(ILLEGAL_INSTRUCTION),
    {
        assert(self.zicsr_ready());
        Conclusion::Exception(ILLEGAL_INSTRUCTION)
    }

    fn csrrs(&mut self, op: &Operation) -> (c: Conclusion)
        ensures
            final(self)@ == old(self)@,
            c == Conclusion::Exception(ILLEGAL_INSTRUCTION),
    {
        assert(self.zicsr_ready());
        Conclusion::Exception(ILLEGAL_INSTRUCTION)
    }

    fn csrrc(&mut self, op: &Operation) -> (c: Conclusion)
        ensures
            final(self)@ == old(self)@,
            c == Conclusion::Exception(ILLEGAL_INSTRUCTION),
    {
        assert(self.zicsr_ready());
        Conclusion::Exception(ILLEGAL_INSTRUCTION)
    }

    fn csrrwi(&mut self, op: &Operation) -> (c: Conclusion)
        ensures
            final(self)@ == old(self)@,
            c == Conclusion::Exception(ILLEGAL_INSTRUCTION),
    {
        assert(self.zicsr_ready());
        Conclusion::Exception(ILLEGAL_INSTRUCTION)
    }

    fn csrrsi(&mut self, op: &Operation) -> (c: Conclusion)
        ensures
            final(self)@ == old(self)@,
            c == Conclusion::Exception(ILLEGAL_INSTRUCTION),
    {
        assert(self.zicsr_ready());
        Conclusion::Exception(ILLEGAL_INSTRUCTION)
    }

    fn csrrci(&mut self, op: &Operation) -> (c: Conclusion)
        ensures
            final(self)@ == old(self)@,
            c == Conclusion::Exception(ILLEGAL_INSTRUCTION),
    {
        assert(self.zicsr_ready());
        Conclusion::Exception(ILLEGAL_INSTRUCTION)
    }
}

} // verus!
