use vstd::prelude::*;
use crate::hart::mmu::Mmu;
use crate::hart::mmu::MmuView;
use crate::hart::register::Reg;
use crate::hart::register::RegisterFile;
use crate::hart::instruction::Extensions;

pub mod alu;
pub mod execute;
pub mod instruction;
pub mod mmu;
pub mod register;
pub mod rv32i;
pub mod rv32m;
pub mod step;
pub mod sv32;
pub mod utils;
pub mod zicsr;

verus! {

/// A hart as a value: the program counter, the registers, the management unit.
pub struct HartView {
    pub pc: u32,
    pub regs: Seq<u32>,
    pub mmu: MmuView,
}

impl HartView {
    /// The caches have their geometry, the registers are 32, and the first
    /// register holds zero.
    pub open spec fn wf(self) -> bool {
        &&& self.mmu.wf()
        &&& self.regs.len() == 32
        &&& self.regs[0] == 0
    }
}

/// A hardware thread: a program counter, a register file and a memory management unit.
pub struct Hart {
    pub pc: u32,
    pub reg: RegisterFile,
    mmu: Mmu,
}

impl Hart {
    pub closed spec fn view(&self) -> HartView {
        HartView { pc: self.pc, regs: self.reg@, mmu: self.mmu@ }
    }

    /// The hart is in order: its caches are, it has 32 registers, and the
    /// first of them holds zero.
    pub open spec fn wf(&self) -> bool {
        self@.wf()
    }

    /// A hart at address 0 with every register at zero and empty caches,
    /// whose reservation cell is `reservation`. It carries out the base
    /// instructions and every extension.
    pub fn new(reservation: usize) -> (hart: Hart)
        ensures
            hart.wf(),
            hart@.pc == 0,
            hart@.regs == Seq::new(32, |i: int| 0u32),
            hart@.mmu.reservation == reservation,
            hart@.mmu.extensions == Extensions::spec_all(),
            hart@.mmu.d_cache.is_empty(),
            forall|addr: u32| !(#[trigger] hart@.mmu.d_cache.resident(addr, 2, 4)),
            forall|addr: u32| !(#[trigger] hart@.mmu.i_cache.resident(addr, 2, 4)),
    {
        Hart { pc: 0, reg: RegisterFile::new(), mmu: Mmu::new(reservation) }
    }

    /// A hart like a new one that carries out the base instructions and the given extensions.
    pub fn with_extensions(reservation: usize, extensions: Extensions) -> (hart: Hart)
        ensures
            hart.wf(),
            hart@.pc == 0,
            hart@.regs == Seq::new(32, |i: int| 0u32),
            hart@.mmu.reservation == reservation,
            hart@.mmu.extensions == extensions,
            hart@.mmu.d_cache.is_empty(),
            forall|addr: u32| !(#[trigger] hart@.mmu.d_cache.resident(addr, 2, 4)),
            forall|addr: u32| !(#[trigger] hart@.mmu.i_cache.resident(addr, 2, 4)),
    {
        Hart { pc: 0, reg: RegisterFile::new(), mmu: Mmu::with_extensions(reservation, extensions) }
    }

    /// The program counter.
    pub fn pc(&self) -> (pc: u32)
        ensures
            pc == self@.pc,
    {
        self.pc
    }

    /// Sets the program counter.
    pub fn set_pc(&mut self, pc: u32)
        ensures
            final(self)@ == old(self)@.set_pc(pc),
            old(self).wf() ==> final(self).wf(),
    {
        self.pc = pc;
    }

    /// Reads a register. `X0` and `Ignore` read as zero.
    pub fn get_reg(&self, r: Reg) -> (v: u32)
        ensures
            v == self@.reg(r),
            r.is_zero() ==> v == 0,
    {
        self.reg.get(r)
    }

    /// Writes a register. A write to `X0` or to `Ignore` is dropped.
    pub fn set_reg(&mut self, rd: Reg, val: u32)
        ensures
            final(self)@ == old(self)@.set_reg(rd, val),
            old(self).wf() ==> final(self).wf(),
    {
        self.reg.set(rd, val);
    }

    /// The index of the reservation cell of the hart.
    pub fn reservation(&self) -> (cell: usize)
        ensures
            cell == self@.mmu.reservation,
    {
        self.mmu.reservation()
    }
}

} // verus!
