use vstd::prelude::*;

verus! {

/// A virtual address of the Sv32 scheme: two page numbers of ten bits and an offset of twelve.
#[derive(Copy, Clone, Debug, PartialEq, Eq, Structural)]
pub struct VirtualAddress {
    raw: u32,
}

impl VirtualAddress {
    pub closed spec fn view(&self) -> u32 {
        self.raw
    }

    pub fn new(raw: u32) -> (a: VirtualAddress)
        ensures
            a@ == raw,
    {
        VirtualAddress { raw }
    }

    pub fn raw(&self) -> (r: u32)
        ensures
            r == self@,
    {
        self.raw
    }

    /// Bits 31:22.
    pub fn vpn1(&self) -> (r: u32)
        ensures
            r == self@ / 0x40_0000,
    {
        self.raw / 0x40_0000
    }

    /// Bits 21:12.
    pub fn vpn0(&self) -> (r: u32)
        ensures
            r == (self@ / 0x1000) % 0x400,
    {
        (self.raw / 0x1000) % 0x400
    }

    /// Bits 11:0.
    pub fn offset(&self) -> (r: u32)
        ensures
            r == self@ % 0x1000,
    {
        self.raw % 0x1000
    }
}

/// A physical address, cut to 32 bits: two page numbers and an offset of twelve bits.
#[derive(Copy, Clone, Debug, PartialEq, Eq, Structural)]
pub struct PhysicalAddress {
    raw: u32,
}

impl PhysicalAddress {
    pub closed spec fn view(&self) -> u32 {
        self.raw
    }

    pub fn new(raw: u32) -> (a: PhysicalAddress)
        ensures
            a@ == raw,
    {
        PhysicalAddress { raw }
    }

    pub fn raw(&self) -> (r: u32)
        ensures
            r == self@,
    {
        self.raw
    }

    /// Bits 31:22.
    pub fn ppn1(&self) -> (r: u32)
        ensures
            r == self@ / 0x40_0000,
    {
        self.raw / 0x40_0000
    }

    /// Bits 21:12.
    pub fn ppn0(&self) -> (r: u32)
        ensures
            r == (self@ / 0x1000) % 0x400,
    {
        (self.raw / 0x1000) % 0x400
    }

    /// Bits 11:0.
    pub fn offset(&self) -> (r: u32)
        ensures
            r == self@ % 0x1000,
    {
        self.raw % 0x1000
    }
}

/// The two bits of a page table entry that are left to software.
#[derive(Copy, Clone, Debug, PartialEq, Eq, Structural)]
pub enum PteRsw {
    Rsw0,
    Rsw1,
    Rsw2,
    Rsw3,
}

/// What a page table entry stands for, by its read, write and execute bits.
#[derive(Copy, Clone, Debug, PartialEq, Eq, Structural)]
pub enum PteKind {
    /// A pointer to the next level of the page table.
    Pointer,
    Read,
    ReadWrite,
    Execute,
    ReadExecute,
    ReadWriteExecute,
    /// Writable but not readable: reserved.
    Reserved,
}

/// A page table entry of the Sv32 scheme.
#[derive(Copy, Clone, Debug, PartialEq, Eq, Structural)]
pub struct Pte {
    raw: u32,
}

impl Default for Pte {
    fn default() -> (pte: Pte)
        ensures
            pte@ == 0,
    {
        Pte { raw: 0 }
    }
}

impl Pte {
    pub closed spec fn view(&self) -> u32 {
        self.raw
    }

    /// What the entry stands for.
    pub open spec fn spec_kind(&self) -> PteKind {
        let r = (self@ / 2) % 2 == 1;
        let w = (self@ / 4) % 2 == 1;
        let x = (self@ / 8) % 2 == 1;
        if !x && !w && !r {
            PteKind::Pointer
        } else if !x && !w && r {
            PteKind::Read
        } else if !x && w && r {
            PteKind::ReadWrite
        } else if x && !w && !r {
            PteKind::Execute
        } else if x && !w && r {
            PteKind::ReadExecute
        } else if x && w && r {
            PteKind::ReadWriteExecute
        } else {
            PteKind::Reserved
        }
    }

    pub fn new(raw: u32) -> (pte: Pte)
        ensures
            pte@ == raw,
    {
        Pte { raw }
    }

    pub fn raw(&self) -> (r: u32)
        ensures
            r == self@,
    {
        self.raw
    }

    /// Bits 31:20: the upper part of the physical page number.
    pub fn ppn1(&self) -> (r: u32)
        ensures
            r == self@ / 0x10_0000,
    {
        self.raw / 0x10_0000
    }

    /// Bits 19:10: the lower part of the physical page number.
    pub fn ppn0(&self) -> (r: u32)
        ensures
            r == (self@ / 0x400) % 0x400,
    {
        (self.raw / 0x400) % 0x400
    }

    /// The address of the page that the entry points to, cut to 32 bits:
    /// the page number times the page size.
    pub fn base(&self) -> (r: u32)
        ensures
            r == ((self@ / 0x400) * 0x1000) % 0x1_0000_0000,
    {
        let page: u64 = (self.raw / 0x400) as u64;
        ((page * 0x1000) % 0x1_0000_0000) as u32
    }

    /// Bits 9:8.
    pub fn rsw(&self) -> (r: PteRsw)
        ensures
            r == (if (self@ / 0x100) % 4 == 0 {
                PteRsw::Rsw0
            } else if (self@ / 0x100) % 4 == 1 {
                PteRsw::Rsw1
            } else if (self@ / 0x100) % 4 == 2 {
                PteRsw::Rsw2
            } else {
                PteRsw::Rsw3
            }),
    {
        let bits: u32 = (self.raw / 0x100) % 4;
        if bits == 0 {
            PteRsw::Rsw0
        } else if bits == 1 {
            PteRsw::Rsw1
        } else if bits == 2 {
            PteRsw::Rsw2
        } else {
            PteRsw::Rsw3
        }
    }

    /// Bit 7.
    pub fn dirty(&self) -> (b: bool)
        ensures
            b == ((self@ / 128) % 2 == 1),
    {
        (self.raw / 128) % 2 == 1
    }

    /// Bit 6.
    pub fn accessed(&self) -> (b: bool)
        ensures
            b == ((self@ / 64) % 2 == 1),
    {
        (self.raw / 64) % 2 == 1
    }

    /// Bit 5.
    pub fn global(&self) -> (b: bool)
        ensures
            b == ((self@ / 32) % 2 == 1),
    {
        (self.raw / 32) % 2 == 1
    }

    /// Bit 4.
    pub fn user(&self) -> (b: bool)
        ensures
            b == ((self@ / 16) % 2 == 1),
    {
        (self.raw / 16) % 2 == 1
    }

    /// Bit 3.
    pub fn executable(&self) -> (b: bool)
        ensures
            b == ((self@ / 8) % 2 == 1),
    {
        (self.raw / 8) % 2 == 1
    }

    /// Bit 2.
    pub fn writable(&self) -> (b: bool)
        ensures
            b == ((self@ / 4) % 2 == 1),
    {
        (self.raw / 4) % 2 == 1
    }

    /// Bit 1.
    pub fn readable(&self) -> (b: bool)
        ensures
            b == ((self@ / 2) % 2 == 1),
    {
        (self.raw / 2) % 2 == 1
    }

    /// Bit 0.
    pub fn valid(&self) -> (b: bool)
        ensures
            b == (self@ % 2 == 1),
    {
        self.raw % 2 == 1
    }

    /// What the entry stands for.
    pub fn kind(&self) -> (k: PteKind)
        ensures
            k == self.spec_kind(),
    {
        match (self.executable(), self.writable(), self.readable()) {
            (false, false, false) => PteKind::Pointer,
            (false, false, true) => PteKind::Read,
            (false, true, false) => PteKind::Reserved,
            (false, true, true) => PteKind::ReadWrite,
            (true, false, false) => PteKind::Execute,
            (true, false, true) => PteKind::ReadExecute,
            (true, true, false) => PteKind::Reserved,
            (true, true, true) => PteKind::ReadWriteExecute,
        }
    }
}

} // verus!
