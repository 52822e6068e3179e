use vstd::prelude::*;
use crate::memory::model::stream_reads_ok;
use crate::memory::model::stream_writes_ok;
use crate::memory::model::StreamRead;
use crate::memory::model::StreamWrite;
use crate::memory::reservation::Reservations;

verus! {

/// Whether a region is main memory or belongs to a device.
#[derive(PartialEq, Eq, Debug, Clone, Copy, Structural)]
pub enum MemoryKind {
    Main,
    Io,
}

/// The atomic memory operations that a region supports. Each class holds the ones before it.
#[derive(PartialEq, Eq, Debug, Clone, Copy, Structural)]
pub enum AmoClass {
    /// No atomic operation.
    Unsupported,
    /// Swap.
    Swap,
    /// Swap and the logical operations: and, or, xor.
    Logical,
    /// Swap, the logical operations and the arithmetic ones: add, min, max.
    Arithmetic,
}

impl AmoClass {
    /// The rank of the class: a class supports the operations of every class of lower rank.
    pub open spec fn rank(self) -> int {
        match self {
            AmoClass::Unsupported => 0,
            AmoClass::Swap => 1,
            AmoClass::Logical => 2,
            AmoClass::Arithmetic => 3,
        }
    }

    /// Whether a region of this class supports an operation of the class `needed`.
    pub fn supports(self, needed: AmoClass) -> (b: bool)
        ensures
            b == (needed.rank() <= self.rank()),
    {
        let have: u8 = match self {
            AmoClass::Unsupported => 0,
            AmoClass::Swap => 1,
            AmoClass::Logical => 2,
            AmoClass::Arithmetic => 3,
        };
        let need: u8 = match needed {
            AmoClass::Unsupported => 0,
            AmoClass::Swap => 1,
            AmoClass::Logical => 2,
            AmoClass::Arithmetic => 3,
        };
        need <= have
    }
}

/// Whether load-reserved and store-conditional work on a region.
#[derive(PartialEq, Eq, Debug, Clone, Copy, Structural)]
pub enum Reservability {
    /// They do not.
    Unreservable,
    /// They do, but a store-conditional may fail forever.
    NonEventual,
    /// They do, and a store-conditional succeeds in the end.
    Eventual,
}

/// Whether reading or writing a region twice is the same as doing it once.
#[derive(PartialEq, Eq, Debug, Clone, Copy, Structural)]
pub enum Idempotency {
    NonIdempotent,
    Idempotent,
}

/// How far accesses to a region may be cached or combined.
#[derive(PartialEq, Eq, Debug, Clone, Copy, Structural)]
pub enum Cacheability {
    /// Every load and store goes to the region at once.
    NonCacheable,
    /// Writes and loads may be streamed.
    Stream,
    /// Writes may be streamed, loads may be cached.
    WriteStreamLoadCache,
    /// Block reads and block writes work, and both loads and stores may be cached.
    Cacheable,
}

/// The physical memory attributes of a region.
#[derive(Debug, Clone, Copy, PartialEq, Eq, Structural)]
pub struct Pma {
    pub kind: MemoryKind,
    pub amo: AmoClass,
    pub reservability: Reservability,
    pub idempotency: Idempotency,
    pub cacheability: Cacheability,
}

impl Default for Pma {
    fn default() -> (pma: Pma)
        ensures
            pma == Pma::spec_main(),
    {
        Pma {
            kind: MemoryKind::Main,
            amo: AmoClass::Arithmetic,
            reservability: Reservability::Eventual,
            idempotency: Idempotency::Idempotent,
            cacheability: Cacheability::Cacheable,
        }
    }
}

impl Pma {
    /// The attributes of main memory: everything is supported.
    pub open spec fn spec_main() -> Pma {
        Pma {
            kind: MemoryKind::Main,
            amo: AmoClass::Arithmetic,
            reservability: Reservability::Eventual,
            idempotency: Idempotency::Idempotent,
            cacheability: Cacheability::Cacheable,
        }
    }

    /// The byte that packs these attributes: the kind in bit 0, the class of
    /// atomics in bits 1 and 2, the reservability in bits 3 and 4, the
    /// idempotency in bit 5, the cacheability in bits 6 and 7.
    pub open spec fn spec_packed(self) -> u8 {
        ((match self.kind {
            MemoryKind::Main => 0int,
            MemoryKind::Io => 1int,
        }) + 2 * self.amo.rank() + 8 * (match self.reservability {
            Reservability::Unreservable => 0int,
            Reservability::NonEventual => 1int,
            Reservability::Eventual => 2int,
        }) + 32 * (match self.idempotency {
            Idempotency::NonIdempotent => 0int,
            Idempotency::Idempotent => 1int,
        }) + 64 * (match self.cacheability {
            Cacheability::NonCacheable => 0int,
            Cacheability::Stream => 1int,
            Cacheability::WriteStreamLoadCache => 2int,
            Cacheability::Cacheable => 3int,
        })) as u8
    }

    /// The attributes of main memory.
    pub fn main() -> (pma: Pma)
        ensures
            pma == Pma::spec_main(),
    {
        Pma::default()
    }

    /// Packs the attributes into one byte.
    pub fn packed(&self) -> (p: PmaPacked)
        ensures
            p@ == self.spec_packed(),
    {
        let kind: u8 = match self.kind {
            MemoryKind::Main => 0,
            MemoryKind::Io => 1,
        };
        let amo: u8 = match self.amo {
            AmoClass::Unsupported => 0,
            AmoClass::Swap => 1,
            AmoClass::Logical => 2,
            AmoClass::Arithmetic => 3,
        };
        let reservability: u8 = match self.reservability {
            Reservability::Unreservable => 0,
            Reservability::NonEventual => 1,
            Reservability::Eventual => 2,
        };
        let idempotency: u8 = match self.idempotency {
            Idempotency::NonIdempotent => 0,
            Idempotency::Idempotent => 1,
        };
        let cacheability: u8 = match self.cacheability {
            Cacheability::NonCacheable => 0,
            Cacheability::Stream => 1,
            Cacheability::WriteStreamLoadCache => 2,
            Cacheability::Cacheable => 3,
        };
        PmaPacked { internal: kind + 2 * amo + 8 * reservability + 32 * idempotency + 64 * cacheability }
    }

    pub fn kind(&self) -> (k: MemoryKind)
        ensures
            k == self.kind,
    {
        self.kind
    }

    pub fn amo(&self) -> (a: AmoClass)
        ensures
            a == self.amo,
    {
        self.amo
    }

    pub fn reservability(&self) -> (r: Reservability)
        ensures
            r == self.reservability,
    {
        self.reservability
    }

    pub fn idpempotency(&self) -> (i: Idempotency)
        ensures
            i == self.idempotency,
    {
        self.idempotency
    }

    pub fn cacheability(&self) -> (c: Cacheability)
        ensures
            c == self.cacheability,
    {
        self.cacheability
    }
}

/// Physical memory attributes in one byte.
#[derive(Debug, Clone, Copy, PartialEq, Eq, Structural)]
pub struct PmaPacked {
    internal: u8,
}

impl Default for PmaPacked {
    fn default() -> (p: PmaPacked)
        ensures
            p@ == Pma::spec_main().spec_packed(),
    {
        Pma::default().packed()
    }
}

impl PmaPacked {
    /// The byte.
    pub closed spec fn view(&self) -> u8 {
        self.internal
    }

    /// The attributes that the byte `b` packs. The reservability that no
    /// attribute is written as reads as none.
    pub open spec fn spec_unpacked(b: u8) -> Pma {
        Pma {
            kind: if b % 2 == 0 {
                MemoryKind::Main
            } else {
                MemoryKind::Io
            },
            amo: if (b / 2) % 4 == 0 {
                AmoClass::Unsupported
            } else if (b / 2) % 4 == 1 {
                AmoClass::Swap
            } else if (b / 2) % 4 == 2 {
                AmoClass::Logical
            } else {
                AmoClass::Arithmetic
            },
            reservability: if (b / 8) % 4 == 1 {
                Reservability::NonEventual
            } else if (b / 8) % 4 == 2 {
                Reservability::Eventual
            } else {
                Reservability::Unreservable
            },
            idempotency: if (b / 32) % 2 == 0 {
                Idempotency::NonIdempotent
            } else {
                Idempotency::Idempotent
            },
            cacheability: if b / 64 == 0 {
                Cacheability::NonCacheable
            } else if b / 64 == 1 {
                Cacheability::Stream
            } else if b / 64 == 2 {
                Cacheability::WriteStreamLoadCache
            } else {
                Cacheability::Cacheable
            },
        }
    }

    /// Takes a byte as packed attributes.
    pub fn from_raw(raw: u8) -> (p: PmaPacked)
        ensures
            p@ == raw,
    {
        PmaPacked { internal: raw }
    }

    /// The byte.
    pub fn raw(&self) -> (b: u8)
        ensures
            b == self@,
    {
        self.internal
    }

    pub fn kind(&self) -> (k: MemoryKind)
        ensures
            k == Self::spec_unpacked(self@).kind,
    {
        if self.internal % 2 == 0 {
            MemoryKind::Main
        } else {
            MemoryKind::Io
        }
    }

    pub fn amo(&self) -> (a: AmoClass)
        ensures
            a == Self::spec_unpacked(self@).amo,
    {
        let bits: u8 = (self.internal / 2) % 4;
        if bits == 0 {
            AmoClass::Unsupported
        } else if bits == 1 {
            AmoClass::Swap
        } else if bits == 2 {
            AmoClass::Logical
        } else {
            AmoClass::Arithmetic
        }
    }

    pub fn reservability(&self) -> (r: Reservability)
        ensures
            r == Self::spec_unpacked(self@).reservability,
    {
        let bits: u8 = (self.internal / 8) % 4;
        if bits == 1 {
            Reservability::NonEventual
        } else if bits == 2 {
            Reservability::Eventual
        } else {
            Reservability::Unreservable
        }
    }

    pub fn idempotency(&self) -> (i: Idempotency)
        ensures
            i == Self::spec_unpacked(self@).idempotency,
    {
        if (self.internal / 32) % 2 == 0 {
            Idempotency::NonIdempotent
        } else {
            Idempotency::Idempotent
        }
    }

    pub fn cacheability(&self) -> (c: Cacheability)
        ensures
            c == Self::spec_unpacked(self@).cacheability,
    {
        let bits: u8 = self.internal / 64;
        if bits == 0 {
            Cacheability::NonCacheable
        } else if bits == 1 {
            Cacheability::Stream
        } else if bits == 2 {
            Cacheability::WriteStreamLoadCache
        } else {
            Cacheability::Cacheable
        }
    }

    /// Unpacks the byte into the attributes.
    pub fn unpacked(&self) -> (pma: Pma)
        ensures
            pma == Self::spec_unpacked(self@),
    {
        Pma {
            kind: self.kind(),
            amo: self.amo(),
            reservability: self.reservability(),
            idempotency: self.idempotency(),
            cacheability: self.cacheability(),
        }
    }
}

/// Packing attributes and unpacking the byte gives the attributes back.
pub proof fn lemma_pma_unpack_pack(pma: Pma)
    ensures
        PmaPacked::spec_unpacked(pma.spec_packed()) == pma,
{
}

/// Unpacking a byte and packing the attributes gives the byte back, bit for
/// bit, unless its reservability bits are both set.
pub proof fn lemma_pma_pack_unpack(b: u8)
    requires
        (b / 8) % 4 != 3,
    ensures
        PmaPacked::spec_unpacked(b).spec_packed() == b,
{
    assert(b == (b % 2) + 2 * ((b / 2) % 4) + 8 * ((b / 8) % 4) + 32 * ((b / 32) % 2) + 64 * (b / 64)
        && b / 64 < 4) by (bit_vector);
}

/// Why an access to a region failed.
#[derive(Debug, Clone, Copy, PartialEq, Eq, Structural)]
pub enum MemoryError {
    OutOfBoundsAccess { offset: u32 },
    AmoUnsupported { amo: AmoClass },
    AmoMisaligned { offset: u32, amo: AmoClass },
    LoadMisaligned { offset: u32, alignment: u32 },
    StoreMisaligned { offset: u32, alignment: u32 },
    SizeUnsupported { offset: u32, size: u32 },
    BlockOperationUnsupported,
}

pub type MemoryResult<T> = Result<T, MemoryError>;

/// Where a region lies: its first frame and the number of its frames.
#[derive(Debug, Clone, Copy, PartialEq, Eq, Structural)]
pub struct Properties {
    base_frame: u32,
    frame_count: u32,
}

impl Properties {
    pub closed spec fn spec_base_frame(&self) -> u32 {
        self.base_frame
    }

    pub closed spec fn spec_frame_count(&self) -> u32 {
        self.frame_count
    }

    pub fn new(base_frame: u32, frame_count: u32) -> (p: Properties)
        ensures
            p.spec_base_frame() == base_frame,
            p.spec_frame_count() == frame_count,
    {
        Properties { base_frame, frame_count }
    }

    pub fn base_frame(&self) -> (b: u32)
        ensures
            b == self.spec_base_frame(),
    {
        self.base_frame
    }

    pub fn frame_count(&self) -> (c: u32)
        ensures
            c == self.spec_frame_count(),
    {
        self.frame_count
    }
}

/// A region of physical memory: main memory, the memory of a device, or the
/// bus that holds them.
///
/// A store of any kind takes the reservation cells of the harts, so that it
/// can take their reservations from the harts that registered with the region.
pub trait Mapping {
    /// Whether the region is in order. Every operation asks for it and keeps it.
    spec fn wf(&self) -> bool;

    /// Writes `src` to the region from `offset` on, across frames.
    fn block_write(&mut self, offset: u32, src: &[u8], cells: &mut Reservations) -> (r: MemoryResult<usize>)
        requires
            old(self).wf(),
        ensures
            final(self).wf(),
    ;

    /// Like `block_write`, but writes byte `i` only if bit `i % 8` of `mask[i / 8]` is set.
    fn block_write_masked(&mut self, offset: u32, src: &[u8], mask: &[u8], cells: &mut Reservations) -> (r: MemoryResult<usize>)
        requires
            old(self).wf(),
            mask@.len() * 8 >= src@.len(),
        ensures
            final(self).wf(),
    ;

    /// Fills `dst` with the bytes of the region from `offset` on, across frames.
    fn block_read(&self, offset: u32, dst: &mut [u8]) -> (r: MemoryResult<usize>)
        requires
            self.wf(),
    ;

    /// Like `block_read`, but reads byte `i` only if bit `i % 8` of `mask[i / 8]` is set.
    fn block_read_masked(&self, offset: u32, dst: &mut [u8], mask: &[u8]) -> (r: MemoryResult<usize>)
        requires
            self.wf(),
            mask@.len() * 8 >= old(dst)@.len(),
    ;

    /// Performs a sequence of writes to one frame. Each write gives an offset
    /// into the frame, a width of 1, 2 or 4 bytes and the value; it is aligned
    /// to its width.
    fn stream_write(&mut self, frame: u32, writes: &[StreamWrite], cells: &mut Reservations) -> (r: MemoryResult<usize>)
        requires
            old(self).wf(),
            stream_writes_ok(writes@),
        ensures
            final(self).wf(),
    ;

    /// Performs a sequence of reads from one frame, one value of `dst` for
    /// each. Each read gives an offset into the frame and a width of 1, 2 or
    /// 4 bytes; it is aligned to its width.
    fn stream_read(&self, frame: u32, reads: &[StreamRead], dst: &mut [u32]) -> (r: MemoryResult<usize>)
        requires
            self.wf(),
            stream_reads_ok(reads@),
            reads@.len() == old(dst)@.len(),
    ;

    fn store_byte(&mut self, offset: u32, byte: u8, cells: &mut Reservations) -> (r: MemoryResult<()>)
        requires
            old(self).wf(),
        ensures
            final(self).wf(),
    ;

    fn store_half_word(&mut self, offset: u32, half_word: u16, cells: &mut Reservations) -> (r: MemoryResult<()>)
        requires
            old(self).wf(),
        ensures
            final(self).wf(),
    ;

    fn store_word(&mut self, offset: u32, word: u32, cells: &mut Reservations) -> (r: MemoryResult<()>)
        requires
            old(self).wf(),
        ensures
            final(self).wf(),
    ;

    fn load_byte(&self, offset: u32) -> (r: MemoryResult<u8>)
        requires
            self.wf(),
    ;

    fn load_half_word(&self, offset: u32) -> (r: MemoryResult<u16>)
        requires
            self.wf(),
    ;

    fn load_word(&self, offset: u32) -> (r: MemoryResult<u32>)
        requires
            self.wf(),
    ;

    /// Stores `src` at `offset` if the cell `reservation` still holds
    /// `should_be`. Returns 0 if it stored and 1 if not.
    fn store_conditional(
        &mut self,
        offset: u32,
        src: u32,
        cells: &mut Reservations,
        reservation: usize,
        should_be: u32,
    ) -> (r: MemoryResult<u32>)
        requires
            old(self).wf(),
        ensures
            final(self).wf(),
    ;

    fn amoswap_w(&mut self, offset: u32, src: u32, cells: &mut Reservations) -> (r: MemoryResult<u32>)
        requires
            old(self).wf(),
        ensures
            final(self).wf(),
    ;

    fn amoadd_w(&mut self, offset: u32, src: u32, cells: &mut Reservations) -> (r: MemoryResult<u32>)
        requires
            old(self).wf(),
        ensures
            final(self).wf(),
    ;

    fn amoand_w(&mut self, offset: u32, src: u32, cells: &mut Reservations) -> (r: MemoryResult<u32>)
        requires
            old(self).wf(),
        ensures
            final(self).wf(),
    ;

    fn amoor_w(&mut self, offset: u32, src: u32, cells: &mut Reservations) -> (r: MemoryResult<u32>)
        requires
            old(self).wf(),
        ensures
            final(self).wf(),
    ;

    fn amoxor_w(&mut self, offset: u32, src: u32, cells: &mut Reservations) -> (r: MemoryResult<u32>)
        requires
            old(self).wf(),
        ensures
            final(self).wf(),
    ;

    fn amomax_w(&mut self, offset: u32, src: u32, cells: &mut Reservations) -> (r: MemoryResult<u32>)
        requires
            old(self).wf(),
        ensures
            final(self).wf(),
    ;

    fn amomaxu_w(&mut self, offset: u32, src: u32, cells: &mut Reservations) -> (r: MemoryResult<u32>)
        requires
            old(self).wf(),
        ensures
            final(self).wf(),
    ;

    fn amomin_w(&mut self, offset: u32, src: u32, cells: &mut Reservations) -> (r: MemoryResult<u32>)
        requires
            old(self).wf(),
        ensures
            final(self).wf(),
    ;

    fn amominu_w(&mut self, offset: u32, src: u32, cells: &mut Reservations) -> (r: MemoryResult<u32>)
        requires
            old(self).wf(),
        ensures
            final(self).wf(),
    ;

    fn attributes(&self) -> Pma
        requires
            self.wf(),
    ;

    fn properties(&self) -> Properties
        requires
            self.wf(),
    ;

    /// Registers a reservation cell: from now on a store to the region takes
    /// the reservation from the cell if the cell holds the set that is written.
    fn register_reservation_set(&mut self, reservation: usize)
        requires
            old(self).wf(),
        ensures
            final(self).wf(),
    ;
}

/// A region that threads can share.
pub trait SendSyncMapping: Send + Sync + Mapping {

}

impl<T> SendSyncMapping for T where T: Send + Sync + Mapping {

}

} // verus!
