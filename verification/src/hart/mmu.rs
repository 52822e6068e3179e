use vstd::prelude::*;
use crate::bus::Bus;
use crate::bus::BusError;
use crate::bus::BusView;
use crate::hart::instruction::decode::decode_spec;
use crate::hart::instruction::decode::decode_with;
use crate::hart::instruction::Extensions;
use crate::hart::instruction::Instruction;
use crate::hart::mmu::cache::block::BlockView;
use crate::hart::mmu::cache::types::block_len;
use crate::hart::mmu::cache::types::set_count;
use crate::hart::mmu::cache::Cache;
use crate::hart::mmu::cache::CacheView;
use crate::hart::sv32::Pte;
use crate::memory::mapping::Mapping;
use crate::memory::mapping::MemoryError;
use crate::memory::mapping::MemoryResult;
use crate::memory::mapping::PmaPacked;
use crate::memory::model::byte_of;
use crate::memory::model::le_bytes;
use crate::memory::model::le_value;
use crate::memory::model::mask_count;
use crate::memory::model::overwrite;
use crate::memory::model::AmoOp;
use crate::memory::reservation::addr_to_reservation_set;
use crate::memory::reservation::reservation_set_of;
use crate::memory::reservation::Reservations;

pub mod cache;
pub mod coherence;
pub mod exclusive;

verus! {

/// Why an access through the memory management unit failed.
#[derive(Debug, Clone, Copy, PartialEq, Eq, Structural)]
pub enum MmuError {
    LoadMisaligned { addr: u32, alignment: u32 },
    StoreMisaligned { addr: u32, alignment: u32 },
    OutOfBoundsAccess { addr: u32 },
    BusError { e: BusError },
}

impl MmuError {
    /// The error that wraps an error of the bus.
    pub fn from_bus(e: BusError) -> (m: MmuError)
        ensures
            m == (MmuError::BusError { e }),
    {
        MmuError::BusError { e }
    }

    /// The error that wraps an error of a region, as the bus passes it on.
    pub open spec fn spec_from_memory(e: MemoryError) -> MmuError {
        MmuError::BusError { e: BusError::MemoryError { e } }
    }

    /// The error that wraps an error of a region, as the bus passes it on.
    pub fn from_memory(e: MemoryError) -> (m: MmuError)
        ensures
            m == Self::spec_from_memory(e),
    {
        MmuError::BusError { e: BusError::MemoryError { e } }
    }
}

impl From<BusError> for MmuError {
    fn from(e: BusError) -> (m: MmuError) {
        MmuError::BusError { e }
    }
}

impl vstd::std_specs::convert::FromSpecImpl<BusError> for MmuError {
    open spec fn obeys_from_spec() -> bool {
        true
    }

    open spec fn from_spec(e: BusError) -> MmuError {
        MmuError::BusError { e }
    }
}

impl From<MemoryError> for MmuError {
    fn from(e: MemoryError) -> (m: MmuError) {
        MmuError::BusError { e: BusError::MemoryError { e } }
    }
}

impl vstd::std_specs::convert::FromSpecImpl<MemoryError> for MmuError {
    open spec fn obeys_from_spec() -> bool {
        true
    }

    open spec fn from_spec(e: MemoryError) -> MmuError {
        MmuError::BusError { e: BusError::MemoryError { e } }
    }
}

pub type MmuResult<T> = Result<T, MmuError>;

/// The number of bytes in a line of the caches.
pub const LINE_SIZE: usize = 64;

/// The number of words in a line of the caches.
pub const LINE_WORDS: usize = 16;

/// The address of the first byte of the line that holds the address.
pub open spec fn line_base(addr: u32) -> u32 {
    (addr - addr % 64) as u32
}

/// Whether the address may be cached: addresses from 2 GiB on belong to devices.
pub open spec fn cacheable(addr: u32) -> bool {
    addr < 0x8000_0000
}

/// The 16 words that 64 bytes spell, little-endian.
pub open spec fn words_of(bytes: Seq<u8>) -> Seq<u32> {
    Seq::new(16, |i: int| le_value(bytes.subrange(4 * i, 4 * i + 4)))
}

/// The bytes that words spell, little-endian.
pub open spec fn bytes_of(words: Seq<u32>) -> Seq<u8> {
    Seq::new(4 * words.len(), |k: int| byte_of(words[k / 4], k % 4))
}

/// Byte `i` of a tracker, the lowest first.
pub open spec fn tracker_byte(tracker: u64, i: int) -> u8 {
    if i == 0 {
        (tracker % 0x100) as u8
    } else if i == 1 {
        ((tracker / 0x100) % 0x100) as u8
    } else if i == 2 {
        ((tracker / 0x1_0000) % 0x100) as u8
    } else if i == 3 {
        ((tracker / 0x100_0000) % 0x100) as u8
    } else if i == 4 {
        ((tracker / 0x1_0000_0000) % 0x100) as u8
    } else if i == 5 {
        ((tracker / 0x100_0000_0000) % 0x100) as u8
    } else if i == 6 {
        ((tracker / 0x1_0000_0000_0000) % 0x100) as u8
    } else {
        ((tracker / 0x100_0000_0000_0000) % 0x100) as u8
    }
}

/// The mask for the write-back of a line: bit `k` of the tracker is bit
/// `k % 8` of byte `k / 8`.
pub open spec fn mask_of(tracker: u64) -> Seq<u8> {
    Seq::new(8, |i: int| tracker_byte(tracker, i))
}

/// What a load of `width` bytes at `addr` takes from the word that holds them.
pub open spec fn extract(word: u32, addr: u32, width: u32) -> u32 {
    le_value(le_bytes(word, 4).subrange((addr % 4) as int, addr % 4 + width))
}

/// The word after a store of the `width` lowest bytes of `val` at `addr`.
pub open spec fn merge(word: u32, addr: u32, width: u32, val: u32) -> u32 {
    le_value(overwrite(le_bytes(word, 4), (addr % 4) as int, le_bytes(val, width as int)))
}

/// The tracker after a store of `width` bytes at `addr`: the bits of the
/// bytes that were written are set, from the place of the address in its line on.
pub open spec fn mark(tracker: u64, addr: u32, width: u32) -> u64 {
    tracker | ((if width == 1 {
        1u64
    } else if width == 2 {
        3u64
    } else {
        15u64
    }) << ((addr % 64) as u64))
}

/// The management unit of a hart as a value: the cell of its reservation,
/// the caches, and the extensions by which it decodes.
pub struct MmuView {
    pub reservation: usize,
    pub d_cache: CacheView<u32, u64>,
    pub i_cache: CacheView<Instruction, ()>,
    /// The cache of the attributes of memory. Nothing fills it yet.
    pub attr: CacheView<PmaPacked, ()>,
    /// The cache of page table entries. Nothing fills it yet.
    pub tlb: CacheView<Pte, ()>,
    pub extensions: Extensions,
}

/// What filling a line of the data cache does.
pub struct Fill {
    pub cache: CacheView<u32, u64>,
    pub bus: BusView,
    pub cells: Seq<u32>,
    pub result: MemoryResult<()>,
}

/// What an access through the management unit does and gives.
pub struct Access<R> {
    pub mmu: MmuView,
    pub bus: BusView,
    pub cells: Seq<u32>,
    pub result: MmuResult<R>,
}

/// What the write-back of a line that left the data cache does: the bytes
/// that the tracker marks are written to the bus at the address of the line.
pub open spec fn write_back(bus: BusView, cells: Seq<u32>, evicted: Option<(u32, BlockView<u32, u64>)>) -> (
    BusView,
    Seq<u32>,
    MemoryResult<()>,
) {
    match evicted {
        Some((word_addr, block)) => {
            let target = (word_addr << 2u32);
            let bytes = bytes_of(block.data);
            let mask = mask_of(block.tracker);
            (
                bus.block_write_masked(target, bytes, mask),
                bus.block_write_masked_cells(target, 64, mask, cells),
                match bus.block_result(target, 64, mask_count(mask, 64)) {
                    Ok(_) => Ok(()),
                    Err(e) => Err(e),
                },
            )
        },
        None => (bus, cells, Ok(())),
    }
}

/// What bringing the line of `addr` into the data cache does: the line is
/// read from the bus and goes into the cache, clean; the line that it drives
/// out is written back where its tracker marks it. If the read fails,
/// nothing changes.
#[verifier::opaque]
pub open spec fn fill(cache: CacheView<u32, u64>, bus: BusView, cells: Seq<u32>, addr: u32) -> Fill {
    match bus.block_read(line_base(addr), 64) {
        Err(e) => Fill { cache, bus, cells, result: Err(e) },
        Ok(bytes) => {
            let back = write_back(bus, cells, cache.evicted(addr / 4, 2, 4));
            Fill {
                cache: cache.insert(addr / 4, 2, 4, BlockView { data: words_of(bytes), tracker: 0 }),
                bus: back.0,
                cells: back.1,
                result: back.2,
            }
        },
    }
}

impl MmuView {
    /// The caches have their geometry: four sets of two lines of sixteen entries.
    pub open spec fn wf(self) -> bool {
        &&& self.d_cache.wf(2, 2, 4)
        &&& self.i_cache.wf(2, 2, 4)
    }

    pub open spec fn with_d_cache(self, d_cache: CacheView<u32, u64>) -> MmuView {
        MmuView { d_cache, ..self }
    }

    pub open spec fn with_i_cache(self, i_cache: CacheView<Instruction, ()>) -> MmuView {
        MmuView { i_cache, ..self }
    }

    /// What a load of `width` bytes at `addr` does and gives. It must be
    /// aligned to its width. From a line that the data cache holds, it takes
    /// what the cache has; for another address that may be cached, the line
    /// comes into the cache first; an address of a device is read over the bus.
    #[verifier::opaque]
    pub open spec fn load(self, bus: BusView, cells: Seq<u32>, addr: u32, width: u32) -> Access<u32> {
        if addr % width != 0 {
            Access { mmu: self, bus, cells, result: Err(MmuError::LoadMisaligned { addr, alignment: width }) }
        } else if self.d_cache.resident(addr / 4, 2, 4) {
            Access {
                mmu: self,
                bus,
                cells,
                result: Ok(extract(self.d_cache.line(addr / 4, 2, 4).data[((addr / 4) % 16) as int], addr, width)),
            }
        } else if cacheable(addr) {
            let f = fill(self.d_cache, bus, cells, addr);
            Access {
                mmu: self.with_d_cache(f.cache),
                bus: f.bus,
                cells: f.cells,
                result: match f.result {
                    Ok(_) => Ok(extract(f.cache.line(addr / 4, 2, 4).data[((addr / 4) % 16) as int], addr, width)),
                    Err(e) => Err(MmuError::spec_from_memory(e)),
                },
            }
        } else {
            Access {
                mmu: self,
                bus,
                cells,
                result: match bus.load(addr, width) {
                    Ok(v) => Ok(v),
                    Err(e) => Err(MmuError::spec_from_memory(e)),
                },
            }
        }
    }

    /// What a store of the `width` lowest bytes of `val` at `addr` does. It
    /// must be aligned to its width. In a line that the data cache holds, or
    /// that it can hold and brings in, the bytes are written to the cache and
    /// marked in the tracker of the line; at an address of a device they are
    /// written over the bus.
    #[verifier::opaque]
    pub open spec fn store(self, bus: BusView, cells: Seq<u32>, addr: u32, width: u32, val: u32) -> Access<()> {
        if addr % width != 0 {
            Access { mmu: self, bus, cells, result: Err(MmuError::StoreMisaligned { addr, alignment: width }) }
        } else if self.d_cache.resident(addr / 4, 2, 4) {
            Access { mmu: self.with_d_cache(Self::stored(self.d_cache, addr, width, val)), bus, cells, result: Ok(()) }
        } else if cacheable(addr) {
            let f = fill(self.d_cache, bus, cells, addr);
            match f.result {
                Ok(_) => Access {
                    mmu: self.with_d_cache(Self::stored(f.cache, addr, width, val)),
                    bus: f.bus,
                    cells: f.cells,
                    result: Ok(()),
                },
                Err(e) => Access {
                    mmu: self.with_d_cache(f.cache),
                    bus: f.bus,
                    cells: f.cells,
                    result: Err(MmuError::spec_from_memory(e)),
                },
            }
        } else {
            Access {
                mmu: self,
                bus: bus.store(addr, width, val),
                cells: bus.store_cells(addr, width, cells),
                result: match bus.store_result(addr, width) {
                    Ok(_) => Ok(()),
                    Err(e) => Err(MmuError::spec_from_memory(e)),
                },
            }
        }
    }

    /// The data cache after a store into a line that it holds.
    pub open spec fn stored(cache: CacheView<u32, u64>, addr: u32, width: u32, val: u32) -> CacheView<u32, u64> {
        let line = cache.line(addr / 4, 2, 4);
        cache.written(
            addr / 4,
            2,
            4,
            merge(line.data[((addr / 4) % 16) as int], addr, width, val),
            mark(line.tracker, addr, width),
        )
    }

    /// The instructions that the 64 bytes of a line decode to.
    pub open spec fn decoded(self, bytes: Seq<u8>) -> Seq<Instruction> {
        Seq::new(16, |i: int| decode_spec(words_of(bytes)[i], self.extensions))
    }

    /// What the fetch of the instruction at `addr` gives, and the
    /// instruction cache after it.
    #[verifier::opaque]
    pub open spec fn load_instruction(self, bus: BusView, addr: u32) -> (MmuView, MmuResult<Instruction>) {
        if addr % 4 != 0 {
            (self, Err(MmuError::LoadMisaligned { addr, alignment: 4 }))
        } else if self.i_cache.resident(addr / 4, 2, 4) {
            (self, Ok(self.i_cache.line(addr / 4, 2, 4).data[((addr / 4) % 16) as int]))
        } else if cacheable(addr) {
            match bus.block_read(line_base(addr), 64) {
                Ok(bytes) => (
                    self.with_i_cache(
                        self.i_cache.insert(addr / 4, 2, 4, BlockView { data: self.decoded(bytes), tracker: () }),
                    ),
                    Ok(self.decoded(bytes)[((addr / 4) % 16) as int]),
                ),
                Err(e) => (self, Err(MmuError::spec_from_memory(e))),
            }
        } else {
            (
                self,
                match bus.load(addr, 4) {
                    Ok(w) => Ok(decode_spec(w, self.extensions)),
                    Err(e) => Err(MmuError::spec_from_memory(e)),
                },
            )
        }
    }

    /// What a load-reserved of the word at `addr` gives: the word as the bus has it.
    pub open spec fn load_reserved(self, bus: BusView, addr: u32) -> MmuResult<u32> {
        match bus.load(addr, 4) {
            Ok(w) => Ok(w),
            Err(MemoryError::LoadMisaligned { offset, alignment }) => Err(
                MmuError::LoadMisaligned { addr: offset, alignment },
            ),
            Err(e) => Err(MmuError::spec_from_memory(e)),
        }
    }

    /// The reservation cells after a load-reserved: if it gave a word, the
    /// cell of the hart holds the reservation set of the address.
    pub open spec fn load_reserved_cells(self, bus: BusView, cells: Seq<u32>, addr: u32) -> Seq<u32> {
        if self.load_reserved(bus, addr) is Ok && self.reservation < cells.len() {
            cells.update(self.reservation as int, reservation_set_of(addr))
        } else {
            cells
        }
    }

    /// Whether the cell of the hart holds the reservation set of the address.
    pub open spec fn holds_reservation(self, cells: Seq<u32>, addr: u32) -> bool {
        self.reservation < cells.len() && cells[self.reservation as int] == reservation_set_of(addr)
    }

    /// What a store-conditional at `addr` gives: 1, and nothing done, if the
    /// cell of the hart does not hold the reservation set of the address;
    /// else what the bus gives.
    pub open spec fn store_conditional_result(self, bus: BusView, cells: Seq<u32>, addr: u32) -> MmuResult<u32> {
        if !self.holds_reservation(cells, addr) {
            Ok(1u32)
        } else {
            match bus.store_conditional_result(addr, cells, self.reservation, reservation_set_of(addr)) {
                Ok(v) => Ok(v),
                Err(e) => Err(MmuError::spec_from_memory(e)),
            }
        }
    }

    /// The bus after a store-conditional.
    pub open spec fn store_conditional_bus(self, bus: BusView, cells: Seq<u32>, addr: u32, val: u32) -> BusView {
        if !self.holds_reservation(cells, addr) {
            bus
        } else {
            bus.store_conditional(addr, val, cells, self.reservation, reservation_set_of(addr))
        }
    }

    /// The reservation cells after a store-conditional.
    pub open spec fn store_conditional_cells(self, bus: BusView, cells: Seq<u32>, addr: u32) -> Seq<u32> {
        if !self.holds_reservation(cells, addr) {
            cells
        } else {
            bus.store_conditional_cells(addr, cells, self.reservation, reservation_set_of(addr))
        }
    }

    /// What an atomic memory operation at `addr` gives: what the bus gives.
    pub open spec fn amo_result(bus: BusView, op: AmoOp, addr: u32) -> MmuResult<u32> {
        match bus.amo_result(op, addr) {
            Ok(v) => Ok(v),
            Err(e) => Err(MmuError::spec_from_memory(e)),
        }
    }
}

/// The sizes of the caches, and the offset of a word in its line.
pub proof fn lemma_geometry(word_addr: u32)
    by (bit_vector)
    ensures
        block_len(4) == 16,
        set_count(2) == 4,
        block_len(0) == 1,
        crate::hart::mmu::cache::types::offset_of(word_addr, 4) == word_addr % 16,
{
}

/// Byte `k` of a word, the lowest first.
fn byte_at(word: u32, k: u32) -> (b: u8)
    requires
        k < 4,
    ensures
        b == byte_of(word, k as int),
{
    if k == 0 {
        (word % 256) as u8
    } else if k == 1 {
        ((word / 0x100) % 256) as u8
    } else if k == 2 {
        ((word / 0x1_0000) % 256) as u8
    } else {
        ((word / 0x100_0000) % 256) as u8
    }
}

/// Takes `width` bytes at `addr` from the word that holds them.
pub fn extract_bytes(word: u32, addr: u32, width: u32) -> (v: u32)
    requires
        width == 1 || width == 2 || width == 4,
        addr % width == 0,
    ensures
        v == extract(word, addr, width),
{
    let k: u32 = addr % 4;
    let ghost part = le_bytes(word, 4).subrange(k as int, k + width);
    if width == 4 {
        proof {
            crate::memory::model::lemma_le_round_trip(word, 4);
            assert(part =~= le_bytes(word, 4));
        }
        word
    } else if width == 2 {
        assert(k == 0 || k == 2) by {
            crate::memory::model::lemma_aligned_offset(addr, width);
        }
        assert(part[0] == byte_of(word, k as int) && part[1] == byte_of(word, k + 1));
        byte_at(word, k) as u32 + 0x100 * (byte_at(word, k + 1) as u32)
    } else {
        assert(part[0] == byte_of(word, k as int));
        byte_at(word, k) as u32
    }
}

/// Writes the `width` lowest bytes of `val` into the word at the place of `addr`.
pub fn merge_bytes(word: u32, addr: u32, width: u32, val: u32) -> (w: u32)
    requires
        width == 1 || width == 2 || width == 4,
        addr % width == 0,
    ensures
        w == merge(word, addr, width, val),
{
    let k: u32 = addr % 4;
    proof {
        crate::memory::model::lemma_aligned_offset(addr, width);
    }
    let ghost bytes = overwrite(le_bytes(word, 4), k as int, le_bytes(val, width as int));
    let b0: u32 = (if k == 0 {
        byte_at(val, 0)
    } else {
        byte_at(word, 0)
    }) as u32;
    let b1: u32 = (if k <= 1 && 1 < k + width {
        byte_at(val, 1 - k)
    } else {
        byte_at(word, 1)
    }) as u32;
    let b2: u32 = (if k <= 2 && 2 < k + width {
        byte_at(val, 2 - k)
    } else {
        byte_at(word, 2)
    }) as u32;
    let b3: u32 = (if k <= 3 && 3 < k + width {
        byte_at(val, 3 - k)
    } else {
        byte_at(word, 3)
    }) as u32;
    assert(bytes[0] == b0 && bytes[1] == b1 && bytes[2] == b2 && bytes[3] == b3);
    b0 + 0x100 * b1 + 0x1_0000 * b2 + 0x100_0000 * b3
}

/// Marks the `width` bytes at `addr` in the tracker of their line.
pub fn mark_bytes(tracker: u64, addr: u32, width: u32) -> (t: u64)
    ensures
        t == mark(tracker, addr, width),
{
    let ones: u64 = if width == 1 {
        1
    } else if width == 2 {
        3
    } else {
        15
    };
    let shift: u64 = (addr % 64) as u64;
    tracker | (ones << shift)
}

/// The 16 words that the 64 bytes of a line spell.
pub fn words_from(bytes: &Vec<u8>) -> (words: Vec<u32>)
    requires
        bytes@.len() == 64,
    ensures
        words@ == words_of(bytes@),
{
    let mut words: Vec<u32> = Vec::new();
    let mut i: usize = 0;
    while i < 16
        invariant
            i <= 16,
            bytes@.len() == 64,
            words@.len() == i,
            forall|k: int| 0 <= k < i ==> words@[k] == le_value(bytes@.subrange(4 * k, 4 * k + 4)),
        decreases 16 - i,
    {
        let ghost part = bytes@.subrange(4 * i, 4 * i + 4);
        assert(part[0] == bytes@[4 * i] && part[1] == bytes@[4 * i + 1] && part[2] == bytes@[4 * i + 2] && part[3]
            == bytes@[4 * i + 3]);
        let b0: u32 = bytes[4 * i] as u32;
        let b1: u32 = bytes[4 * i + 1] as u32;
        let b2: u32 = bytes[4 * i + 2] as u32;
        let b3: u32 = bytes[4 * i + 3] as u32;
        words.push(b0 + 0x100 * b1 + 0x1_0000 * b2 + 0x100_0000 * b3);
        i = i + 1;
    }
    assert(words@ =~= words_of(bytes@));
    words
}

/// The 64 bytes that the 16 words of a line spell.
pub fn bytes_from(words: &Vec<u32>) -> (bytes: Vec<u8>)
    requires
        words@.len() == 16,
    ensures
        bytes@ == bytes_of(words@),
{
    let mut bytes: Vec<u8> = Vec::new();
    let mut i: usize = 0;
    while i < 16
        invariant
            i <= 16,
            words@.len() == 16,
            bytes@.len() == 4 * i,
            forall|k: int| 0 <= k < 4 * i ==> bytes@[k] == byte_of(words@[k / 4], k % 4),
        decreases 16 - i,
    {
        let w: u32 = words[i];
        bytes.push(byte_at(w, 0));
        bytes.push(byte_at(w, 1));
        bytes.push(byte_at(w, 2));
        bytes.push(byte_at(w, 3));
        i = i + 1;
    }
    assert(bytes@ =~= bytes_of(words@));
    bytes
}

/// The mask for the write-back of a line with this tracker.
pub fn mask_from(tracker: u64) -> (mask: Vec<u8>)
    ensures
        mask@ == mask_of(tracker),
{
    let mut mask: Vec<u8> = Vec::new();
    mask.push((tracker % 0x100) as u8);
    mask.push(((tracker / 0x100) % 0x100) as u8);
    mask.push(((tracker / 0x1_0000) % 0x100) as u8);
    mask.push(((tracker / 0x100_0000) % 0x100) as u8);
    mask.push(((tracker / 0x1_0000_0000) % 0x100) as u8);
    mask.push(((tracker / 0x100_0000_0000) % 0x100) as u8);
    mask.push(((tracker / 0x1_0000_0000_0000) % 0x100) as u8);
    mask.push(((tracker / 0x100_0000_0000_0000) % 0x100) as u8);
    assert(mask@ =~= mask_of(tracker));
    mask
}

/// The memory management unit of a hart: a data cache of words with a mask
/// of the bytes that were written, an instruction cache of decoded
/// instructions, and caches for attributes and for page table entries.
pub struct Mmu {
    reservation: usize,
    d_cache: Cache<u32, u64, 2, 2, 4>,
    i_cache: Cache<Instruction, (), 2, 2, 4>,
    attr: Cache<PmaPacked, (), 12, 3, 0>,
    tlb: Cache<Pte, (), 12, 3, 0>,
    extensions: Extensions,
}

impl Mmu {
    pub closed spec fn view(&self) -> MmuView {
        MmuView {
            reservation: self.reservation,
            d_cache: self.d_cache@,
            i_cache: self.i_cache@,
            attr: self.attr@,
            tlb: self.tlb@,
            extensions: self.extensions,
        }
    }

    /// The unit is in order: the data cache and the instruction cache have their geometry.
    pub open spec fn wf(&self) -> bool {
        self@.wf()
    }

    /// A unit with empty caches for the hart whose reservation cell is
    /// `reservation`. It decodes the base instructions and every extension.
    pub fn new(reservation: usize) -> (mmu: Mmu)
        ensures
            mmu.wf(),
            mmu@.reservation == reservation,
            mmu@.extensions == Extensions::spec_all(),
            mmu@.attr.is_empty(),
            mmu@.tlb.is_empty(),
            mmu@.d_cache.is_empty(),
            forall|addr: u32| !(#[trigger] mmu@.d_cache.resident(addr, 2, 4)),
            forall|addr: u32| !(#[trigger] mmu@.i_cache.resident(addr, 2, 4)),
    {
        Self::with_extensions(reservation, Extensions::all())
    }

    /// A unit with empty caches that decodes the base instructions and the given extensions.
    pub fn with_extensions(reservation: usize, extensions: Extensions) -> (mmu: Mmu)
        ensures
            mmu.wf(),
            mmu@.reservation == reservation,
            mmu@.extensions == extensions,
            mmu@.attr.is_empty(),
            mmu@.tlb.is_empty(),
            mmu@.d_cache.is_empty(),
            forall|addr: u32| !(#[trigger] mmu@.d_cache.resident(addr, 2, 4)),
            forall|addr: u32| !(#[trigger] mmu@.i_cache.resident(addr, 2, 4)),
    {
        Mmu {
            reservation,
            d_cache: Cache::filled(0u32, 0u64),
            i_cache: Cache::filled(Instruction::Invalid { raw: 0 }, ()),
            attr: Cache::filled(PmaPacked::from_raw(0), ()),
            tlb: Cache::filled(Pte::new(0), ()),
            extensions,
        }
    }

    /// The index of the reservation cell of the hart.
    pub fn reservation(&self) -> (cell: usize)
        ensures
            cell == self@.reservation,
    {
        self.reservation
    }

    /// Tells whether the address may be cached.
    fn cacheable(&self, addr: u32) -> (b: bool)
        ensures
            b == cacheable(addr),
    {
        addr < 0x8000_0000
    }

    /// Brings the line of `addr` into the data cache and writes back the line that it drives out.
    fn fill_line(&mut self, bus: &mut Bus, cells: &mut Reservations, addr: u32) -> (r: MemoryResult<()>)
        requires
            old(self).wf(),
            old(bus).wf(),
        ensures
            final(self).wf(),
            final(bus).wf(),
            final(self)@ == old(self)@.with_d_cache(fill(old(self)@.d_cache, old(bus)@, old(cells)@, addr).cache),
            final(bus)@ == fill(old(self)@.d_cache, old(bus)@, old(cells)@, addr).bus,
            final(cells)@ == fill(old(self)@.d_cache, old(bus)@, old(cells)@, addr).cells,
            r == fill(old(self)@.d_cache, old(bus)@, old(cells)@, addr).result,
            r is Ok ==> final(self)@.d_cache.resident(addr / 4, 2, 4),
    {
        proof {
            reveal(fill);
            lemma_geometry(addr / 4);
        }
        let mut buf: Vec<u8> = vec![0u8; 64];
        match bus.block_read(addr - addr % 64, buf.as_mut_slice()) {
            Err(e) => Err(e),
            Ok(_) => {
                let ghost before = self.d_cache@;
                let words = words_from(&buf);
                let ghost line = BlockView { data: words@, tracker: 0u64 };
                proof {
                    before.lemma_insert(2, 2, 4, addr / 4, line);
                    before.lemma_evicted(2, 2, 4, addr / 4);
                }
                match self.d_cache.insert(addr / 4, words) {
                    Some((word_addr, data, tracker)) => {
                        let bytes = bytes_from(&data);
                        let mask = mask_from(tracker);
                        match bus.block_write_masked(word_addr << 2, bytes.as_slice(), mask.as_slice(), cells) {
                            Ok(_) => Ok(()),
                            Err(e) => Err(e),
                        }
                    },
                    None => Ok(()),
                }
            },
        }
    }

    /// Loads `width` bytes at the physical address `addr`.
    fn load_physical(&mut self, bus: &mut Bus, cells: &mut Reservations, addr: u32, width: u32) -> (r: MmuResult<
        u32,
    >)
        requires
            old(self).wf(),
            old(bus).wf(),
            width == 1 || width == 2 || width == 4,
        ensures
            final(self).wf(),
            final(bus).wf(),
            final(self)@ == old(self)@.load(old(bus)@, old(cells)@, addr, width).mmu,
            final(bus)@ == old(self)@.load(old(bus)@, old(cells)@, addr, width).bus,
            final(cells)@ == old(self)@.load(old(bus)@, old(cells)@, addr, width).cells,
            r == old(self)@.load(old(bus)@, old(cells)@, addr, width).result,
    {
        proof {
            reveal(fill);
            reveal(MmuView::load);
            lemma_geometry(addr / 4);
        }
        if addr % width != 0 {
            return Err(MmuError::LoadMisaligned { addr, alignment: width });
        }
        if let Some(w) = self.d_cache.get(addr / 4) {
            return Ok(extract_bytes(*w, addr, width));
        }
        if self.cacheable(addr) {
            match self.fill_line(bus, cells, addr) {
                Ok(_) => {
                    match self.d_cache.get(addr / 4) {
                        Some(w) => Ok(extract_bytes(*w, addr, width)),
                        None => vstd::pervasive::unreached(),
                    }
                },
                Err(e) => Err(MmuError::from_memory(e)),
            }
        } else {
            match bus.load(addr, width) {
                Ok(v) => Ok(v),
                Err(e) => Err(MmuError::from_memory(e)),
            }
        }
    }

    /// Loads `width` bytes at `addr`, which must be a multiple of the width.
    pub fn load(&mut self, bus: &mut Bus, cells: &mut Reservations, addr: u32, width: u32) -> (r: MmuResult<u32>)
        requires
            old(self).wf(),
            old(bus).wf(),
            width == 1 || width == 2 || width == 4,
        ensures
            final(self).wf(),
            final(bus).wf(),
            final(self)@ == old(self)@.load(old(bus)@, old(cells)@, addr, width).mmu,
            final(bus)@ == old(self)@.load(old(bus)@, old(cells)@, addr, width).bus,
            final(cells)@ == old(self)@.load(old(bus)@, old(cells)@, addr, width).cells,
            r == old(self)@.load(old(bus)@, old(cells)@, addr, width).result,
    {
        self.load_physical(bus, cells, addr, width)
    }

    /// Loads the byte at `addr`, as a number from 0 to 255.
    pub fn load_byte(&mut self, bus: &mut Bus, cells: &mut Reservations, addr: u32) -> (r: MmuResult<u32>)
        requires
            old(self).wf(),
            old(bus).wf(),
        ensures
            final(self).wf(),
            final(bus).wf(),
            final(self)@ == old(self)@.load(old(bus)@, old(cells)@, addr, 1).mmu,
            final(bus)@ == old(self)@.load(old(bus)@, old(cells)@, addr, 1).bus,
            final(cells)@ == old(self)@.load(old(bus)@, old(cells)@, addr, 1).cells,
            r == old(self)@.load(old(bus)@, old(cells)@, addr, 1).result,
    {
        self.load(bus, cells, addr, 1)
    }

    /// Loads the half word at `addr`, which must be even, as a number from 0 to 65535.
    pub fn load_half_word(&mut self, bus: &mut Bus, cells: &mut Reservations, addr: u32) -> (r: MmuResult<u32>)
        requires
            old(self).wf(),
            old(bus).wf(),
        ensures
            final(self).wf(),
            final(bus).wf(),
            final(self)@ == old(self)@.load(old(bus)@, old(cells)@, addr, 2).mmu,
            final(bus)@ == old(self)@.load(old(bus)@, old(cells)@, addr, 2).bus,
            final(cells)@ == old(self)@.load(old(bus)@, old(cells)@, addr, 2).cells,
            r == old(self)@.load(old(bus)@, old(cells)@, addr, 2).result,
    {
        self.load(bus, cells, addr, 2)
    }

    /// Loads the word at `addr`, which must be a multiple of four.
    pub fn load_word(&mut self, bus: &mut Bus, cells: &mut Reservations, addr: u32) -> (r: MmuResult<u32>)
        requires
            old(self).wf(),
            old(bus).wf(),
        ensures
            final(self).wf(),
            final(bus).wf(),
            final(self)@ == old(self)@.load(old(bus)@, old(cells)@, addr, 4).mmu,
            final(bus)@ == old(self)@.load(old(bus)@, old(cells)@, addr, 4).bus,
            final(cells)@ == old(self)@.load(old(bus)@, old(cells)@, addr, 4).cells,
            r == old(self)@.load(old(bus)@, old(cells)@, addr, 4).result,
    {
        self.load(bus, cells, addr, 4)
    }

    /// Stores into the data cache if it holds the line of the address, and says whether it did.
    fn store_cached(&mut self, addr: u32, width: u32, val: u32) -> (hit: bool)
        requires
            old(self).wf(),
            width == 1 || width == 2 || width == 4,
            addr % width == 0,
        ensures
            final(self).wf(),
            hit == old(self)@.d_cache.resident(addr / 4, 2, 4),
            final(self)@ == (if hit {
                old(self)@.with_d_cache(MmuView::stored(old(self)@.d_cache, addr, width, val))
            } else {
                old(self)@
            }),
    {
        proof {
            lemma_geometry(addr / 4);
        }
        match self.d_cache.get_mut(addr / 4) {
            Some((target, tracker)) => {
                *target = merge_bytes(*target, addr, width, val);
                *tracker = mark_bytes(*tracker, addr, width);
                true
            },
            None => false,
        }
    }

    /// Stores the `width` lowest bytes of `val` at the physical address `addr`.
    fn store_physical(&mut self, bus: &mut Bus, cells: &mut Reservations, addr: u32, width: u32, val: u32) -> (r:
        MmuResult<()>)
        requires
            old(self).wf(),
            old(bus).wf(),
            width == 1 || width == 2 || width == 4,
        ensures
            final(self).wf(),
            final(bus).wf(),
            final(self)@ == old(self)@.store(old(bus)@, old(cells)@, addr, width, val).mmu,
            final(bus)@ == old(self)@.store(old(bus)@, old(cells)@, addr, width, val).bus,
            final(cells)@ == old(self)@.store(old(bus)@, old(cells)@, addr, width, val).cells,
            r == old(self)@.store(old(bus)@, old(cells)@, addr, width, val).result,
    {
        proof {
            reveal(fill);
            reveal(MmuView::store);
        }
        if addr % width != 0 {
            return Err(MmuError::StoreMisaligned { addr, alignment: width });
        }
        if self.store_cached(addr, width, val) {
            return Ok(());
        }
        if self.cacheable(addr) {
            match self.fill_line(bus, cells, addr) {
                Ok(_) => {
                    let hit = self.store_cached(addr, width, val);
                    assert(hit);
                    Ok(())
                },
                Err(e) => Err(MmuError::from_memory(e)),
            }
        } else {
            match bus.store(addr, width, val, cells) {
                Ok(_) => Ok(()),
                Err(e) => Err(MmuError::from_memory(e)),
            }
        }
    }

    /// Stores the `width` lowest bytes of `val` at `addr`, which must be a multiple of the width.
    pub fn store(&mut self, bus: &mut Bus, cells: &mut Reservations, addr: u32, width: u32, val: u32) -> (r: MmuResult<
        (),
    >)
        requires
            old(self).wf(),
            old(bus).wf(),
            width == 1 || width == 2 || width == 4,
        ensures
            final(self).wf(),
            final(bus).wf(),
            final(self)@ == old(self)@.store(old(bus)@, old(cells)@, addr, width, val).mmu,
            final(bus)@ == old(self)@.store(old(bus)@, old(cells)@, addr, width, val).bus,
            final(cells)@ == old(self)@.store(old(bus)@, old(cells)@, addr, width, val).cells,
            r == old(self)@.store(old(bus)@, old(cells)@, addr, width, val).result,
    {
        self.store_physical(bus, cells, addr, width, val)
    }

    /// Stores a byte at `addr`.
    pub fn store_byte(&mut self, bus: &mut Bus, cells: &mut Reservations, addr: u32, b: u8) -> (r: MmuResult<()>)
        requires
            old(self).wf(),
            old(bus).wf(),
        ensures
            final(self).wf(),
            final(bus).wf(),
            final(self)@ == old(self)@.store(old(bus)@, old(cells)@, addr, 1, b as u32).mmu,
            final(bus)@ == old(self)@.store(old(bus)@, old(cells)@, addr, 1, b as u32).bus,
            final(cells)@ == old(self)@.store(old(bus)@, old(cells)@, addr, 1, b as u32).cells,
            r == old(self)@.store(old(bus)@, old(cells)@, addr, 1, b as u32).result,
    {
        self.store(bus, cells, addr, 1, b as u32)
    }

    /// Stores a half word at `addr`, which must be even.
    pub fn store_half_word(&mut self, bus: &mut Bus, cells: &mut Reservations, addr: u32, hw: u16) -> (r: MmuResult<()>)
        requires
            old(self).wf(),
            old(bus).wf(),
        ensures
            final(self).wf(),
            final(bus).wf(),
            final(self)@ == old(self)@.store(old(bus)@, old(cells)@, addr, 2, hw as u32).mmu,
            final(bus)@ == old(self)@.store(old(bus)@, old(cells)@, addr, 2, hw as u32).bus,
            final(cells)@ == old(self)@.store(old(bus)@, old(cells)@, addr, 2, hw as u32).cells,
            r == old(self)@.store(old(bus)@, old(cells)@, addr, 2, hw as u32).result,
    {
        self.store(bus, cells, addr, 2, hw as u32)
    }

    /// Stores a word at `addr`, which must be a multiple of four.
    pub fn store_word(&mut self, bus: &mut Bus, cells: &mut Reservations, addr: u32, w: u32) -> (r: MmuResult<()>)
        requires
            old(self).wf(),
            old(bus).wf(),
        ensures
            final(self).wf(),
            final(bus).wf(),
            final(self)@ == old(self)@.store(old(bus)@, old(cells)@, addr, 4, w).mmu,
            final(bus)@ == old(self)@.store(old(bus)@, old(cells)@, addr, 4, w).bus,
            final(cells)@ == old(self)@.store(old(bus)@, old(cells)@, addr, 4, w).cells,
            r == old(self)@.store(old(bus)@, old(cells)@, addr, 4, w).result,
    {
        self.store(bus, cells, addr, 4, w)
    }

    /// The instructions that the 16 words of a line decode to.
    fn decode_line(&self, bytes: &Vec<u8>) -> (line: Vec<Instruction>)
        requires
            bytes@.len() == 64,
        ensures
            line@ == self@.decoded(bytes@),
    {
        let words = words_from(bytes);
        let mut line: Vec<Instruction> = Vec::new();
        let mut i: usize = 0;
        while i < 16
            invariant
                i <= 16,
                words@ == words_of(bytes@),
                line@.len() == i,
                forall|k: int| 0 <= k < i ==> line@[k] == decode_spec(words@[k], self@.extensions),
            decreases 16 - i,
        {
            line.push(decode_with(words[i], self.extensions));
            i = i + 1;
        }
        assert(line@ =~= self@.decoded(bytes@));
        line
    }

    /// Fetches the instruction at `addr`, which must be a multiple of four.
    /// An instruction whose line the instruction cache holds comes from the
    /// cache; else the line is read from the bus, decoded and put into the
    /// cache. An instruction of a device is read over the bus and not cached.
    pub fn load_instruction(&mut self, bus: &Bus, addr: u32) -> (r: MmuResult<Instruction>)
        requires
            old(self).wf(),
            bus.wf(),
        ensures
            final(self).wf(),
            final(self)@ == old(self)@.load_instruction(bus@, addr).0,
            r == old(self)@.load_instruction(bus@, addr).1,
    {
        proof {
            reveal(MmuView::load_instruction);
            lemma_geometry(addr / 4);
        }
        if addr % 4 != 0 {
            return Err(MmuError::LoadMisaligned { addr, alignment: 4 });
        }
        if let Some(inst) = self.i_cache.get(addr / 4) {
            return Ok(*inst);
        }
        if self.cacheable(addr) {
            let mut buf: Vec<u8> = vec![0u8; 64];
            match bus.block_read(addr - addr % 64, buf.as_mut_slice()) {
                Ok(_) => {
                    let line = self.decode_line(&buf);
                    let inst = line[((addr / 4) % 16) as usize];
                    proof {
                        self.i_cache@.lemma_insert(2, 2, 4, addr / 4, BlockView { data: line@, tracker: () });
                    }
                    let _ = self.i_cache.insert(addr / 4, line);
                    Ok(inst)
                },
                Err(e) => Err(MmuError::from_memory(e)),
            }
        } else {
            match bus.load_word(addr) {
                Ok(w) => Ok(decode_with(w, self.extensions)),
                Err(e) => Err(MmuError::from_memory(e)),
            }
        }
    }

    /// Empties the instruction cache, so that instructions which were
    /// written since they were fetched are fetched anew.
    pub fn fence_i(&mut self)
        requires
            old(self).wf(),
        ensures
            final(self).wf(),
            final(self)@ == old(self)@.with_i_cache(old(self)@.i_cache.cleared()),
            forall|addr: u32| !(#[trigger] final(self)@.i_cache.resident(addr, 2, 4)),
    {
        self.i_cache.clear();
    }

    /// Loads the word at `addr` from the bus, past the cache, and reserves
    /// the set of the address: the cell of the hart holds its identifier
    /// afterwards. If the load fails, the cell stays as it is.
    pub fn load_reserved(&mut self, bus: &Bus, cells: &mut Reservations, addr: u32) -> (r: MmuResult<u32>)
        requires
            bus.wf(),
        ensures
            *final(self) == *old(self),
            r == old(self)@.load_reserved(bus@, addr),
            final(cells)@ == old(self)@.load_reserved_cells(bus@, old(cells)@, addr),
    {
        match bus.load_word(addr) {
            Ok(w) => {
                cells.store(self.reservation, addr_to_reservation_set(addr));
                Ok(w)
            },
            Err(MemoryError::LoadMisaligned { offset, alignment }) => Err(
                MmuError::LoadMisaligned { addr: offset, alignment },
            ),
            Err(e) => Err(MmuError::from_memory(e)),
        }
    }

    /// Stores the word at `addr` over the bus, past the cache, if the hart
    /// still holds the reservation for the set of the address. Returns 0 if
    /// it stored and 1 if not. Without the reservation in the cell of the
    /// hart, memory is not touched.
    pub fn store_conditional(&mut self, bus: &mut Bus, cells: &mut Reservations, addr: u32, val: u32) -> (r:
        MmuResult<u32>)
        requires
            old(bus).wf(),
        ensures
            *final(self) == *old(self),
            final(bus).wf(),
            r == old(self)@.store_conditional_result(old(bus)@, old(cells)@, addr),
            final(bus)@ == old(self)@.store_conditional_bus(old(bus)@, old(cells)@, addr, val),
            final(cells)@ == old(self)@.store_conditional_cells(old(bus)@, old(cells)@, addr),
    {
        let set: u32 = addr_to_reservation_set(addr);
        if self.reservation >= cells.len() || cells.load(self.reservation) != set {
            Ok(1)
        } else {
            match bus.store_conditional(addr, val, cells, self.reservation, set) {
                Ok(v) => Ok(v),
                Err(e) => Err(MmuError::from_memory(e)),
            }
        }
    }

    /// Performs an atomic memory operation on the word at `addr` in the
    /// region that holds it, past the cache. Returns the word that was there.
    pub fn atomic(&mut self, bus: &mut Bus, cells: &mut Reservations, op: AmoOp, addr: u32, src: u32) -> (r:
        MmuResult<u32>)
        requires
            old(bus).wf(),
        ensures
            *final(self) == *old(self),
            final(bus).wf(),
            r == MmuView::amo_result(old(bus)@, op, addr),
            final(bus)@ == old(bus)@.amo(op, addr, src),
            final(cells)@ == old(bus)@.amo_cells(op, addr, old(cells)@),
    {
        match bus.amo(op, addr, src, cells) {
            Ok(v) => Ok(v),
            Err(e) => Err(MmuError::from_memory(e)),
        }
    }

    pub fn swap_word_atomic(&mut self, bus: &mut Bus, cells: &mut Reservations, addr: u32, src: u32) -> (r: MmuResult<u32>)
        requires
            old(bus).wf(),
        ensures
            *final(self) == *old(self),
            final(bus).wf(),
            r == MmuView::amo_result(old(bus)@, AmoOp::Swap, addr),
            final(bus)@ == old(bus)@.amo(AmoOp::Swap, addr, src),
            final(cells)@ == old(bus)@.amo_cells(AmoOp::Swap, addr, old(cells)@),
    {
        self.atomic(bus, cells, AmoOp::Swap, addr, src)
    }

    pub fn add_word_atomic(&mut self, bus: &mut Bus, cells: &mut Reservations, addr: u32, src: u32) -> (r: MmuResult<u32>)
        requires
            old(bus).wf(),
        ensures
            *final(self) == *old(self),
            final(bus).wf(),
            r == MmuView::amo_result(old(bus)@, AmoOp::Add, addr),
            final(bus)@ == old(bus)@.amo(AmoOp::Add, addr, src),
            final(cells)@ == old(bus)@.amo_cells(AmoOp::Add, addr, old(cells)@),
    {
        self.atomic(bus, cells, AmoOp::Add, addr, src)
    }

    pub fn and_word_atomic(&mut self, bus: &mut Bus, cells: &mut Reservations, addr: u32, src: u32) -> (r: MmuResult<u32>)
        requires
            old(bus).wf(),
        ensures
            *final(self) == *old(self),
            final(bus).wf(),
            r == MmuView::amo_result(old(bus)@, AmoOp::And, addr),
            final(bus)@ == old(bus)@.amo(AmoOp::And, addr, src),
            final(cells)@ == old(bus)@.amo_cells(AmoOp::And, addr, old(cells)@),
    {
        self.atomic(bus, cells, AmoOp::And, addr, src)
    }

    pub fn or_word_atomic(&mut self, bus: &mut Bus, cells: &mut Reservations, addr: u32, src: u32) -> (r: MmuResult<u32>)
        requires
            old(bus).wf(),
        ensures
            *final(self) == *old(self),
            final(bus).wf(),
            r == MmuView::amo_result(old(bus)@, AmoOp::Or, addr),
            final(bus)@ == old(bus)@.amo(AmoOp::Or, addr, src),
            final(cells)@ == old(bus)@.amo_cells(AmoOp::Or, addr, old(cells)@),
    {
        self.atomic(bus, cells, AmoOp::Or, addr, src)
    }

    pub fn xor_word_atomic(&mut self, bus: &mut Bus, cells: &mut Reservations, addr: u32, src: u32) -> (r: MmuResult<u32>)
        requires
            old(bus).wf(),
        ensures
            *final(self) == *old(self),
            final(bus).wf(),
            r == MmuView::amo_result(old(bus)@, AmoOp::Xor, addr),
            final(bus)@ == old(bus)@.amo(AmoOp::Xor, addr, src),
            final(cells)@ == old(bus)@.amo_cells(AmoOp::Xor, addr, old(cells)@),
    {
        self.atomic(bus, cells, AmoOp::Xor, addr, src)
    }

    pub fn max_word_atomic(&mut self, bus: &mut Bus, cells: &mut Reservations, addr: u32, src: u32) -> (r: MmuResult<u32>)
        requires
            old(bus).wf(),
        ensures
            *final(self) == *old(self),
            final(bus).wf(),
            r == MmuView::amo_result(old(bus)@, AmoOp::Max, addr),
            final(bus)@ == old(bus)@.amo(AmoOp::Max, addr, src),
            final(cells)@ == old(bus)@.amo_cells(AmoOp::Max, addr, old(cells)@),
    {
        self.atomic(bus, cells, AmoOp::Max, addr, src)
    }

    pub fn min_word_atomic(&mut self, bus: &mut Bus, cells: &mut Reservations, addr: u32, src: u32) -> (r: MmuResult<u32>)
        requires
            old(bus).wf(),
        ensures
            *final(self) == *old(self),
            final(bus).wf(),
            r == MmuView::amo_result(old(bus)@, AmoOp::Min, addr),
            final(bus)@ == old(bus)@.amo(AmoOp::Min, addr, src),
            final(cells)@ == old(bus)@.amo_cells(AmoOp::Min, addr, old(cells)@),
    {
        self.atomic(bus, cells, AmoOp::Min, addr, src)
    }

    pub fn maxu_word_atomic(&mut self, bus: &mut Bus, cells: &mut Reservations, addr: u32, src: u32) -> (r: MmuResult<u32>)
        requires
            old(bus).wf(),
        ensures
            *final(self) == *old(self),
            final(bus).wf(),
            r == MmuView::amo_result(old(bus)@, AmoOp::Maxu, addr),
            final(bus)@ == old(bus)@.amo(AmoOp::Maxu, addr, src),
            final(cells)@ == old(bus)@.amo_cells(AmoOp::Maxu, addr, old(cells)@),
    {
        self.atomic(bus, cells, AmoOp::Maxu, addr, src)
    }

    pub fn minu_word_atomic(&mut self, bus: &mut Bus, cells: &mut Reservations, addr: u32, src: u32) -> (r: MmuResult<u32>)
        requires
            old(bus).wf(),
        ensures
            *final(self) == *old(self),
            final(bus).wf(),
            r == MmuView::amo_result(old(bus)@, AmoOp::Minu, addr),
            final(bus)@ == old(bus)@.amo(AmoOp::Minu, addr, src),
            final(cells)@ == old(bus)@.amo_cells(AmoOp::Minu, addr, old(cells)@),
    {
        self.atomic(bus, cells, AmoOp::Minu, addr, src)
    }
}

} // verus!
