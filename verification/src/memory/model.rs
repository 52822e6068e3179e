use vstd::prelude::*;
use crate::memory::mapping::AmoClass;
use crate::memory::mapping::MemoryError;
use crate::memory::mapping::MemoryResult;
use crate::memory::mapping::Pma;
use crate::memory::reservation::invalidated;
use crate::memory::reservation::set_range;
use crate::memory::reservation::NO_RESERVATION;

verus! {

/// The number of bytes in a frame.
pub const FRAME_SIZE: usize = 4096;

/// The largest number of frames that a region can have.
pub const MAX_FRAME_COUNT: u32 = 0xf_ffff;

/// Byte `i` of `val` in little-endian order.
pub open spec fn byte_of(val: u32, i: int) -> u8 {
    if i == 0 {
        (val % 256) as u8
    } else if i == 1 {
        ((val / 0x100) % 256) as u8
    } else if i == 2 {
        ((val / 0x1_0000) % 256) as u8
    } else {
        ((val / 0x100_0000) % 256) as u8
    }
}

/// The `width` lowest bytes of `val`, the lowest first.
pub open spec fn le_bytes(val: u32, width: int) -> Seq<u8> {
    Seq::new(width as nat, |i: int| byte_of(val, i))
}

/// The value that up to four bytes spell, the lowest byte first.
pub open spec fn le_value(bytes: Seq<u8>) -> u32 {
    if bytes.len() == 1 {
        bytes[0] as u32
    } else if bytes.len() == 2 {
        (bytes[0] + 0x100 * bytes[1]) as u32
    } else {
        (bytes[0] + 0x100 * bytes[1] + 0x1_0000 * bytes[2] + 0x100_0000 * bytes[3]) as u32
    }
}

/// The bytes spell the value that they were taken from, cut to their width.
pub proof fn lemma_le_round_trip(val: u32, width: int)
    requires
        width == 1 || width == 2 || width == 4,
    ensures
        le_value(le_bytes(val, width)) == (if width == 1 {
            val % 0x100
        } else if width == 2 {
            val % 0x1_0000
        } else {
            val
        }),
{
    assert(val == (val % 256) + 0x100 * ((val / 0x100) % 256) + 0x1_0000 * ((val / 0x1_0000) % 256) + 0x100_0000
        * ((val / 0x100_0000) % 256) && val % 0x1_0000 == (val % 256) + 0x100 * ((val / 0x100) % 256))
        by (bit_vector);
    let bytes = le_bytes(val, width);
    assert(bytes[0] == byte_of(val, 0));
    if width >= 2 {
        assert(bytes[1] == byte_of(val, 1));
    }
    if width == 4 {
        assert(bytes[2] == byte_of(val, 2));
        assert(bytes[3] == byte_of(val, 3));
    }
}

/// `bytes` with `data` written over it from the index `offset` on.
pub open spec fn overwrite(bytes: Seq<u8>, offset: int, data: Seq<u8>) -> Seq<u8> {
    Seq::new(
        bytes.len(),
        |i: int|
            if offset <= i < offset + data.len() {
                data[i - offset]
            } else {
                bytes[i]
            },
    )
}

/// Whether bit `i` of the mask is set: bit `i % 8` of byte `i / 8`.
pub open spec fn mask_bit(mask: Seq<u8>, i: int) -> bool {
    (mask[i / 8] >> ((i % 8) as u8)) & 1 == 1
}

/// `bytes` with those bytes of `data` written over it, from the index `offset`
/// on, whose bit in the mask is set.
pub open spec fn overwrite_masked(bytes: Seq<u8>, offset: int, data: Seq<u8>, mask: Seq<u8>) -> Seq<u8> {
    Seq::new(
        bytes.len(),
        |i: int|
            if offset <= i < offset + data.len() && mask_bit(mask, i - offset) {
                data[i - offset]
            } else {
                bytes[i]
            },
    )
}

/// The number of bits that are set among the first `n` of the mask.
pub open spec fn mask_count(mask: Seq<u8>, n: int) -> int
    decreases n,
{
    if n <= 0 {
        0
    } else {
        mask_count(mask, n - 1) + (if mask_bit(mask, n - 1) {
            1int
        } else {
            0int
        })
    }
}

/// An atomic memory operation on a word.
#[derive(Debug, Clone, Copy, PartialEq, Eq, Structural)]
pub enum AmoOp {
    Swap,
    Add,
    And,
    Or,
    Xor,
    Max,
    Maxu,
    Min,
    Minu,
}

impl AmoOp {
    /// The class that a region must have to support this operation.
    pub open spec fn spec_class(self) -> AmoClass {
        match self {
            AmoOp::Swap => AmoClass::Swap,
            AmoOp::And | AmoOp::Or | AmoOp::Xor => AmoClass::Logical,
            AmoOp::Add | AmoOp::Max | AmoOp::Maxu | AmoOp::Min | AmoOp::Minu => AmoClass::Arithmetic,
        }
    }

    /// The word that the operation leaves in memory, from the word that was there and the operand.
    pub open spec fn spec_apply(self, old: u32, src: u32) -> u32 {
        match self {
            AmoOp::Swap => src,
            AmoOp::Add => ((old + src) % 0x1_0000_0000) as u32,
            AmoOp::And => old & src,
            AmoOp::Or => old | src,
            AmoOp::Xor => old ^ src,
            AmoOp::Max => if (old as i32) < (src as i32) {
                src
            } else {
                old
            },
            AmoOp::Maxu => if old < src {
                src
            } else {
                old
            },
            AmoOp::Min => if (src as i32) < (old as i32) {
                src
            } else {
                old
            },
            AmoOp::Minu => if src < old {
                src
            } else {
                old
            },
        }
    }

    /// The class that a region must have to support this operation.
    pub fn class(self) -> (c: AmoClass)
        ensures
            c == self.spec_class(),
    {
        match self {
            AmoOp::Swap => AmoClass::Swap,
            AmoOp::And | AmoOp::Or | AmoOp::Xor => AmoClass::Logical,
            AmoOp::Add | AmoOp::Max | AmoOp::Maxu | AmoOp::Min | AmoOp::Minu => AmoClass::Arithmetic,
        }
    }

    /// The word that the operation leaves in memory.
    pub fn apply(self, old: u32, src: u32) -> (new: u32)
        ensures
            new == self.spec_apply(old, src),
    {
        match self {
            AmoOp::Swap => src,
            AmoOp::Add => old.wrapping_add(src),
            AmoOp::And => old & src,
            AmoOp::Or => old | src,
            AmoOp::Xor => old ^ src,
            AmoOp::Max => if (old as i32) < (src as i32) {
                src
            } else {
                old
            },
            AmoOp::Maxu => if old < src {
                src
            } else {
                old
            },
            AmoOp::Min => if (src as i32) < (old as i32) {
                src
            } else {
                old
            },
            AmoOp::Minu => if src < old {
                src
            } else {
                old
            },
        }
    }
}

/// One write of a stream: the offset into the frame, the width in bytes, the value.
pub type StreamWrite = (u16, u8, u32);

/// One read of a stream: the offset into the frame and the width in bytes.
pub type StreamRead = (u16, u8);

/// Whether an access of a stream lies in a frame, has a width of 1, 2 or 4
/// bytes and is aligned to its width.
pub open spec fn stream_access_ok(offset: u16, width: u8) -> bool {
    &&& offset < 4096
    &&& (width == 1 || width == 2 || width == 4)
    &&& offset % (width as u16) == 0
}

/// An aligned access into a frame ends in the frame and is aligned in the region too.
pub proof fn lemma_aligned_in_frame(base: u32, offset: u32, width: u32)
    by (bit_vector)
    requires
        base % 4096 == 0,
        base <= 0xffff_f000,
        offset < 4096,
        width == 1 || width == 2 || width == 4,
        offset % width == 0,
    ensures
        offset + width <= 4096,
        ((base + offset) as u32) % width == 0,
        ((base + offset) as u32) / 4096 == base / 4096,
        base + offset <= 0xffff_ffff,
{
}

/// An aligned access ends in the frame in which it starts.
pub proof fn lemma_aligned_offset(offset: u32, width: u32)
    by (bit_vector)
    requires
        width == 1 || width == 2 || width == 4,
        offset % width == 0,
    ensures
        (offset % 4096) + width <= 4096,
        offset == (offset / 4096) * 4096 + (offset % 4096),
        offset / 4096 <= 0xf_ffff,
{
}

pub open spec fn stream_writes_ok(writes: Seq<StreamWrite>) -> bool {
    forall|i: int| 0 <= i < writes.len() ==> stream_access_ok((#[trigger] writes[i]).0, writes[i].1)
}

pub open spec fn stream_reads_ok(reads: Seq<StreamRead>) -> bool {
    forall|i: int| 0 <= i < reads.len() ==> stream_access_ok((#[trigger] reads[i]).0, reads[i].1)
}

/// A region of memory as a value: where it starts, its bytes, the reservation
/// cells that were registered with it, and its attributes.
pub struct MainView {
    pub base_frame: u32,
    pub bytes: Seq<u8>,
    pub registered: Seq<usize>,
    pub attributes: Pma,
}

impl MainView {
    /// The region holds whole frames, and no more than fit below 4 GiB.
    pub open spec fn wf(self) -> bool {
        &&& self.bytes.len() % 4096 == 0
        &&& self.bytes.len() / 4096 <= MAX_FRAME_COUNT
    }

    pub open spec fn frame_count(self) -> int {
        self.bytes.len() as int / 4096
    }

    /// Whether the frame of the offset is one of the region's.
    pub open spec fn backs(self, offset: u32) -> bool {
        offset / 4096 < self.frame_count()
    }

    /// The reservation set of the byte at `offset`, counted from address 0 of the bus.
    pub open spec fn granule(self, offset: int) -> u32 {
        ((self.base_frame as int * 4096 + offset) / 64) as u32
    }

    /// The reservation sets of the `len` bytes from `offset` on.
    pub open spec fn granules(self, offset: int, len: int) -> Set<u32> {
        if len <= 0 {
            Set::empty()
        } else {
            set_range(self.granule(offset), self.granule(offset + len - 1))
        }
    }

    /// The reservation sets of those of the `len` bytes from `offset` on whose bit in the mask is set.
    pub open spec fn granules_masked(self, offset: int, len: int, mask: Seq<u8>) -> Set<u32> {
        Set::new(|g: u32| exists|i: int| 0 <= i < len && mask_bit(mask, i) && g == self.granule(offset + i))
    }

    /// The same region with other bytes.
    pub open spec fn with_bytes(self, bytes: Seq<u8>) -> MainView {
        MainView { bytes, ..self }
    }

    /// What checking an access of `width` bytes at `offset` gives: the frame
    /// and the index in it, counted in units of the width.
    pub open spec fn check_offset(self, offset: u32, width: u32) -> MemoryResult<(usize, usize)> {
        if offset % width != 0 {
            Err(MemoryError::StoreMisaligned { offset, alignment: width })
        } else if !self.backs(offset) {
            Err(MemoryError::OutOfBoundsAccess { offset })
        } else {
            Ok(((offset / 4096) as usize, ((offset % 4096) / width) as usize))
        }
    }

    /// What a load of `width` bytes at `offset` gives.
    pub open spec fn load(self, offset: u32, width: u32) -> MemoryResult<u32> {
        if offset % width != 0 {
            Err(MemoryError::LoadMisaligned { offset, alignment: width })
        } else if !self.backs(offset) {
            Err(MemoryError::OutOfBoundsAccess { offset })
        } else {
            Ok(le_value(self.bytes.subrange(offset as int, offset + width)))
        }
    }

    /// What a store of `width` bytes at `offset` returns.
    pub open spec fn store_result(self, offset: u32, width: u32) -> MemoryResult<()> {
        if offset % width != 0 {
            Err(MemoryError::StoreMisaligned { offset, alignment: width })
        } else if !self.backs(offset) {
            Err(MemoryError::OutOfBoundsAccess { offset })
        } else {
            Ok(())
        }
    }

    /// The region after a store of the `width` lowest bytes of `val` at `offset`.
    pub open spec fn store(self, offset: u32, width: u32, val: u32) -> MainView {
        if self.store_result(offset, width) is Ok {
            self.with_bytes(overwrite(self.bytes, offset as int, le_bytes(val, width as int)))
        } else {
            self
        }
    }

    /// The reservation cells after a store of `width` bytes at `offset`.
    pub open spec fn store_cells(self, offset: u32, width: u32, cells: Seq<u32>) -> Seq<u32> {
        if self.store_result(offset, width) is Ok {
            invalidated(cells, self.registered, self.granules(offset as int, width as int))
        } else {
            cells
        }
    }

    /// Whether the region backs the `len` bytes from `offset` on. It backs no bytes anywhere.
    pub open spec fn block_in_bounds(self, offset: u32, len: int) -> bool {
        len == 0 || offset + len <= self.bytes.len()
    }

    /// What a block read of `len` bytes at `offset` gives.
    pub open spec fn block_read(self, offset: u32, len: int) -> MemoryResult<Seq<u8>> {
        if len == 0 {
            Ok(Seq::empty())
        } else if self.block_in_bounds(offset, len) {
            Ok(self.bytes.subrange(offset as int, offset + len))
        } else {
            Err(MemoryError::OutOfBoundsAccess { offset })
        }
    }

    /// What a block operation on `len` bytes at `offset` returns when it moves `moved` bytes.
    pub open spec fn block_result(self, offset: u32, len: int, moved: int) -> MemoryResult<usize> {
        if self.block_in_bounds(offset, len) {
            Ok(moved as usize)
        } else {
            Err(MemoryError::OutOfBoundsAccess { offset })
        }
    }

    /// `dst` after a masked block read at `offset`: the bytes whose bit in
    /// the mask is set come from the region, the others stay.
    pub open spec fn block_read_masked(self, offset: u32, dst: Seq<u8>, mask: Seq<u8>) -> Seq<u8> {
        if self.block_in_bounds(offset, dst.len() as int) {
            Seq::new(
                dst.len(),
                |i: int|
                    if mask_bit(mask, i) {
                        self.bytes[offset + i]
                    } else {
                        dst[i]
                    },
            )
        } else {
            dst
        }
    }

    /// The region after a block write of `src` at `offset`.
    pub open spec fn block_write(self, offset: u32, src: Seq<u8>) -> MainView {
        if self.block_in_bounds(offset, src.len() as int) {
            self.with_bytes(overwrite(self.bytes, offset as int, src))
        } else {
            self
        }
    }

    /// The reservation cells after a block write of `len` bytes at `offset`.
    pub open spec fn block_write_cells(self, offset: u32, len: int, cells: Seq<u32>) -> Seq<u32> {
        if self.block_in_bounds(offset, len) {
            invalidated(cells, self.registered, self.granules(offset as int, len))
        } else {
            cells
        }
    }

    /// The region after a masked block write of `src` at `offset`.
    pub open spec fn block_write_masked(self, offset: u32, src: Seq<u8>, mask: Seq<u8>) -> MainView {
        if self.block_in_bounds(offset, src.len() as int) {
            self.with_bytes(overwrite_masked(self.bytes, offset as int, src, mask))
        } else {
            self
        }
    }

    /// The reservation cells after a masked block write of `len` bytes at `offset`.
    pub open spec fn block_write_masked_cells(self, offset: u32, len: int, mask: Seq<u8>, cells: Seq<u32>) -> Seq<
        u32,
    > {
        if self.block_in_bounds(offset, len) {
            invalidated(cells, self.registered, self.granules_masked(offset as int, len, mask))
        } else {
            cells
        }
    }

    /// The offset in the region of an access of a stream into the frame `frame`.
    pub open spec fn stream_offset(frame: u32, offset: u16) -> u32 {
        (frame * 4096 + offset) as u32
    }

    /// The region after the writes of a stream into the frame `frame`.
    pub open spec fn stream_write(self, frame: u32, writes: Seq<StreamWrite>) -> MainView
        decreases writes.len(),
    {
        if writes.len() == 0 || frame >= self.frame_count() {
            self
        } else {
            let w = writes.last();
            self.stream_write(frame, writes.drop_last()).store(Self::stream_offset(frame, w.0), w.1 as u32, w.2)
        }
    }

    /// The reservation cells after the writes of a stream into the frame `frame`.
    pub open spec fn stream_write_cells(self, frame: u32, writes: Seq<StreamWrite>, cells: Seq<u32>) -> Seq<u32>
        decreases writes.len(),
    {
        if writes.len() == 0 || frame >= self.frame_count() {
            cells
        } else {
            let w = writes.last();
            self.store_cells(
                Self::stream_offset(frame, w.0),
                w.1 as u32,
                self.stream_write_cells(frame, writes.drop_last(), cells),
            )
        }
    }

    /// A stream of writes changes the bytes of the region and nothing else.
    pub proof fn lemma_stream_write_keeps(self, frame: u32, writes: Seq<StreamWrite>)
        ensures
            self.stream_write(frame, writes).bytes.len() == self.bytes.len(),
            self.stream_write(frame, writes).base_frame == self.base_frame,
            self.stream_write(frame, writes).registered == self.registered,
            self.stream_write(frame, writes).attributes == self.attributes,
        decreases writes.len(),
    {
        if writes.len() == 0 || frame >= self.frame_count() {
        } else {
            self.lemma_stream_write_keeps(frame, writes.drop_last());
        }
    }

    /// The values that the reads of a stream from the frame `frame` give.
    pub open spec fn stream_read(self, frame: u32, reads: Seq<StreamRead>) -> Seq<u32> {
        Seq::new(
            reads.len(),
            |i: int| le_value(self.bytes.subrange(frame * 4096 + reads[i].0, frame * 4096 + reads[i].0 + reads[i].1)),
        )
    }

    /// What a stream into or from the frame `frame` with `n` accesses returns.
    pub open spec fn stream_result(self, frame: u32, n: int) -> MemoryResult<usize> {
        if frame >= self.frame_count() {
            Err(MemoryError::OutOfBoundsAccess { offset: ((frame as int * 4096) % 0x1_0000_0000) as u32 })
        } else {
            Ok(n as usize)
        }
    }

    /// Whether the cell `cell` holds a reservation for `should_be`.
    pub open spec fn holds(cells: Seq<u32>, cell: usize, should_be: u32) -> bool {
        cell < cells.len() && cells[cell as int] == should_be
    }

    /// What a store-conditional of a word at `offset` returns: 0 if the cell
    /// still held the reservation, 1 if not.
    pub open spec fn store_conditional_result(
        self,
        offset: u32,
        cells: Seq<u32>,
        cell: usize,
        should_be: u32,
    ) -> MemoryResult<u32> {
        if offset % 4 != 0 {
            Err(MemoryError::StoreMisaligned { offset, alignment: 4 })
        } else if !self.backs(offset) {
            Err(MemoryError::OutOfBoundsAccess { offset })
        } else if Self::holds(cells, cell, should_be) {
            Ok(0u32)
        } else {
            Ok(1u32)
        }
    }

    /// The region after a store-conditional.
    pub open spec fn store_conditional(
        self,
        offset: u32,
        src: u32,
        cells: Seq<u32>,
        cell: usize,
        should_be: u32,
    ) -> MainView {
        if self.store_conditional_result(offset, cells, cell, should_be) == Ok::<u32, MemoryError>(0u32) {
            self.with_bytes(overwrite(self.bytes, offset as int, le_bytes(src, 4)))
        } else {
            self
        }
    }

    /// The reservation cells after a store-conditional: on success the cell of
    /// the hart and every registered cell that held the same set are cleared.
    pub open spec fn store_conditional_cells(
        self,
        offset: u32,
        cells: Seq<u32>,
        cell: usize,
        should_be: u32,
    ) -> Seq<u32> {
        if self.store_conditional_result(offset, cells, cell, should_be) == Ok::<u32, MemoryError>(0u32) {
            invalidated(
                cells.update(cell as int, NO_RESERVATION),
                self.registered,
                set_range(should_be, should_be),
            )
        } else {
            cells
        }
    }

    /// What an atomic memory operation on the word at `offset` returns: the word that was there.
    pub open spec fn amo_result(self, op: AmoOp, offset: u32) -> MemoryResult<u32> {
        if self.attributes.amo.rank() < op.spec_class().rank() {
            Err(MemoryError::AmoUnsupported { amo: op.spec_class() })
        } else if offset % 4 != 0 {
            Err(MemoryError::AmoMisaligned { offset, amo: op.spec_class() })
        } else if !self.backs(offset) {
            Err(MemoryError::OutOfBoundsAccess { offset })
        } else {
            Ok(le_value(self.bytes.subrange(offset as int, offset + 4)))
        }
    }

    /// The region after an atomic memory operation.
    pub open spec fn amo(self, op: AmoOp, offset: u32, src: u32) -> MainView {
        match self.amo_result(op, offset) {
            Ok(old) => self.with_bytes(
                overwrite(self.bytes, offset as int, le_bytes(op.spec_apply(old, src), 4)),
            ),
            Err(_) => self,
        }
    }

    /// The reservation cells after an atomic memory operation.
    pub open spec fn amo_cells(self, op: AmoOp, offset: u32, cells: Seq<u32>) -> Seq<u32> {
        if self.amo_result(op, offset) is Ok {
            invalidated(cells, self.registered, self.granules(offset as int, 4))
        } else {
            cells
        }
    }
}

/// What is written as a block is read back as a block: after a block write of
/// `src` at `offset` that the region backs, a block read of as many bytes at
/// `offset` gives `src`.
pub proof fn lemma_block_write_read(region: MainView, offset: u32, src: Seq<u8>)
    requires
        offset + src.len() <= region.bytes.len(),
    ensures
        region.block_write(offset, src).block_read(offset, src.len() as int) == Ok::<Seq<u8>, MemoryError>(src),
        region.block_result(offset, src.len() as int, src.len() as int) is Ok,
{
    let after = region.block_write(offset, src);
    if src.len() > 0 {
        assert(after.bytes.subrange(offset as int, offset + src.len()) =~= src);
    } else {
        assert(src =~= Seq::<u8>::empty());
    }
}

/// A masked block write changes the bytes whose bit in the mask is set, and
/// no others: after it, the byte at `offset + i` is `src[i]` where bit `i` is
/// set, and every other byte of the region is what it was.
pub proof fn lemma_block_write_masked(region: MainView, offset: u32, src: Seq<u8>, mask: Seq<u8>)
    requires
        mask.len() * 8 >= src.len(),
        offset + src.len() <= region.bytes.len(),
    ensures
        region.block_write_masked(offset, src, mask).bytes.len() == region.bytes.len(),
        forall|i: int|
            0 <= i < src.len() && mask_bit(mask, i) ==> #[trigger] region.block_write_masked(
                offset,
                src,
                mask,
            ).bytes[offset + i] == src[i],
        forall|k: int|
            0 <= k < region.bytes.len() && !(offset <= k < offset + src.len() && mask_bit(mask, k - offset))
                ==> #[trigger] region.block_write_masked(offset, src, mask).bytes[k] == region.bytes[k],
{
}

/// What is stored is loaded: after a store of `width` bytes that succeeds, a
/// load of the same width at the same offset gives the bytes that were stored.
pub proof fn lemma_store_load(region: MainView, offset: u32, width: u32, val: u32)
    requires
        width == 1 || width == 2 || width == 4,
        region.wf(),
        region.store_result(offset, width) is Ok,
    ensures
        region.store(offset, width, val).load(offset, width) == Ok::<u32, MemoryError>(
            if width == 1 {
                val % 0x100
            } else if width == 2 {
                val % 0x1_0000
            } else {
                val
            },
        ),
{
    lemma_aligned_offset(offset, width);
    lemma_le_round_trip(val, width as int);
    let after = region.store(offset, width, val);
    assert(after.bytes.subrange(offset as int, offset + width) =~= le_bytes(val, width as int));
}

} // verus!
