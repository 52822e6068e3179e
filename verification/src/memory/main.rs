use vstd::prelude::*;
use crate::memory::mapping::Mapping;
use crate::memory::mapping::MemoryError;
use crate::memory::mapping::MemoryResult;
use crate::memory::mapping::Pma;
use crate::memory::mapping::Properties;
use crate::memory::model::le_bytes;
use crate::memory::model::lemma_aligned_in_frame;
use crate::memory::model::lemma_aligned_offset;
use crate::memory::model::le_value;
use crate::memory::model::mask_bit;
use crate::memory::model::mask_count;
use crate::memory::model::overwrite;
use crate::memory::model::overwrite_masked;
use crate::memory::model::stream_reads_ok;
use crate::memory::model::stream_writes_ok;
use crate::memory::model::AmoOp;
use crate::memory::model::MainView;
use crate::memory::model::StreamRead;
use crate::memory::model::StreamWrite;
use crate::memory::model::MAX_FRAME_COUNT;
use crate::memory::reservation::invalidated;
use crate::memory::reservation::lemma_invalidated_twice;
use crate::memory::reservation::set_range;
use crate::memory::reservation::helper_check_reservation;
use crate::memory::reservation::helper_invalidate_reservations;
use crate::memory::reservation::Reservations;
use crate::memory::reservation::NO_RESERVATION;

verus! {

/// A region of memory that supports every operation: frames of 4096 bytes,
/// laid out one after the other, little-endian.
pub struct Main {
    base_frame: u32,
    bytes: Vec<u8>,
    reservations: Vec<usize>,
    attributes: Pma,
}

/// Tells whether bit `i` of the mask is set.
fn mask_selects(mask: &[u8], i: usize) -> (b: bool)
    requires
        i < mask@.len() * 8,
    ensures
        b == mask_bit(mask@, i as int),
{
    let byte: u8 = mask[i / 8];
    let bit: u8 = (i % 8) as u8;
    (byte >> bit) & 1 == 1
}

impl Main {
    #[verifier::type_invariant]
    spec fn whole_frames(&self) -> bool {
        self@.wf()
    }

    /// The region as a value.
    pub closed spec fn view(&self) -> MainView {
        MainView {
            base_frame: self.base_frame,
            bytes: self.bytes@,
            registered: self.reservations@,
            attributes: self.attributes,
        }
    }

    /// A region of `frame_count` frames of zeros that starts at the frame
    /// `base_frame` and has the attributes of main memory.
    pub fn new(base_frame: u32, frame_count: u32) -> (m: Main)
        requires
            frame_count <= MAX_FRAME_COUNT,
        ensures
            m@.base_frame == base_frame,
            m@.bytes == Seq::new((frame_count * 4096) as nat, |i: int| 0u8),
            m@.registered == Seq::<usize>::empty(),
            m@.attributes == Pma::spec_main(),
            m@.wf(),
            m@.frame_count() == frame_count,
    {
        Self::with_attributes(base_frame, frame_count, Pma::main())
    }

    /// A region of `frame_count` frames of zeros that starts at the frame
    /// `base_frame` and has the given attributes.
    pub fn with_attributes(base_frame: u32, frame_count: u32, attributes: Pma) -> (m: Main)
        requires
            frame_count <= MAX_FRAME_COUNT,
        ensures
            m@.base_frame == base_frame,
            m@.bytes == Seq::new((frame_count * 4096) as nat, |i: int| 0u8),
            m@.registered == Seq::<usize>::empty(),
            m@.attributes == attributes,
            m@.wf(),
            m@.frame_count() == frame_count,
    {
        let size: usize = frame_count as usize * 4096;
        let bytes: Vec<u8> = vec![0u8; size];
        assert(bytes@ =~= Seq::new((frame_count * 4096) as nat, |i: int| 0u8));
        Main { base_frame, bytes, reservations: Vec::new(), attributes }
    }

    /// The number of bytes in the region.
    pub fn size(&self) -> (n: usize)
        ensures
            n == self@.bytes.len(),
            self@.wf(),
    {
        proof {
            use_type_invariant(self);
        }
        self.bytes.len()
    }

    /// Checks an access of `width` bytes at `offset`: it must be aligned to
    /// its width and lie in a frame of the region. Gives the frame and the
    /// index in the frame, counted in units of the width.
    pub fn check_offset(&self, offset: u32, width: u32) -> (r: MemoryResult<(usize, usize)>)
        requires
            width == 1 || width == 2 || width == 4,
        ensures
            r == self@.check_offset(offset, width),
            r is Ok ==> offset + width <= self@.bytes.len(),
    {
        proof {
            use_type_invariant(self);
        }
        if offset % width != 0 {
            return Err(MemoryError::StoreMisaligned { offset, alignment: width });
        }
        proof {
            lemma_aligned_offset(offset, width);
        }
        let frame_number: usize = (offset / 4096) as usize;
        let index: usize = ((offset % 4096) / width) as usize;
        let frames: usize = self.bytes.len() / 4096;
        if frame_number >= frames {
            return Err(MemoryError::OutOfBoundsAccess { offset });
        }
        assert(self@.bytes.len() == frames * 4096);
        assert((frame_number + 1) * 4096 <= frames * 4096);
        Ok((frame_number, index))
    }

    /// The reservation set of the byte at `offset`.
    fn granule_at(&self, offset: usize) -> (g: u32)
        requires
            offset < self@.bytes.len(),
        ensures
            g == self@.granule(offset as int),
    {
        proof {
            use_type_invariant(self);
        }
        ((self.base_frame as u64 * 4096 + offset as u64) / 64) as u32
    }

    /// Takes the reservation from every registered cell that holds a set from `first` to `last`.
    pub fn invalidate_reservation_range(&self, cells: &mut Reservations, first: u32, last: u32)
        ensures
            final(cells)@ == invalidated(old(cells)@, self@.registered, set_range(first, last)),
    {
        cells.invalidate_range(&self.reservations, first, last);
    }

    /// Reads the `width` bytes at `at` as a little-endian value.
    fn read_le(&self, at: usize, width: u32) -> (v: u32)
        requires
            width == 1 || width == 2 || width == 4,
            at + width <= self@.bytes.len(),
        ensures
            v == le_value(self@.bytes.subrange(at as int, at + width)),
    {
        let ghost part = self@.bytes.subrange(at as int, at + width);
        let size: usize = self.bytes.len();
        let b0: u32 = self.bytes[at] as u32;
        assert(part[0] == self@.bytes[at as int]);
        if width == 1 {
            b0
        } else if width == 2 {
            let b1: u32 = self.bytes[at + 1] as u32;
            assert(part[1] == self@.bytes[at + 1]);
            b0 + 0x100 * b1
        } else {
            let b1: u32 = self.bytes[at + 1] as u32;
            let b2: u32 = self.bytes[at + 2] as u32;
            let b3: u32 = self.bytes[at + 3] as u32;
            assert(part[1] == self@.bytes[at + 1]);
            assert(part[2] == self@.bytes[at + 2]);
            assert(part[3] == self@.bytes[at + 3]);
            b0 + 0x100 * b1 + 0x1_0000 * b2 + 0x100_0000 * b3
        }
    }

    /// Writes the `width` lowest bytes of `val` at `at`, the lowest first.
    fn write_le(&mut self, at: usize, width: u32, val: u32)
        requires
            width == 1 || width == 2 || width == 4,
            at + width <= old(self)@.bytes.len(),
        ensures
            final(self)@ == old(self)@.with_bytes(overwrite(old(self)@.bytes, at as int, le_bytes(val, width as int))),
    {
        proof {
            use_type_invariant(&*self);
        }
        let ghost before = self@;
        self.bytes[at] = (val % 256) as u8;
        if width >= 2 {
            self.bytes[at + 1] = ((val / 0x100) % 256) as u8;
        }
        if width == 4 {
            self.bytes[at + 2] = ((val / 0x1_0000) % 256) as u8;
            self.bytes[at + 3] = ((val / 0x100_0000) % 256) as u8;
        }
        assert(self@.bytes =~= overwrite(before.bytes, at as int, le_bytes(val, width as int)));
    }

    /// Loads `width` bytes at `offset` as a little-endian value.
    pub fn load(&self, offset: u32, width: u32) -> (r: MemoryResult<u32>)
        requires
            width == 1 || width == 2 || width == 4,
        ensures
            r == self@.load(offset, width),
    {
        match self.check_offset(offset, width) {
            Ok(_) => Ok(self.read_le(offset as usize, width)),
            Err(MemoryError::StoreMisaligned { offset, alignment }) => Err(
                MemoryError::LoadMisaligned { offset, alignment },
            ),
            Err(e) => Err(e),
        }
    }

    /// Stores the `width` lowest bytes of `val` at `offset`, the lowest first,
    /// and takes the reservations for the set that is written.
    pub fn store(&mut self, offset: u32, width: u32, val: u32, cells: &mut Reservations) -> (r: MemoryResult<()>)
        requires
            width == 1 || width == 2 || width == 4,
        ensures
            r == old(self)@.store_result(offset, width),
            final(self)@ == old(self)@.store(offset, width, val),
            final(cells)@ == old(self)@.store_cells(offset, width, old(cells)@),
    {
        proof {
            use_type_invariant(&*self);
        }
        match self.check_offset(offset, width) {
            Ok(_) => {
                let first: u32 = self.granule_at(offset as usize);
                let last: u32 = self.granule_at((offset + (width - 1)) as usize);
                self.write_le(offset as usize, width, val);
                self.invalidate_reservation_range(cells, first, last);
                Ok(())
            },
            Err(e) => Err(e),
        }
    }

    /// Performs the atomic memory operation `op` on the word at `offset` with
    /// the operand `src`, and returns the word that was there.
    pub fn amo(&mut self, op: AmoOp, offset: u32, src: u32, cells: &mut Reservations) -> (r: MemoryResult<u32>)
        ensures
            r == old(self)@.amo_result(op, offset),
            final(self)@ == old(self)@.amo(op, offset, src),
            final(cells)@ == old(self)@.amo_cells(op, offset, old(cells)@),
    {
        proof {
            use_type_invariant(&*self);
        }
        let class = op.class();
        if !self.attributes.amo().supports(class) {
            return Err(MemoryError::AmoUnsupported { amo: class });
        }
        match self.check_offset(offset, 4) {
            Ok(_) => {
                let old_word: u32 = self.read_le(offset as usize, 4);
                let first: u32 = self.granule_at(offset as usize);
                let last: u32 = self.granule_at((offset + 3) as usize);
                self.write_le(offset as usize, 4, op.apply(old_word, src));
                self.invalidate_reservation_range(cells, first, last);
                Ok(old_word)
            },
            Err(MemoryError::StoreMisaligned { offset, alignment }) => Err(
                MemoryError::AmoMisaligned { offset, amo: class },
            ),
            Err(e) => Err(e),
        }
    }

    /// Whether the region backs the `len` bytes from `offset` on.
    fn backs_block(&self, offset: u32, len: usize) -> (b: bool)
        ensures
            b == self@.block_in_bounds(offset, len as int),
            b && len > 0 ==> offset + len <= self@.bytes.len() <= usize::MAX,
    {
        let size: usize = self.bytes.len();
        len == 0 || (len <= size && offset as usize <= size - len)
    }

    /// Fills `dst` with the bytes from `offset` on, or fails and leaves it as it is.
    fn block_read_bytes(&self, offset: u32, dst: &mut [u8]) -> (r: MemoryResult<usize>)
        ensures
            r == self@.block_result(offset, old(dst)@.len() as int, old(dst)@.len() as int),
            final(dst)@ == (match self@.block_read(offset, old(dst)@.len() as int) {
                Ok(bytes) => bytes,
                Err(_) => old(dst)@,
            }),
    {
        let len: usize = dst.len();
        if !self.backs_block(offset, len) {
            return Err(MemoryError::OutOfBoundsAccess { offset });
        }
        let start: usize = offset as usize;
        let mut i: usize = 0;
        while i < len
            invariant
                i <= len,
                len == dst@.len(),
                start == offset,
                len > 0 ==> start + len <= self@.bytes.len() <= usize::MAX,
                forall|k: int| 0 <= k < i ==> dst@[k] == self@.bytes[start + k],
            decreases len - i,
        {
            dst[i] = self.bytes[start + i];
            i = i + 1;
        }
        if len > 0 {
            assert(dst@ =~= self@.bytes.subrange(offset as int, offset + len));
        } else {
            assert(dst@ =~= Seq::<u8>::empty());
        }
        Ok(len)
    }

    /// Fills those bytes of `dst` whose bit in the mask is set.
    fn block_read_bytes_masked(&self, offset: u32, dst: &mut [u8], mask: &[u8]) -> (r: MemoryResult<usize>)
        requires
            mask@.len() * 8 >= old(dst)@.len(),
        ensures
            r == self@.block_result(offset, old(dst)@.len() as int, mask_count(mask@, old(dst)@.len() as int)),
            final(dst)@ == self@.block_read_masked(offset, old(dst)@, mask@),
    {
        let len: usize = dst.len();
        if !self.backs_block(offset, len) {
            return Err(MemoryError::OutOfBoundsAccess { offset });
        }
        let ghost before = dst@;
        let start: usize = offset as usize;
        let mut i: usize = 0;
        let mut moved: usize = 0;
        while i < len
            invariant
                i <= len,
                len == dst@.len(),
                len == before.len(),
                mask@.len() * 8 >= len,
                start == offset,
                len > 0 ==> start + len <= self@.bytes.len() <= usize::MAX,
                moved == mask_count(mask@, i as int),
                moved <= i,
                forall|k: int|
                    0 <= k < len ==> #[trigger] dst@[k] == (if k < i && mask_bit(mask@, k) {
                        self@.bytes[start + k]
                    } else {
                        before[k]
                    }),
            decreases len - i,
        {
            if mask_selects(mask, i) {
                dst[i] = self.bytes[start + i];
                moved = moved + 1;
            }
            i = i + 1;
        }
        assert(dst@ =~= self@.block_read_masked(offset, before, mask@));
        Ok(moved)
    }

    /// Writes `src` from `offset` on and takes the reservations for the sets
    /// that are written, or fails and changes nothing.
    fn block_write_bytes(&mut self, offset: u32, src: &[u8], cells: &mut Reservations) -> (r: MemoryResult<usize>)
        ensures
            r == old(self)@.block_result(offset, src@.len() as int, src@.len() as int),
            final(self)@ == old(self)@.block_write(offset, src@),
            final(cells)@ == old(self)@.block_write_cells(offset, src@.len() as int, old(cells)@),
    {
        proof {
            use_type_invariant(&*self);
        }
        let len: usize = src.len();
        if !self.backs_block(offset, len) {
            return Err(MemoryError::OutOfBoundsAccess { offset });
        }
        let ghost before = self@;
        if len == 0 {
            assert(self@.bytes =~= overwrite(before.bytes, offset as int, src@));
            assert(cells@ =~= invalidated(cells@, before.registered, Set::<u32>::empty()));
            return Ok(0);
        }
        let start: usize = offset as usize;
        let mut i: usize = 0;
        while i < len
            invariant
                i <= len,
                len == src@.len(),
                start == offset,
                start + len <= before.bytes.len() <= usize::MAX,
                self@.bytes.len() == before.bytes.len(),
                self@ == before.with_bytes(self@.bytes),
                before.wf(),
                forall|k: int|
                    0 <= k < before.bytes.len() ==> self@.bytes[k] == (if start <= k < start + i {
                        src@[k - start]
                    } else {
                        before.bytes[k]
                    }),
            decreases len - i,
        {
            self.bytes[start + i] = src[i];
            i = i + 1;
        }
        assert(self@.bytes =~= overwrite(before.bytes, offset as int, src@));
        let first: u32 = self.granule_at(start);
        let last: u32 = self.granule_at(start + (len - 1));
        self.invalidate_reservation_range(cells, first, last);
        Ok(len)
    }

    /// Writes those bytes of `src` whose bit in the mask is set, from `offset`
    /// on, and takes the reservations for the sets that are written, or fails
    /// and changes nothing.
    fn block_write_bytes_masked(
        &mut self,
        offset: u32,
        src: &[u8],
        mask: &[u8],
        cells: &mut Reservations,
    ) -> (r: MemoryResult<usize>)
        requires
            mask@.len() * 8 >= src@.len(),
        ensures
            r == old(self)@.block_result(offset, src@.len() as int, mask_count(mask@, src@.len() as int)),
            final(self)@ == old(self)@.block_write_masked(offset, src@, mask@),
            final(cells)@ == old(self)@.block_write_masked_cells(offset, src@.len() as int, mask@, old(cells)@),
    {
        proof {
            use_type_invariant(&*self);
        }
        let len: usize = src.len();
        if !self.backs_block(offset, len) {
            return Err(MemoryError::OutOfBoundsAccess { offset });
        }
        let ghost before = self@;
        let ghost cells_before = cells@;
        let start: usize = offset as usize;
        let mut i: usize = 0;
        let mut written: usize = 0;
        assert(before.granules_masked(offset as int, 0, mask@) =~= Set::<u32>::empty());
        assert(cells@ =~= invalidated(cells@, before.registered, Set::<u32>::empty()));
        while i < len
            invariant
                i <= len,
                len == src@.len(),
                mask@.len() * 8 >= len,
                start == offset,
                len > 0 ==> start + len <= before.bytes.len() <= usize::MAX,
                self@.bytes.len() == before.bytes.len(),
                self@ == before.with_bytes(self@.bytes),
                before.wf(),
                written == mask_count(mask@, i as int),
                written <= i,
                forall|k: int|
                    0 <= k < before.bytes.len() ==> self@.bytes[k] == (if start <= k < start + i && mask_bit(
                        mask@,
                        k - start,
                    ) {
                        src@[k - start]
                    } else {
                        before.bytes[k]
                    }),
                cells@ == invalidated(
                    cells_before,
                    before.registered,
                    before.granules_masked(offset as int, i as int, mask@),
                ),
            decreases len - i,
        {
            let ghost done = before.granules_masked(offset as int, i as int, mask@);
            let ghost next = before.granules_masked(offset as int, i + 1, mask@);
            if mask_selects(mask, i) {
                let g: u32 = self.granule_at(start + i);
                self.bytes[start + i] = src[i];
                written = written + 1;
                self.invalidate_reservation_range(cells, g, g);
                proof {
                    lemma_invalidated_twice(cells_before, before.registered, done, set_range(g, g));
                    assert(next =~= done.union(set_range(g, g))) by {
                        assert forall|x: u32| next.contains(x) implies done.union(set_range(g, g)).contains(x) by {
                            let j = choose|j: int|
                                0 <= j < i + 1 && mask_bit(mask@, j) && x == before.granule(offset + j);
                            if j < i {
                                assert(done.contains(x));
                            }
                        }
                        assert forall|x: u32| done.union(set_range(g, g)).contains(x) implies next.contains(x) by {
                            if done.contains(x) {
                                let j = choose|j: int|
                                    0 <= j < i && mask_bit(mask@, j) && x == before.granule(offset + j);
                                assert(0 <= j < i + 1 && mask_bit(mask@, j) && x == before.granule(offset + j));
                            } else {
                                assert(mask_bit(mask@, i as int) && x == before.granule(offset + i));
                            }
                        }
                    }
                }
            } else {
                proof {
                    assert(next =~= done) by {
                        assert forall|x: u32| next.contains(x) implies done.contains(x) by {
                            let j = choose|j: int|
                                0 <= j < i + 1 && mask_bit(mask@, j) && x == before.granule(offset + j);
                            assert(j < i);
                        }
                        assert forall|x: u32| done.contains(x) implies next.contains(x) by {
                            let j = choose|j: int|
                                0 <= j < i && mask_bit(mask@, j) && x == before.granule(offset + j);
                            assert(0 <= j < i + 1 && mask_bit(mask@, j) && x == before.granule(offset + j));
                        }
                    }
                }
            }
            i = i + 1;
        }
        assert(self@.bytes =~= overwrite_masked(before.bytes, offset as int, src@, mask@));
        Ok(written)
    }

    /// Performs the writes of a stream into one frame, in their order.
    fn stream_write_frame(&mut self, frame: u32, writes: &[StreamWrite], cells: &mut Reservations) -> (r:
        MemoryResult<usize>)
        requires
            stream_writes_ok(writes@),
        ensures
            r == old(self)@.stream_result(frame, writes@.len() as int),
            final(self)@ == old(self)@.stream_write(frame, writes@),
            final(cells)@ == old(self)@.stream_write_cells(frame, writes@, old(cells)@),
    {
        proof {
            use_type_invariant(&*self);
        }
        if frame as usize >= self.bytes.len() / 4096 {
            return Err(MemoryError::OutOfBoundsAccess { offset: frame.wrapping_mul(4096) });
        }
        let ghost before = self@;
        let ghost cells_before = cells@;
        let base: u32 = frame * 4096;
        let mut i: usize = 0;
        while i < writes.len()
            invariant
                i <= writes@.len(),
                stream_writes_ok(writes@),
                base == frame * 4096,
                frame < before.frame_count(),
                before.wf(),
                self@.bytes.len() == before.bytes.len(),
                self@ == before.stream_write(frame, writes@.subrange(0, i as int)),
                cells@ == before.stream_write_cells(frame, writes@.subrange(0, i as int), cells_before),
            decreases writes.len() - i,
        {
            let (offset, width, value) = writes[i];
            let ghost done = writes@.subrange(0, i as int);
            let ghost next = writes@.subrange(0, i + 1);
            assert(next.drop_last() == done);
            assert(next.last() == writes@[i as int]);
            assert(stream_access_ok_at(writes@, i as int));
            let ghost mid = self@;
            proof {
                before.lemma_stream_write_keeps(frame, done);
                lemma_aligned_in_frame(base, offset as u32, width as u32);
            }
            let stored = self.store(base + offset as u32, width as u32, value, cells);
            assert(stored is Ok);
            i = i + 1;
        }
        assert(writes@.subrange(0, i as int) == writes@);
        Ok(i)
    }

    /// Performs the reads of a stream from one frame, one value of `dst` for each.
    fn stream_read_frame(&self, frame: u32, reads: &[StreamRead], dst: &mut [u32]) -> (r: MemoryResult<usize>)
        requires
            stream_reads_ok(reads@),
            reads@.len() == old(dst)@.len(),
        ensures
            r == self@.stream_result(frame, reads@.len() as int),
            final(dst)@ == (if r is Ok {
                self@.stream_read(frame, reads@)
            } else {
                old(dst)@
            }),
    {
        proof {
            use_type_invariant(self);
        }
        if frame as usize >= self.bytes.len() / 4096 {
            return Err(MemoryError::OutOfBoundsAccess { offset: frame.wrapping_mul(4096) });
        }
        let base: usize = frame as usize * 4096;
        let mut i: usize = 0;
        while i < reads.len()
            invariant
                i <= reads@.len(),
                reads@.len() == dst@.len(),
                stream_reads_ok(reads@),
                base == frame * 4096,
                frame < self@.frame_count(),
                self@.wf(),
                forall|k: int|
                    0 <= k < i ==> dst@[k] == le_value(
                        self@.bytes.subrange(
                            frame * 4096 + reads@[k].0,
                            frame * 4096 + reads@[k].0 + reads@[k].1,
                        ),
                    ),
            decreases reads.len() - i,
        {
            let (offset, width) = reads[i];
            assert(stream_read_ok_at(reads@, i as int));
            proof {
                lemma_aligned_in_frame((frame * 4096) as u32, offset as u32, width as u32);
            }
            assert(frame * 4096 + 4096 <= self@.bytes.len());
            dst[i] = self.read_le(base + offset as usize, width as u32);
            i = i + 1;
        }
        assert(dst@ =~= self@.stream_read(frame, reads@));
        Ok(i)
    }

    /// Stores `src` at `offset` if the cell `reservation` still holds
    /// `should_be`; then the cell and every registered cell that holds the same
    /// set lose their reservation. Returns 0 if it stored and 1 if not.
    fn store_word_conditional(
        &mut self,
        offset: u32,
        src: u32,
        cells: &mut Reservations,
        reservation: usize,
        should_be: u32,
    ) -> (r: MemoryResult<u32>)
        ensures
            r == old(self)@.store_conditional_result(offset, old(cells)@, reservation, should_be),
            final(self)@ == old(self)@.store_conditional(offset, src, old(cells)@, reservation, should_be),
            final(cells)@ == old(self)@.store_conditional_cells(offset, old(cells)@, reservation, should_be),
    {
        match self.check_offset(offset, 4) {
            Ok(_) => {
                let failed: u32 = helper_check_reservation(cells, reservation, should_be);
                if failed == 0 {
                    self.write_le(offset as usize, 4, src);
                    helper_invalidate_reservations(cells, &self.reservations, should_be);
                }
                Ok(failed)
            },
            Err(e) => Err(e),
        }
    }
}

impl Mapping for Main {
    /// A region of this kind is always in order.
    open spec fn wf(&self) -> bool {
        true
    }

    /// Writes `src` from `offset` on, across frames, and takes the
    /// reservations for the sets that are written. It fails, and changes
    /// nothing, if the region does not back the last byte.
    fn block_write(&mut self, offset: u32, src: &[u8], cells: &mut Reservations) -> (r: MemoryResult<usize>)
        ensures
            r == old(self)@.block_result(offset, src@.len() as int, src@.len() as int),
            final(self)@ == old(self)@.block_write(offset, src@),
            final(cells)@ == old(self)@.block_write_cells(offset, src@.len() as int, old(cells)@),
    {
        let r = self.block_write_bytes(offset, src, cells);
        assert(self.wf());
        r
    }

    /// Writes those bytes of `src` whose bit in the mask is set, and returns their number.
    fn block_write_masked(&mut self, offset: u32, src: &[u8], mask: &[u8], cells: &mut Reservations) -> (r:
        MemoryResult<usize>)
        ensures
            r == old(self)@.block_result(offset, src@.len() as int, mask_count(mask@, src@.len() as int)),
            final(self)@ == old(self)@.block_write_masked(offset, src@, mask@),
            final(cells)@ == old(self)@.block_write_masked_cells(offset, src@.len() as int, mask@, old(cells)@),
    {
        let r = self.block_write_bytes_masked(offset, src, mask, cells);
        assert(self.wf());
        r
    }

    /// Fills `dst` with the bytes from `offset` on, across frames. It fails,
    /// and leaves `dst` as it is, if the region does not back the last byte.
    fn block_read(&self, offset: u32, dst: &mut [u8]) -> (r: MemoryResult<usize>)
        ensures
            r == self@.block_result(offset, old(dst)@.len() as int, old(dst)@.len() as int),
            final(dst)@ == (match self@.block_read(offset, old(dst)@.len() as int) {
                Ok(bytes) => bytes,
                Err(_) => old(dst)@,
            }),
    {
        self.block_read_bytes(offset, dst)
    }

    /// Fills those bytes of `dst` whose bit in the mask is set, and returns their number.
    fn block_read_masked(&self, offset: u32, dst: &mut [u8], mask: &[u8]) -> (r: MemoryResult<usize>)
        ensures
            r == self@.block_result(offset, old(dst)@.len() as int, mask_count(mask@, old(dst)@.len() as int)),
            final(dst)@ == self@.block_read_masked(offset, old(dst)@, mask@),
    {
        self.block_read_bytes_masked(offset, dst, mask)
    }

    fn stream_write(&mut self, frame: u32, writes: &[StreamWrite], cells: &mut Reservations) -> (r: MemoryResult<
        usize,
    >)
        ensures
            r == old(self)@.stream_result(frame, writes@.len() as int),
            final(self)@ == old(self)@.stream_write(frame, writes@),
            final(cells)@ == old(self)@.stream_write_cells(frame, writes@, old(cells)@),
    {
        let r = self.stream_write_frame(frame, writes, cells);
        assert(self.wf());
        r
    }

    fn stream_read(&self, frame: u32, reads: &[StreamRead], dst: &mut [u32]) -> (r: MemoryResult<usize>)
        ensures
            r == self@.stream_result(frame, reads@.len() as int),
            final(dst)@ == (if r is Ok {
                self@.stream_read(frame, reads@)
            } else {
                old(dst)@
            }),
    {
        self.stream_read_frame(frame, reads, dst)
    }

    fn store_byte(&mut self, offset: u32, byte: u8, cells: &mut Reservations) -> (r: MemoryResult<()>)
        ensures
            r == old(self)@.store_result(offset, 1),
            final(self)@ == old(self)@.store(offset, 1, byte as u32),
            final(cells)@ == old(self)@.store_cells(offset, 1, old(cells)@),
    {
        let r = self.store(offset, 1, byte as u32, cells);
        assert(self.wf());
        r
    }

    fn store_half_word(&mut self, offset: u32, half_word: u16, cells: &mut Reservations) -> (r: MemoryResult<()>)
        ensures
            r == old(self)@.store_result(offset, 2),
            final(self)@ == old(self)@.store(offset, 2, half_word as u32),
            final(cells)@ == old(self)@.store_cells(offset, 2, old(cells)@),
    {
        let r = self.store(offset, 2, half_word as u32, cells);
        assert(self.wf());
        r
    }

    fn store_word(&mut self, offset: u32, word: u32, cells: &mut Reservations) -> (r: MemoryResult<()>)
        ensures
            r == old(self)@.store_result(offset, 4),
            final(self)@ == old(self)@.store(offset, 4, word),
            final(cells)@ == old(self)@.store_cells(offset, 4, old(cells)@),
    {
        let r = self.store(offset, 4, word, cells);
        assert(self.wf());
        r
    }

    fn load_byte(&self, offset: u32) -> (r: MemoryResult<u8>)
        ensures
            r == (match self@.load(offset, 1) {
                Ok(v) => Ok::<u8, MemoryError>(v as u8),
                Err(e) => Err(e),
            }),
            r matches Ok(v) ==> self@.load(offset, 1) == Ok::<u32, MemoryError>(v as u32),
    {
        match self.load(offset, 1) {
            Ok(v) => Ok(v as u8),
            Err(e) => Err(e),
        }
    }

    fn load_half_word(&self, offset: u32) -> (r: MemoryResult<u16>)
        ensures
            r == (match self@.load(offset, 2) {
                Ok(v) => Ok::<u16, MemoryError>(v as u16),
                Err(e) => Err(e),
            }),
            r matches Ok(v) ==> self@.load(offset, 2) == Ok::<u32, MemoryError>(v as u32),
    {
        match self.load(offset, 2) {
            Ok(v) => Ok(v as u16),
            Err(e) => Err(e),
        }
    }

    fn load_word(&self, offset: u32) -> (r: MemoryResult<u32>)
        ensures
            r == self@.load(offset, 4),
    {
        self.load(offset, 4)
    }

    fn store_conditional(
        &mut self,
        offset: u32,
        src: u32,
        cells: &mut Reservations,
        reservation: usize,
        should_be: u32,
    ) -> (r: MemoryResult<u32>)
        ensures
            r == old(self)@.store_conditional_result(offset, old(cells)@, reservation, should_be),
            final(self)@ == old(self)@.store_conditional(offset, src, old(cells)@, reservation, should_be),
            final(cells)@ == old(self)@.store_conditional_cells(offset, old(cells)@, reservation, should_be),
    {
        let r = self.store_word_conditional(offset, src, cells, reservation, should_be);
        assert(self.wf());
        r
    }

    fn amoswap_w(&mut self, offset: u32, src: u32, cells: &mut Reservations) -> (r: MemoryResult<u32>)
        ensures
            r == old(self)@.amo_result(AmoOp::Swap, offset),
            final(self)@ == old(self)@.amo(AmoOp::Swap, offset, src),
            final(cells)@ == old(self)@.amo_cells(AmoOp::Swap, offset, old(cells)@),
    {
        let r = self.amo(AmoOp::Swap, offset, src, cells);
        assert(self.wf());
        r
    }

    fn amoadd_w(&mut self, offset: u32, src: u32, cells: &mut Reservations) -> (r: MemoryResult<u32>)
        ensures
            r == old(self)@.amo_result(AmoOp::Add, offset),
            final(self)@ == old(self)@.amo(AmoOp::Add, offset, src),
            final(cells)@ == old(self)@.amo_cells(AmoOp::Add, offset, old(cells)@),
    {
        let r = self.amo(AmoOp::Add, offset, src, cells);
        assert(self.wf());
        r
    }

    fn amoand_w(&mut self, offset: u32, src: u32, cells: &mut Reservations) -> (r: MemoryResult<u32>)
        ensures
            r == old(self)@.amo_result(AmoOp::And, offset),
            final(self)@ == old(self)@.amo(AmoOp::And, offset, src),
            final(cells)@ == old(self)@.amo_cells(AmoOp::And, offset, old(cells)@),
    {
        let r = self.amo(AmoOp::And, offset, src, cells);
        assert(self.wf());
        r
    }

    fn amoor_w(&mut self, offset: u32, src: u32, cells: &mut Reservations) -> (r: MemoryResult<u32>)
        ensures
            r == old(self)@.amo_result(AmoOp::Or, offset),
            final(self)@ == old(self)@.amo(AmoOp::Or, offset, src),
            final(cells)@ == old(self)@.amo_cells(AmoOp::Or, offset, old(cells)@),
    {
        let r = self.amo(AmoOp::Or, offset, src, cells);
        assert(self.wf());
        r
    }

    fn amoxor_w(&mut self, offset: u32, src: u32, cells: &mut Reservations) -> (r: MemoryResult<u32>)
        ensures
            r == old(self)@.amo_result(AmoOp::Xor, offset),
            final(self)@ == old(self)@.amo(AmoOp::Xor, offset, src),
            final(cells)@ == old(self)@.amo_cells(AmoOp::Xor, offset, old(cells)@),
    {
        let r = self.amo(AmoOp::Xor, offset, src, cells);
        assert(self.wf());
        r
    }

    fn amomax_w(&mut self, offset: u32, src: u32, cells: &mut Reservations) -> (r: MemoryResult<u32>)
        ensures
            r == old(self)@.amo_result(AmoOp::Max, offset),
            final(self)@ == old(self)@.amo(AmoOp::Max, offset, src),
            final(cells)@ == old(self)@.amo_cells(AmoOp::Max, offset, old(cells)@),
    {
        let r = self.amo(AmoOp::Max, offset, src, cells);
        assert(self.wf());
        r
    }

    fn amomaxu_w(&mut self, offset: u32, src: u32, cells: &mut Reservations) -> (r: MemoryResult<u32>)
        ensures
            r == old(self)@.amo_result(AmoOp::Maxu, offset),
            final(self)@ == old(self)@.amo(AmoOp::Maxu, offset, src),
            final(cells)@ == old(self)@.amo_cells(AmoOp::Maxu, offset, old(cells)@),
    {
        let r = self.amo(AmoOp::Maxu, offset, src, cells);
        assert(self.wf());
        r
    }

    fn amomin_w(&mut self, offset: u32, src: u32, cells: &mut Reservations) -> (r: MemoryResult<u32>)
        ensures
            r == old(self)@.amo_result(AmoOp::Min, offset),
            final(self)@ == old(self)@.amo(AmoOp::Min, offset, src),
            final(cells)@ == old(self)@.amo_cells(AmoOp::Min, offset, old(cells)@),
    {
        let r = self.amo(AmoOp::Min, offset, src, cells);
        assert(self.wf());
        r
    }

    fn amominu_w(&mut self, offset: u32, src: u32, cells: &mut Reservations) -> (r: MemoryResult<u32>)
        ensures
            r == old(self)@.amo_result(AmoOp::Minu, offset),
            final(self)@ == old(self)@.amo(AmoOp::Minu, offset, src),
            final(cells)@ == old(self)@.amo_cells(AmoOp::Minu, offset, old(cells)@),
    {
        let r = self.amo(AmoOp::Minu, offset, src, cells);
        assert(self.wf());
        r
    }

    fn attributes(&self) -> (pma: Pma)
        ensures
            pma == self@.attributes,
    {
        self.attributes
    }

    fn properties(&self) -> (p: Properties)
        ensures
            p.spec_base_frame() == self@.base_frame,
            p.spec_frame_count() == self@.frame_count(),
    {
        proof {
            use_type_invariant(self);
        }
        Properties::new(self.base_frame, (self.bytes.len() / 4096) as u32)
    }

    /// Registers a reservation cell with the region. A cell that is
    /// registered twice is in the list twice, which changes nothing else.
    fn register_reservation_set(&mut self, reservation: usize)
        ensures
            final(self)@ == (MainView {
                registered: old(self)@.registered.push(reservation),
                ..old(self)@
            }),
    {
        proof {
            use_type_invariant(&*self);
        }
        let mut registered: Vec<usize> = Vec::new();
        let mut i: usize = 0;
        while i < self.reservations.len()
            invariant
                i <= self.reservations@.len(),
                registered@ == self.reservations@.subrange(0, i as int),
            decreases self.reservations.len() - i,
        {
            registered.push(self.reservations[i]);
            assert(self.reservations@.subrange(0, i + 1) == self.reservations@.subrange(0, i as int).push(
                self.reservations@[i as int],
            ));
            i = i + 1;
        }
        assert(self.reservations@.subrange(0, i as int) == self.reservations@);
        registered.push(reservation);
        self.reservations = registered;
    }
}

/// The access that the write `i` of a stream makes is in order.
pub open spec fn stream_access_ok_at(writes: Seq<StreamWrite>, i: int) -> bool {
    crate::memory::model::stream_access_ok(writes[i].0, writes[i].1)
}

/// The access that the read `i` of a stream makes is in order.
pub open spec fn stream_read_ok_at(reads: Seq<StreamRead>, i: int) -> bool {
    crate::memory::model::stream_access_ok(reads[i].0, reads[i].1)
}

} // verus!
