use vstd::prelude::*;
use crate::memory::main::Main;
use crate::memory::mapping::Mapping;
use crate::memory::mapping::MemoryError;
use crate::memory::mapping::MemoryResult;
use crate::memory::mapping::Pma;
use crate::memory::mapping::Properties;
use crate::memory::model::mask_count;
use crate::memory::model::AmoOp;
use crate::memory::model::MainView;
use crate::memory::model::StreamRead;
use crate::memory::model::StreamWrite;
use crate::memory::model::MAX_FRAME_COUNT;
use crate::memory::reservation::Reservations;

verus! {

/// Main memory at address 0: a region of frames that starts at frame 0.
pub struct MainMemory {
    inner: Main,
}

impl MainMemory {
    /// The region as a value.
    pub closed spec fn view(&self) -> MainView {
        self.inner@
    }

    /// A main memory of `pages` frames of zeros.
    pub fn new(pages: usize) -> (m: MainMemory)
        requires
            pages <= MAX_FRAME_COUNT,
        ensures
            m@.base_frame == 0,
            m@.bytes == Seq::new((pages * 4096) as nat, |i: int| 0u8),
            m@.registered == Seq::<usize>::empty(),
            m@.attributes == Pma::spec_main(),
            m@.wf(),
    {
        MainMemory { inner: Main::new(0, pages as u32) }
    }
}

impl Mapping for MainMemory {
    /// A region of this kind is always in order.
    open spec fn wf(&self) -> bool {
        true
    }

    /// Writes `src` from `offset` on, across frames, and takes the
    /// reservations for the sets that are written. It fails, and changes
    /// nothing, if the region does not back the last byte.
    fn block_write(&mut self, offset: u32, src: &[u8], cells: &mut Reservations) -> (r: MemoryResult<usize>)
        ensures
            r == old(self)@.block_result(offset, src@.len() as int, src@.len() as int),
            final(self)@ == old(self)@.block_write(offset, src@),
            final(cells)@ == old(self)@.block_write_cells(offset, src@.len() as int, old(cells)@),
    {
        let r = self.inner.block_write(offset, src, cells);
        assert(self.wf());
        r
    }

    /// Writes those bytes of `src` whose bit in the mask is set, and returns their number.
    fn block_write_masked(&mut self, offset: u32, src: &[u8], mask: &[u8], cells: &mut Reservations) -> (r:
        MemoryResult<usize>)
        ensures
            r == old(self)@.block_result(offset, src@.len() as int, mask_count(mask@, src@.len() as int)),
            final(self)@ == old(self)@.block_write_masked(offset, src@, mask@),
            final(cells)@ == old(self)@.block_write_masked_cells(offset, src@.len() as int, mask@, old(cells)@),
    {
        let r = self.inner.block_write_masked(offset, src, mask, cells);
        assert(self.wf());
        r
    }

    /// Fills `dst` with the bytes from `offset` on, across frames. It fails,
    /// and leaves `dst` as it is, if the region does not back the last byte.
    fn block_read(&self, offset: u32, dst: &mut [u8]) -> (r: MemoryResult<usize>)
        ensures
            r == self@.block_result(offset, old(dst)@.len() as int, old(dst)@.len() as int),
            final(dst)@ == (match self@.block_read(offset, old(dst)@.len() as int) {
                Ok(bytes) => bytes,
                Err(_) => old(dst)@,
            }),
    {
        self.inner.block_read(offset, dst)
    }

    /// Fills those bytes of `dst` whose bit in the mask is set, and returns their number.
    fn block_read_masked(&self, offset: u32, dst: &mut [u8], mask: &[u8]) -> (r: MemoryResult<usize>)
        ensures
            r == self@.block_result(offset, old(dst)@.len() as int, mask_count(mask@, old(dst)@.len() as int)),
            final(dst)@ == self@.block_read_masked(offset, old(dst)@, mask@),
    {
        self.inner.block_read_masked(offset, dst, mask)
    }

    fn stream_write(&mut self, frame: u32, writes: &[StreamWrite], cells: &mut Reservations) -> (r: MemoryResult<
        usize,
    >)
        ensures
            r == old(self)@.stream_result(frame, writes@.len() as int),
            final(self)@ == old(self)@.stream_write(frame, writes@),
            final(cells)@ == old(self)@.stream_write_cells(frame, writes@, old(cells)@),
    {
        let r = self.inner.stream_write(frame, writes, cells);
        assert(self.wf());
        r
    }

    fn stream_read(&self, frame: u32, reads: &[StreamRead], dst: &mut [u32]) -> (r: MemoryResult<usize>)
        ensures
            r == self@.stream_result(frame, reads@.len() as int),
            final(dst)@ == (if r is Ok {
                self@.stream_read(frame, reads@)
            } else {
                old(dst)@
            }),
    {
        self.inner.stream_read(frame, reads, dst)
    }

    fn store_byte(&mut self, offset: u32, byte: u8, cells: &mut Reservations) -> (r: MemoryResult<()>)
        ensures
            r == old(self)@.store_result(offset, 1),
            final(self)@ == old(self)@.store(offset, 1, byte as u32),
            final(cells)@ == old(self)@.store_cells(offset, 1, old(cells)@),
    {
        let r = self.inner.store_byte(offset, byte, cells);
        assert(self.wf());
        r
    }

    fn store_half_word(&mut self, offset: u32, half_word: u16, cells: &mut Reservations) -> (r: MemoryResult<()>)
        ensures
            r == old(self)@.store_result(offset, 2),
            final(self)@ == old(self)@.store(offset, 2, half_word as u32),
            final(cells)@ == old(self)@.store_cells(offset, 2, old(cells)@),
    {
        let r = self.inner.store_half_word(offset, half_word, cells);
        assert(self.wf());
        r
    }

    fn store_word(&mut self, offset: u32, word: u32, cells: &mut Reservations) -> (r: MemoryResult<()>)
        ensures
            r == old(self)@.store_result(offset, 4),
            final(self)@ == old(self)@.store(offset, 4, word),
            final(cells)@ == old(self)@.store_cells(offset, 4, old(cells)@),
    {
        let r = self.inner.store_word(offset, word, cells);
        assert(self.wf());
        r
    }

    fn load_byte(&self, offset: u32) -> (r: MemoryResult<u8>)
        ensures
            r == (match self@.load(offset, 1) {
                Ok(v) => Ok::<u8, MemoryError>(v as u8),
                Err(e) => Err(e),
            }),
            r matches Ok(v) ==> self@.load(offset, 1) == Ok::<u32, MemoryError>(v as u32),
    {
        self.inner.load_byte(offset)
    }

    fn load_half_word(&self, offset: u32) -> (r: MemoryResult<u16>)
        ensures
            r == (match self@.load(offset, 2) {
                Ok(v) => Ok::<u16, MemoryError>(v as u16),
                Err(e) => Err(e),
            }),
            r matches Ok(v) ==> self@.load(offset, 2) == Ok::<u32, MemoryError>(v as u32),
    {
        self.inner.load_half_word(offset)
    }

    fn load_word(&self, offset: u32) -> (r: MemoryResult<u32>)
        ensures
            r == self@.load(offset, 4),
    {
        self.inner.load_word(offset)
    }

    fn store_conditional(
        &mut self,
        offset: u32,
        src: u32,
        cells: &mut Reservations,
        reservation: usize,
        should_be: u32,
    ) -> (r: MemoryResult<u32>)
        ensures
            r == old(self)@.store_conditional_result(offset, old(cells)@, reservation, should_be),
            final(self)@ == old(self)@.store_conditional(offset, src, old(cells)@, reservation, should_be),
            final(cells)@ == old(self)@.store_conditional_cells(offset, old(cells)@, reservation, should_be),
    {
        let r = self.inner.store_conditional(offset, src, cells, reservation, should_be);
        assert(self.wf());
        r
    }

    fn amoswap_w(&mut self, offset: u32, src: u32, cells: &mut Reservations) -> (r: MemoryResult<u32>)
        ensures
            r == old(self)@.amo_result(AmoOp::Swap, offset),
            final(self)@ == old(self)@.amo(AmoOp::Swap, offset, src),
            final(cells)@ == old(self)@.amo_cells(AmoOp::Swap, offset, old(cells)@),
    {
        let r = self.inner.amoswap_w(offset, src, cells);
        assert(self.wf());
        r
    }

    fn amoadd_w(&mut self, offset: u32, src: u32, cells: &mut Reservations) -> (r: MemoryResult<u32>)
        ensures
            r == old(self)@.amo_result(AmoOp::Add, offset),
            final(self)@ == old(self)@.amo(AmoOp::Add, offset, src),
            final(cells)@ == old(self)@.amo_cells(AmoOp::Add, offset, old(cells)@),
    {
        let r = self.inner.amoadd_w(offset, src, cells);
        assert(self.wf());
        r
    }

    fn amoand_w(&mut self, offset: u32, src: u32, cells: &mut Reservations) -> (r: MemoryResult<u32>)
        ensures
            r == old(self)@.amo_result(AmoOp::And, offset),
            final(self)@ == old(self)@.amo(AmoOp::And, offset, src),
            final(cells)@ == old(self)@.amo_cells(AmoOp::And, offset, old(cells)@),
    {
        let r = self.inner.amoand_w(offset, src, cells);
        assert(self.wf());
        r
    }

    fn amoor_w(&mut self, offset: u32, src: u32, cells: &mut Reservations) -> (r: MemoryResult<u32>)
        ensures
            r == old(self)@.amo_result(AmoOp::Or, offset),
            final(self)@ == old(self)@.amo(AmoOp::Or, offset, src),
            final(cells)@ == old(self)@.amo_cells(AmoOp::Or, offset, old(cells)@),
    {
        let r = self.inner.amoor_w(offset, src, cells);
        assert(self.wf());
        r
    }

    fn amoxor_w(&mut self, offset: u32, src: u32, cells: &mut Reservations) -> (r: MemoryResult<u32>)
        ensures
            r == old(self)@.amo_result(AmoOp::Xor, offset),
            final(self)@ == old(self)@.amo(AmoOp::Xor, offset, src),
            final(cells)@ == old(self)@.amo_cells(AmoOp::Xor, offset, old(cells)@),
    {
        let r = self.inner.amoxor_w(offset, src, cells);
        assert(self.wf());
        r
    }

    fn amomax_w(&mut self, offset: u32, src: u32, cells: &mut Reservations) -> (r: MemoryResult<u32>)
        ensures
            r == old(self)@.amo_result(AmoOp::Max, offset),
            final(self)@ == old(self)@.amo(AmoOp::Max, offset, src),
            final(cells)@ == old(self)@.amo_cells(AmoOp::Max, offset, old(cells)@),
    {
        let r = self.inner.amomax_w(offset, src, cells);
        assert(self.wf());
        r
    }

    fn amomaxu_w(&mut self, offset: u32, src: u32, cells: &mut Reservations) -> (r: MemoryResult<u32>)
        ensures
            r == old(self)@.amo_result(AmoOp::Maxu, offset),
            final(self)@ == old(self)@.amo(AmoOp::Maxu, offset, src),
            final(cells)@ == old(self)@.amo_cells(AmoOp::Maxu, offset, old(cells)@),
    {
        let r = self.inner.amomaxu_w(offset, src, cells);
        assert(self.wf());
        r
    }

    fn amomin_w(&mut self, offset: u32, src: u32, cells: &mut Reservations) -> (r: MemoryResult<u32>)
        ensures
            r == old(self)@.amo_result(AmoOp::Min, offset),
            final(self)@ == old(self)@.amo(AmoOp::Min, offset, src),
            final(cells)@ == old(self)@.amo_cells(AmoOp::Min, offset, old(cells)@),
    {
        let r = self.inner.amomin_w(offset, src, cells);
        assert(self.wf());
        r
    }

    fn amominu_w(&mut self, offset: u32, src: u32, cells: &mut Reservations) -> (r: MemoryResult<u32>)
        ensures
            r == old(self)@.amo_result(AmoOp::Minu, offset),
            final(self)@ == old(self)@.amo(AmoOp::Minu, offset, src),
            final(cells)@ == old(self)@.amo_cells(AmoOp::Minu, offset, old(cells)@),
    {
        let r = self.inner.amominu_w(offset, src, cells);
        assert(self.wf());
        r
    }

    fn attributes(&self) -> (pma: Pma)
        ensures
            pma == self@.attributes,
    {
        self.inner.attributes()
    }

    fn properties(&self) -> (p: Properties)
        ensures
            p.spec_base_frame() == self@.base_frame,
            p.spec_frame_count() == self@.frame_count(),
    {
        self.inner.properties()
    }

    /// Registers a reservation cell with the region. A cell that is
    /// registered twice is in the list twice, which changes nothing else.
    fn register_reservation_set(&mut self, reservation: usize)
        ensures
            final(self)@ == (MainView {
                registered: old(self)@.registered.push(reservation),
                ..old(self)@
            }),
    {
        self.inner.register_reservation_set(reservation);
        assert(self.wf());
    }
}

} // verus!
