use vstd::prelude::*;
use fnv::FnvHashMap;
use fnv::FnvHashSet;
use fnv::FnvHasher;
use crate::memory::main::Main;
use crate::memory::mapping::Mapping;
use crate::memory::mapping::MemoryError;
use crate::memory::mapping::MemoryResult;
use crate::memory::mapping::Pma;
use crate::memory::mapping::Properties;
use crate::memory::mapping::Reservability;
use crate::memory::model::mask_count;
use crate::memory::model::stream_reads_ok;
use crate::memory::model::stream_writes_ok;
use crate::memory::model::AmoOp;
use crate::memory::model::MainView;
use crate::memory::model::StreamRead;
use crate::memory::model::StreamWrite;
use crate::memory::model::MAX_FRAME_COUNT;
use crate::memory::reservation::Reservations;

verus! {

#[verifier::external_type_specification]
#[verifier::external_body]
pub struct ExFnvHasher(FnvHasher);

#[verifier::external_type_specification]
#[verifier::external_body]
#[verifier::reject_recursive_types(H)]
pub struct ExBuildHasherDefault<H>(std::hash::BuildHasherDefault<H>);

/// What the frame table says of a frame: the first frame of the device that
/// holds it, and the place of the device among the devices of the bus.
pub type Entry = (u32, usize);

/// The frame table as a map from frame numbers to entries.
pub type FrameMap = Map<u32, Entry>;

/// The entries that a frame table holds.
pub uninterp spec fn frame_table(table: FnvHashMap<u32, Entry>) -> FrameMap;

/// The frame numbers that a set of frames holds.
pub uninterp spec fn frame_set(set: FnvHashSet<u32>) -> Set<u32>;

/// `FnvHashMap::default`: a table without entries.
#[verifier::external_body]
fn table_new() -> (table: FnvHashMap<u32, Entry>)
    ensures
        frame_table(table) == FrameMap::empty(),
{
    FnvHashMap::default()
}

/// `HashMap::insert` on a table with the FNV hasher: afterwards the table
/// holds the entry under the frame number, and is otherwise what it was.
#[verifier::external_body]
fn table_insert(table: &mut FnvHashMap<u32, Entry>, frame: u32, entry: Entry)
    ensures
        frame_table(*final(table)) == frame_table(*old(table)).insert(frame, entry),
{
    table.insert(frame, entry);
}

/// `HashMap::get` on a table with the FNV hasher: the entry under the frame
/// number, if the table holds one.
#[verifier::external_body]
fn table_get(table: &FnvHashMap<u32, Entry>, frame: u32) -> (entry: Option<Entry>)
    ensures
        entry == (if frame_table(*table).dom().contains(frame) {
            Some(frame_table(*table)[frame])
        } else {
            None
        }),
{
    table.get(&frame).copied()
}

/// `FnvHashSet::default`: a set without frames.
#[verifier::external_body]
fn seen_new() -> (set: FnvHashSet<u32>)
    ensures
        frame_set(set) == Set::<u32>::empty(),
{
    FnvHashSet::default()
}

/// `HashSet::insert` on a set with the FNV hasher: afterwards the set holds
/// the frame. Returns whether the frame was new to the set.
#[verifier::external_body]
fn seen_insert(set: &mut FnvHashSet<u32>, frame: u32) -> (fresh: bool)
    ensures
        frame_set(*final(set)) == frame_set(*old(set)).insert(frame),
        fresh == !frame_set(*old(set)).contains(frame),
{
    set.insert(frame)
}

/// Why an access over the bus failed.
#[derive(Debug, Clone, Copy, PartialEq, Eq, Structural)]
pub enum BusError {
    MemoryError { e: MemoryError },
}

impl BusError {
    /// The error of the bus that wraps an error of a region.
    pub fn from_memory(e: MemoryError) -> (b: BusError)
        ensures
            b == (BusError::MemoryError { e }),
    {
        BusError::MemoryError { e }
    }
}

impl From<MemoryError> for BusError {
    fn from(e: MemoryError) -> (b: BusError) {
        BusError::MemoryError { e }
    }
}

impl vstd::std_specs::convert::FromSpecImpl<MemoryError> for BusError {
    open spec fn obeys_from_spec() -> bool {
        true
    }

    open spec fn from_spec(e: MemoryError) -> BusError {
        BusError::MemoryError { e }
    }
}

/// Where the bus sends an access.
#[derive(Debug, Clone, Copy, PartialEq, Eq, Structural)]
pub enum Target {
    /// To main memory, at the same offset.
    MainMemory,
    /// To the device at `index`, at the offset `offset` in the device.
    Device { index: usize, offset: u32 },
    /// Nowhere: nothing is mapped at the address.
    Unmapped,
}

/// A bus as a value: main memory, the devices, and the frame table.
pub struct BusView {
    pub main: MainView,
    pub devices: Seq<MainView>,
    pub table: FrameMap,
}

impl BusView {
    /// Every entry of the frame table names a device of the bus that holds
    /// the frame, and every region is well formed.
    pub open spec fn wf(self) -> bool {
        &&& self.main.wf()
        &&& self.main.base_frame == 0
        &&& forall|i: int| 0 <= i < self.devices.len() ==> (#[trigger] self.devices[i]).wf()
        &&& forall|frame: u32| #[trigger]
            self.table.dom().contains(frame) ==> {
                let (base, index) = self.table[frame];
                &&& index < self.devices.len()
                &&& self.devices[index as int].base_frame == base
                &&& base <= frame < base + self.devices[index as int].frame_count()
            }
    }

    /// Where an access at `offset` goes: below 2 GiB to main memory, above to
    /// the device that the frame table names for the frame of the offset.
    pub open spec fn target(self, offset: u32) -> Target {
        if offset < 0x8000_0000 {
            Target::MainMemory
        } else if self.table.dom().contains(offset / 4096) {
            let (base, index) = self.table[offset / 4096];
            Target::Device { index, offset: (offset - base * 4096) as u32 }
        } else {
            Target::Unmapped
        }
    }

    /// Where a stream into the frame `frame` goes, and the number of the frame in the region.
    pub open spec fn frame_target(self, frame: u32) -> Target {
        if frame < 0x8_0000 {
            Target::MainMemory
        } else if self.table.dom().contains(frame) {
            let (base, index) = self.table[frame];
            Target::Device { index, offset: (frame - base) as u32 }
        } else {
            Target::Unmapped
        }
    }

    /// The region that the target names; for no target, main memory.
    pub open spec fn region(self, target: Target) -> MainView {
        match target {
            Target::Device { index, .. } => self.devices[index as int],
            _ => self.main,
        }
    }

    /// The offset in its region of an access at `offset` that goes to `target`.
    pub open spec fn local(target: Target, offset: u32) -> u32 {
        match target {
            Target::Device { offset: local, .. } => local,
            _ => offset,
        }
    }

    /// The bus with `region` in the place that the target names.
    pub open spec fn with_region(self, target: Target, region: MainView) -> BusView {
        match target {
            Target::MainMemory => BusView { main: region, ..self },
            Target::Device { index, .. } => BusView {
                devices: self.devices.update(index as int, region),
                ..self
            },
            Target::Unmapped => self,
        }
    }

    /// A bus stays well formed when a region changes its bytes or its registered cells only.
    pub proof fn lemma_with_region(self, target: Target, region: MainView)
        requires
            self.wf(),
            target matches Target::Device { index, .. } ==> index < self.devices.len(),
            region.base_frame == self.region(target).base_frame,
            region.bytes.len() == self.region(target).bytes.len(),
        ensures
            self.with_region(target, region).wf(),
    {
        let after = self.with_region(target, region);
        assert forall|frame: u32| #[trigger] after.table.dom().contains(frame) implies {
            let (base, index) = after.table[frame];
            &&& index < after.devices.len()
            &&& after.devices[index as int].base_frame == base
            &&& base <= frame < base + after.devices[index as int].frame_count()
        } by {
            assert(self.table.dom().contains(frame));
        }
    }
}


impl BusView {
    /// The error of an access at `offset` that goes nowhere.
    pub open spec fn unmapped<R>(offset: u32) -> MemoryResult<R> {
        Err(MemoryError::OutOfBoundsAccess { offset })
    }

    /// What a load of `width` bytes at `offset` gives.
    pub open spec fn load(self, offset: u32, width: u32) -> MemoryResult<u32> {
        let t = self.target(offset);
        if t is Unmapped {
            Self::unmapped(offset)
        } else {
            self.region(t).load(Self::local(t, offset), width)
        }
    }

    /// What a store of `width` bytes at `offset` returns.
    pub open spec fn store_result(self, offset: u32, width: u32) -> MemoryResult<()> {
        let t = self.target(offset);
        if t is Unmapped {
            Self::unmapped(offset)
        } else {
            self.region(t).store_result(Self::local(t, offset), width)
        }
    }

    /// The bus after a store of the `width` lowest bytes of `val` at `offset`.
    pub open spec fn store(self, offset: u32, width: u32, val: u32) -> BusView {
        let t = self.target(offset);
        self.with_region(t, self.region(t).store(Self::local(t, offset), width, val))
    }

    /// The reservation cells after a store of `width` bytes at `offset`.
    pub open spec fn store_cells(self, offset: u32, width: u32, cells: Seq<u32>) -> Seq<u32> {
        let t = self.target(offset);
        if t is Unmapped {
            cells
        } else {
            self.region(t).store_cells(Self::local(t, offset), width, cells)
        }
    }

    /// What a block operation on `len` bytes at `offset` returns when it moves `moved` bytes.
    pub open spec fn block_result(self, offset: u32, len: int, moved: int) -> MemoryResult<usize> {
        let t = self.target(offset);
        if t is Unmapped {
            Self::unmapped(offset)
        } else {
            self.region(t).block_result(Self::local(t, offset), len, moved)
        }
    }

    /// What a block read of `len` bytes at `offset` gives.
    pub open spec fn block_read(self, offset: u32, len: int) -> MemoryResult<Seq<u8>> {
        let t = self.target(offset);
        if t is Unmapped {
            Self::unmapped(offset)
        } else {
            self.region(t).block_read(Self::local(t, offset), len)
        }
    }

    /// `dst` after a masked block read at `offset`.
    pub open spec fn block_read_masked(self, offset: u32, dst: Seq<u8>, mask: Seq<u8>) -> Seq<u8> {
        let t = self.target(offset);
        if t is Unmapped {
            dst
        } else {
            self.region(t).block_read_masked(Self::local(t, offset), dst, mask)
        }
    }

    /// The bus after a block write of `src` at `offset`.
    pub open spec fn block_write(self, offset: u32, src: Seq<u8>) -> BusView {
        let t = self.target(offset);
        self.with_region(t, self.region(t).block_write(Self::local(t, offset), src))
    }

    /// The reservation cells after a block write of `len` bytes at `offset`.
    pub open spec fn block_write_cells(self, offset: u32, len: int, cells: Seq<u32>) -> Seq<u32> {
        let t = self.target(offset);
        if t is Unmapped {
            cells
        } else {
            self.region(t).block_write_cells(Self::local(t, offset), len, cells)
        }
    }

    /// The bus after a masked block write of `src` at `offset`.
    pub open spec fn block_write_masked(self, offset: u32, src: Seq<u8>, mask: Seq<u8>) -> BusView {
        let t = self.target(offset);
        self.with_region(t, self.region(t).block_write_masked(Self::local(t, offset), src, mask))
    }

    /// The reservation cells after a masked block write of `len` bytes at `offset`.
    pub open spec fn block_write_masked_cells(self, offset: u32, len: int, mask: Seq<u8>, cells: Seq<u32>) -> Seq<u32> {
        let t = self.target(offset);
        if t is Unmapped {
            cells
        } else {
            self.region(t).block_write_masked_cells(Self::local(t, offset), len, mask, cells)
        }
    }

    /// What a stream into or from the frame `frame` with `n` accesses returns.
    pub open spec fn stream_result(self, frame: u32, n: int) -> MemoryResult<usize> {
        let t = self.frame_target(frame);
        if t is Unmapped {
            Err(MemoryError::OutOfBoundsAccess { offset: ((frame as int * 4096) % 0x1_0000_0000) as u32 })
        } else {
            self.region(t).stream_result(Self::local(t, frame), n)
        }
    }

    /// The bus after the writes of a stream into the frame `frame`.
    pub open spec fn stream_write(self, frame: u32, writes: Seq<StreamWrite>) -> BusView {
        let t = self.frame_target(frame);
        self.with_region(t, self.region(t).stream_write(Self::local(t, frame), writes))
    }

    /// The reservation cells after the writes of a stream into the frame `frame`.
    pub open spec fn stream_write_cells(self, frame: u32, writes: Seq<StreamWrite>, cells: Seq<u32>) -> Seq<u32> {
        let t = self.frame_target(frame);
        if t is Unmapped {
            cells
        } else {
            self.region(t).stream_write_cells(Self::local(t, frame), writes, cells)
        }
    }

    /// What a store-conditional of a word at `offset` returns.
    pub open spec fn store_conditional_result(self, offset: u32, cells: Seq<u32>, cell: usize, should_be: u32) -> MemoryResult<u32> {
        let t = self.target(offset);
        if t is Unmapped {
            Self::unmapped(offset)
        } else {
            self.region(t).store_conditional_result(Self::local(t, offset), cells, cell, should_be)
        }
    }

    /// The bus after a store-conditional.
    pub open spec fn store_conditional(self, offset: u32, src: u32, cells: Seq<u32>, cell: usize, should_be: u32) -> BusView {
        let t = self.target(offset);
        self.with_region(t, self.region(t).store_conditional(Self::local(t, offset), src, cells, cell, should_be))
    }

    /// The reservation cells after a store-conditional.
    pub open spec fn store_conditional_cells(self, offset: u32, cells: Seq<u32>, cell: usize, should_be: u32) -> Seq<u32> {
        let t = self.target(offset);
        if t is Unmapped {
            cells
        } else {
            self.region(t).store_conditional_cells(Self::local(t, offset), cells, cell, should_be)
        }
    }

    /// What an atomic memory operation on the word at `offset` returns.
    pub open spec fn amo_result(self, op: AmoOp, offset: u32) -> MemoryResult<u32> {
        let t = self.target(offset);
        if t is Unmapped {
            Self::unmapped(offset)
        } else {
            self.region(t).amo_result(op, Self::local(t, offset))
        }
    }

    /// The bus after an atomic memory operation.
    pub open spec fn amo(self, op: AmoOp, offset: u32, src: u32) -> BusView {
        let t = self.target(offset);
        self.with_region(t, self.region(t).amo(op, Self::local(t, offset), src))
    }

    /// The reservation cells after an atomic memory operation.
    pub open spec fn amo_cells(self, op: AmoOp, offset: u32, cells: Seq<u32>) -> Seq<u32> {
        let t = self.target(offset);
        if t is Unmapped {
            cells
        } else {
            self.region(t).amo_cells(op, Self::local(t, offset), cells)
        }
    }

    /// Whether the device at `index` gets a reservation cell that is
    /// registered with the bus: it is reservable, and no device before it
    /// starts at the same frame.
    pub open spec fn registers(self, index: int) -> bool {
        &&& self.devices[index].attributes.reservability != Reservability::Unreservable
        &&& forall|j: int| 0 <= j < index ==> (#[trigger] self.devices[j]).base_frame != self.devices[index].base_frame
    }

    /// The bus after a reservation cell was registered with it: main memory
    /// has the cell, and so has every device that `registers` names.
    pub open spec fn register_reservation_set(self, cell: usize) -> BusView {
        BusView {
            main: MainView { registered: self.main.registered.push(cell), ..self.main },
            devices: Seq::new(
                self.devices.len(),
                |i: int|
                    if self.registers(i) {
                        MainView { registered: self.devices[i].registered.push(cell), ..self.devices[i] }
                    } else {
                        self.devices[i]
                    },
            ),
            table: self.table,
        }
    }
}

/// Builds a bus: main memory at address 0 and devices at the frames that they name.
pub struct Builder {
    main: Option<Main>,
    devices: Vec<Main>,
    map: FnvHashMap<u32, Entry>,
}

impl Builder {
    /// Main memory, if it was given.
    pub closed spec fn spec_main(&self) -> Option<MainView> {
        match self.main {
            Some(m) => Some(m@),
            None => None,
        }
    }

    /// The devices, in the order in which they were given.
    pub closed spec fn spec_devices(&self) -> Seq<MainView> {
        Seq::new(self.devices@.len(), |i: int| self.devices@[i]@)
    }

    /// The frame table.
    pub closed spec fn spec_table(&self) -> FrameMap {
        frame_table(self.map)
    }

    /// Every entry of the frame table names a device that holds the frame.
    pub open spec fn wf(&self) -> bool {
        &&& forall|i: int| 0 <= i < self.spec_devices().len() ==> (#[trigger] self.spec_devices()[i]).wf()
        &&& forall|frame: u32| #[trigger]
            self.spec_table().dom().contains(frame) ==> {
                let (base, index) = self.spec_table()[frame];
                &&& index < self.spec_devices().len()
                &&& self.spec_devices()[index as int].base_frame == base
                &&& base <= frame < base + self.spec_devices()[index as int].frame_count()
            }
        &&& match self.spec_main() {
            Some(m) => m.wf() && m.base_frame == 0,
            None => true,
        }
    }

    /// Whether the region is free to be mapped: none of its frames is taken, and they end below 4 GiB.
    pub open spec fn fits(&self, region: MainView) -> bool {
        &&& region.base_frame + region.frame_count() <= MAX_FRAME_COUNT + 1
        &&& forall|frame: u32|
            region.base_frame <= frame < region.base_frame + region.frame_count() ==> !(
            #[trigger] self.spec_table().dom().contains(frame))
    }

    /// Tells whether the region is free to be mapped.
    pub fn can_map(&self, mapping: &Main) -> (free: bool)
        requires
            self.wf(),
        ensures
            free == self.fits(mapping@),
    {
        let props = mapping.properties();
        let base: u32 = props.base_frame();
        let count: u32 = props.frame_count();
        if base > MAX_FRAME_COUNT + 1 || count > MAX_FRAME_COUNT + 1 - base {
            return false;
        }
        let mut i: u32 = 0;
        while i < count
            invariant
                i <= count,
                base + count <= MAX_FRAME_COUNT + 1,
                base == mapping@.base_frame,
                count == mapping@.frame_count(),
                forall|frame: u32| base <= frame < base + i ==> !(#[trigger] self.spec_table().dom().contains(frame)),
            decreases count - i,
        {
            if table_get(&self.map, base + i).is_some() {
                assert(self.spec_table().dom().contains((base + i) as u32));
                return false;
            }
            i = i + 1;
        }
        true
    }

    /// Maps a device: each of its frames is entered in the frame table. None
    /// of the frames may be taken.
    pub fn with_mapping(self, mapping: Main) -> (b: Builder)
        requires
            self.wf(),
            self.fits(mapping@),
            mapping@.wf(),
        ensures
            b.wf(),
            b.spec_main() == self.spec_main(),
            b.spec_devices() == self.spec_devices().push(mapping@),
            forall|frame: u32|
                b.spec_table().dom().contains(frame) <==> (self.spec_table().dom().contains(frame)
                    || mapping@.base_frame <= frame < mapping@.base_frame + mapping@.frame_count()),
            forall|frame: u32|
                self.spec_table().dom().contains(frame) ==> b.spec_table()[frame] == self.spec_table()[frame],
            forall|frame: u32|
                mapping@.base_frame <= frame < mapping@.base_frame + mapping@.frame_count() ==> b.spec_table()[frame]
                    == (mapping@.base_frame, self.spec_devices().len() as usize),
    {
        let mut b = self;
        let props = mapping.properties();
        let base: u32 = props.base_frame();
        let count: u32 = props.frame_count();
        let index: usize = b.devices.len();
        let ghost region = mapping@;
        let ghost before = b.spec_table();
        b.devices.push(mapping);
        assert(b.spec_devices() =~= self.spec_devices().push(region));
        let mut i: u32 = 0;
        while i < count
            invariant
                i <= count,
                base + count <= MAX_FRAME_COUNT + 1,
                base == region.base_frame,
                count == region.frame_count(),
                index == self.spec_devices().len(),
                b.spec_devices() == self.spec_devices().push(region),
                b.spec_main() == self.spec_main(),
                before == self.spec_table(),
                forall|frame: u32|
                    #![trigger b.spec_table().dom().contains(frame)]
                    b.spec_table().dom().contains(frame) <==> (before.dom().contains(frame) || base <= frame < base
                        + i),
                forall|frame: u32|
                    #![trigger b.spec_table()[frame]]
                    before.dom().contains(frame) ==> b.spec_table()[frame] == before[frame],
                forall|frame: u32|
                    #![trigger b.spec_table()[frame]]
                    base <= frame < base + i ==> b.spec_table()[frame] == (base, index),
                forall|frame: u32|
                    #![trigger before.dom().contains(frame)]
                    base <= frame < base + count ==> !before.dom().contains(frame),
            decreases count - i,
        {
            let ghost table = b.spec_table();
            table_insert(&mut b.map, base + i, (base, index));
            assert(b.spec_table() == table.insert((base + i) as u32, (base, index)));
            assert forall|frame: u32|
                #![trigger b.spec_table().dom().contains(frame)]
                b.spec_table().dom().contains(frame) <==> (before.dom().contains(frame) || base <= frame < base + i
                    + 1) by {
                assert(table.dom().contains(frame) <==> (before.dom().contains(frame) || base <= frame < base + i));
            }
            assert forall|frame: u32| #![trigger b.spec_table()[frame]] before.dom().contains(frame) implies b.spec_table()[frame]
                == before[frame] by {
                assert(table[frame] == before[frame]);
                assert(frame != base + i);
            }
            assert forall|frame: u32| #![trigger b.spec_table()[frame]] base <= frame < base + i + 1 implies b.spec_table()[frame]
                == (base, index) by {
                if frame < base + i {
                    assert(table[frame] == (base, index));
                }
            }
            i = i + 1;
        }
        proof {
            assert forall|frame: u32| #[trigger] b.spec_table().dom().contains(frame) implies {
                let (start, place) = b.spec_table()[frame];
                &&& place < b.spec_devices().len()
                &&& b.spec_devices()[place as int].base_frame == start
                &&& start <= frame < start + b.spec_devices()[place as int].frame_count()
            } by {
                if before.dom().contains(frame) {
                    assert(self.spec_table().dom().contains(frame));
                    assert(b.spec_table()[frame] == before[frame]);
                } else {
                    assert(b.spec_table()[frame] == (base, index));
                }
            }
            assert forall|k: int| 0 <= k < b.spec_devices().len() implies (#[trigger] b.spec_devices()[k]).wf() by {
                if k < self.spec_devices().len() {
                    assert(self.spec_devices()[k].wf());
                }
            }
        }
        b
    }

    /// Maps a device if its frames are free, and says whether it did.
    pub fn try_with_mapping(self, mapping: Main) -> (r: (Builder, bool))
        requires
            self.wf(),
            mapping@.wf(),
        ensures
            r.0.wf(),
            r.1 == self.fits(mapping@),
            r.0.spec_main() == self.spec_main(),
            r.1 ==> r.0.spec_devices() == self.spec_devices().push(mapping@),
            !r.1 ==> r.0.spec_devices() == self.spec_devices() && r.0.spec_table() == self.spec_table(),
    {
        if self.can_map(&mapping) {
            (self.with_mapping(mapping), true)
        } else {
            (self, false)
        }
    }

    /// Gives the bus a main memory of `frame_count` frames at address 0. It
    /// can have only one.
    pub fn with_main_memory(self, frame_count: u32) -> (b: Builder)
        requires
            self.wf(),
            self.spec_main() is None,
            frame_count <= MAX_FRAME_COUNT,
        ensures
            b.wf(),
            b.spec_main() == Some(
                MainView {
                    base_frame: 0,
                    bytes: Seq::new((frame_count * 4096) as nat, |i: int| 0u8),
                    registered: Seq::<usize>::empty(),
                    attributes: Pma::spec_main(),
                },
            ),
            b.spec_devices() == self.spec_devices(),
            b.spec_table() == self.spec_table(),
    {
        let mut b = self;
        b.main = Some(Main::new(0, frame_count));
        b
    }

    /// Whether main memory was given.
    pub fn has_main_memory(&self) -> (b: bool)
        ensures
            b == (self.spec_main() is Some),
    {
        self.main.is_some()
    }

    /// The bus. It must have a main memory.
    pub fn build(self) -> (bus: Bus)
        requires
            self.wf(),
            self.spec_main() is Some,
        ensures
            bus.wf(),
            bus@.main == self.spec_main()->Some_0,
            bus@.devices == self.spec_devices(),
            bus@.table == self.spec_table(),
    {
        let bus = Bus { main: self.main.unwrap(), devices: self.devices, map: self.map };
        assert(bus@.devices =~= self.spec_devices());
        bus
    }
}

/// The bus: main memory at address 0 and devices above 2 GiB, found by the
/// number of the frame.
pub struct Bus {
    main: Main,
    devices: Vec<Main>,
    map: FnvHashMap<u32, Entry>,
}

impl Bus {
    pub closed spec fn view(&self) -> BusView {
        BusView {
            main: self.main@,
            devices: Seq::new(self.devices@.len(), |i: int| self.devices@[i]@),
            table: frame_table(self.map),
        }
    }

    /// A builder without main memory and without devices.
    pub fn builder() -> (b: Builder)
        ensures
            b.wf(),
            b.spec_main() is None,
            b.spec_devices() == Seq::<MainView>::empty(),
            b.spec_table() == FrameMap::empty(),
    {
        let b = Builder { main: None, devices: Vec::new(), map: table_new() };
        assert(b.spec_devices() =~= Seq::<MainView>::empty());
        b
    }

    /// The number of bytes of main memory.
    pub fn main_memory_size(&self) -> (n: u32)
        requires
            self.wf(),
        ensures
            n == self@.main.bytes.len(),
    {
        self.main.properties().frame_count() * 4096
    }

    /// Writes `data` to main memory from address 0 on.
    pub fn set_mm(&mut self, data: &[u8], cells: &mut Reservations) -> (r: MemoryResult<usize>)
        requires
            old(self).wf(),
        ensures
            final(self).wf(),
            r == old(self)@.main.block_result(0, data@.len() as int, data@.len() as int),
            final(self)@ == (BusView { main: old(self)@.main.block_write(0, data@), ..old(self)@ }),
            final(cells)@ == old(self)@.main.block_write_cells(0, data@.len() as int, old(cells)@),
    {
        let ghost before = self@;
        let r = self.main.block_write(0, data, cells);
        proof {
            before.lemma_with_region(Target::MainMemory, before.main.block_write(0, data@));
            assert(self@.devices =~= before.devices);
        }
        r
    }

    /// Where an access at `offset` goes.
    pub fn locate(&self, offset: u32) -> (t: Target)
        requires
            self.wf(),
        ensures
            t == self@.target(offset),
            t matches Target::Device { index, .. } ==> index < self@.devices.len(),
    {
        if offset < 0x8000_0000 {
            Target::MainMemory
        } else {
            match table_get(&self.map, offset / 4096) {
                Some((base, index)) => {
                    assert(self@.table.dom().contains(offset / 4096));
                    Target::Device { index, offset: offset - base * 4096 }
                },
                None => Target::Unmapped,
            }
        }
    }

    /// Where a stream into the frame `frame` goes.
    pub fn locate_frame(&self, frame: u32) -> (t: Target)
        requires
            self.wf(),
        ensures
            t == self@.frame_target(frame),
            t matches Target::Device { index, .. } ==> index < self@.devices.len(),
    {
        if frame < 0x8_0000 {
            Target::MainMemory
        } else {
            match table_get(&self.map, frame) {
                Some((base, index)) => {
                    assert(self@.table.dom().contains(frame));
                    Target::Device { index, offset: frame - base }
                },
                None => Target::Unmapped,
            }
        }
    }
}

impl Mapping for Bus {
    /// Every entry of the frame table names a device of the bus that holds
    /// the frame, and main memory starts at address 0.
    open spec fn wf(&self) -> bool {
        self@.wf()
    }

    fn block_write(&mut self, offset: u32, src: &[u8], cells: &mut Reservations) -> (r: MemoryResult<usize>)
        ensures
            final(self).wf(),
            r == old(self)@.block_result(offset, src@.len() as int, src@.len() as int),
            final(self)@ == old(self)@.block_write(offset, src@),
            final(cells)@ == old(self)@.block_write_cells(offset, src@.len() as int, old(cells)@),
    {
        let ghost before = self@;
        match self.locate(offset) {
            Target::MainMemory => {
                let r = self.main.block_write(offset, src, cells);
                proof {
                    before.lemma_with_region(Target::MainMemory, self.main@);
                    assert(self@.devices =~= before.devices);
                }
                r
            },
            Target::Device { index, offset: local } => {
                assert(self@.devices[index as int] == self.devices@[index as int]@);
                let r = self.devices[index].block_write(local, src, cells);
                proof {
                    before.lemma_with_region(Target::Device { index, offset: local }, self.devices@[index as int]@);
                    assert(self@.devices =~= before.devices.update(index as int, self.devices@[index as int]@));
                }
                r
            },
            Target::Unmapped => Err(MemoryError::OutOfBoundsAccess { offset }),
        }
    }

    fn block_write_masked(&mut self, offset: u32, src: &[u8], mask: &[u8], cells: &mut Reservations) -> (r: MemoryResult<usize>)
        ensures
            final(self).wf(),
            r == old(self)@.block_result(offset, src@.len() as int, mask_count(mask@, src@.len() as int)),
            final(self)@ == old(self)@.block_write_masked(offset, src@, mask@),
            final(cells)@ == old(self)@.block_write_masked_cells(offset, src@.len() as int, mask@, old(cells)@),
    {
        let ghost before = self@;
        match self.locate(offset) {
            Target::MainMemory => {
                let r = self.main.block_write_masked(offset, src, mask, cells);
                proof {
                    before.lemma_with_region(Target::MainMemory, self.main@);
                    assert(self@.devices =~= before.devices);
                }
                r
            },
            Target::Device { index, offset: local } => {
                assert(self@.devices[index as int] == self.devices@[index as int]@);
                let r = self.devices[index].block_write_masked(local, src, mask, cells);
                proof {
                    before.lemma_with_region(Target::Device { index, offset: local }, self.devices@[index as int]@);
                    assert(self@.devices =~= before.devices.update(index as int, self.devices@[index as int]@));
                }
                r
            },
            Target::Unmapped => Err(MemoryError::OutOfBoundsAccess { offset }),
        }
    }

    fn block_read(&self, offset: u32, dst: &mut [u8]) -> (r: MemoryResult<usize>)
        ensures
            r == self@.block_result(offset, old(dst)@.len() as int, old(dst)@.len() as int),
            final(dst)@ == (match self@.block_read(offset, old(dst)@.len() as int) {
                Ok(bytes) => bytes,
                Err(_) => old(dst)@,
            }),
    {
        match self.locate(offset) {
            Target::MainMemory => {
                let r = self.main.block_read(offset, dst);
                r
            },
            Target::Device { index, offset: local } => {
                assert(self@.devices[index as int] == self.devices@[index as int]@);
                let r = self.devices[index].block_read(local, dst);
                r
            },
            Target::Unmapped => Err(MemoryError::OutOfBoundsAccess { offset }),
        }
    }

    fn block_read_masked(&self, offset: u32, dst: &mut [u8], mask: &[u8]) -> (r: MemoryResult<usize>)
        ensures
            r == self@.block_result(offset, old(dst)@.len() as int, mask_count(mask@, old(dst)@.len() as int)),
            final(dst)@ == self@.block_read_masked(offset, old(dst)@, mask@),
    {
        match self.locate(offset) {
            Target::MainMemory => {
                let r = self.main.block_read_masked(offset, dst, mask);
                r
            },
            Target::Device { index, offset: local } => {
                assert(self@.devices[index as int] == self.devices@[index as int]@);
                let r = self.devices[index].block_read_masked(local, dst, mask);
                r
            },
            Target::Unmapped => Err(MemoryError::OutOfBoundsAccess { offset }),
        }
    }

    fn stream_write(&mut self, frame: u32, writes: &[StreamWrite], cells: &mut Reservations) -> (r: MemoryResult<usize>)
        ensures
            final(self).wf(),
            r == old(self)@.stream_result(frame, writes@.len() as int),
            final(self)@ == old(self)@.stream_write(frame, writes@),
            final(cells)@ == old(self)@.stream_write_cells(frame, writes@, old(cells)@),
    {
        let ghost before = self@;
        match self.locate_frame(frame) {
            Target::MainMemory => {
                let r = self.main.stream_write(frame, writes, cells);
                proof {
                    before.main.lemma_stream_write_keeps(frame, writes@);
                    before.region(before.frame_target(frame)).lemma_stream_write_keeps(BusView::local(before.frame_target(frame), frame), writes@);
                    before.lemma_with_region(Target::MainMemory, self.main@);
                    assert(self@.devices =~= before.devices);
                }
                r
            },
            Target::Device { index, offset: local } => {
                assert(self@.devices[index as int] == self.devices@[index as int]@);
                let r = self.devices[index].stream_write(local, writes, cells);
                proof {
                    before.main.lemma_stream_write_keeps(frame, writes@);
                    before.region(before.frame_target(frame)).lemma_stream_write_keeps(BusView::local(before.frame_target(frame), frame), writes@);
                    before.lemma_with_region(Target::Device { index, offset: local }, self.devices@[index as int]@);
                    assert(self@.devices =~= before.devices.update(index as int, self.devices@[index as int]@));
                }
                r
            },
            Target::Unmapped => Err(MemoryError::OutOfBoundsAccess { offset: frame.wrapping_mul(4096) }),
        }
    }

    fn stream_read(&self, frame: u32, reads: &[StreamRead], dst: &mut [u32]) -> (r: MemoryResult<usize>)
        ensures
            r == self@.stream_result(frame, reads@.len() as int),
            final(dst)@ == (if r is Ok {
                self@.region(self@.frame_target(frame)).stream_read(BusView::local(self@.frame_target(frame), frame), reads@)
            } else {
                old(dst)@
            }),
    {
        match self.locate_frame(frame) {
            Target::MainMemory => {
                let r = self.main.stream_read(frame, reads, dst);
                r
            },
            Target::Device { index, offset: local } => {
                assert(self@.devices[index as int] == self.devices@[index as int]@);
                let r = self.devices[index].stream_read(local, reads, dst);
                r
            },
            Target::Unmapped => Err(MemoryError::OutOfBoundsAccess { offset: frame.wrapping_mul(4096) }),
        }
    }

    fn store_byte(&mut self, offset: u32, byte: u8, cells: &mut Reservations) -> (r: MemoryResult<()>)
        ensures
            final(self).wf(),
            r == old(self)@.store_result(offset, 1),
            final(self)@ == old(self)@.store(offset, 1, byte as u32),
            final(cells)@ == old(self)@.store_cells(offset, 1, old(cells)@),
    {
        let ghost before = self@;
        match self.locate(offset) {
            Target::MainMemory => {
                let r = self.main.store(offset, 1, byte as u32, cells);
                proof {
                    before.lemma_with_region(Target::MainMemory, self.main@);
                    assert(self@.devices =~= before.devices);
                }
                r
            },
            Target::Device { index, offset: local } => {
                assert(self@.devices[index as int] == self.devices@[index as int]@);
                let r = self.devices[index].store(local, 1, byte as u32, cells);
                proof {
                    before.lemma_with_region(Target::Device { index, offset: local }, self.devices@[index as int]@);
                    assert(self@.devices =~= before.devices.update(index as int, self.devices@[index as int]@));
                }
                r
            },
            Target::Unmapped => Err(MemoryError::OutOfBoundsAccess { offset }),
        }
    }

    fn store_half_word(&mut self, offset: u32, half_word: u16, cells: &mut Reservations) -> (r: MemoryResult<()>)
        ensures
            final(self).wf(),
            r == old(self)@.store_result(offset, 2),
            final(self)@ == old(self)@.store(offset, 2, half_word as u32),
            final(cells)@ == old(self)@.store_cells(offset, 2, old(cells)@),
    {
        let ghost before = self@;
        match self.locate(offset) {
            Target::MainMemory => {
                let r = self.main.store(offset, 2, half_word as u32, cells);
                proof {
                    before.lemma_with_region(Target::MainMemory, self.main@);
                    assert(self@.devices =~= before.devices);
                }
                r
            },
            Target::Device { index, offset: local } => {
                assert(self@.devices[index as int] == self.devices@[index as int]@);
                let r = self.devices[index].store(local, 2, half_word as u32, cells);
                proof {
                    before.lemma_with_region(Target::Device { index, offset: local }, self.devices@[index as int]@);
                    assert(self@.devices =~= before.devices.update(index as int, self.devices@[index as int]@));
                }
                r
            },
            Target::Unmapped => Err(MemoryError::OutOfBoundsAccess { offset }),
        }
    }

    fn store_word(&mut self, offset: u32, word: u32, cells: &mut Reservations) -> (r: MemoryResult<()>)
        ensures
            final(self).wf(),
            r == old(self)@.store_result(offset, 4),
            final(self)@ == old(self)@.store(offset, 4, word),
            final(cells)@ == old(self)@.store_cells(offset, 4, old(cells)@),
    {
        let ghost before = self@;
        match self.locate(offset) {
            Target::MainMemory => {
                let r = self.main.store(offset, 4, word, cells);
                proof {
                    before.lemma_with_region(Target::MainMemory, self.main@);
                    assert(self@.devices =~= before.devices);
                }
                r
            },
            Target::Device { index, offset: local } => {
                assert(self@.devices[index as int] == self.devices@[index as int]@);
                let r = self.devices[index].store(local, 4, word, cells);
                proof {
                    before.lemma_with_region(Target::Device { index, offset: local }, self.devices@[index as int]@);
                    assert(self@.devices =~= before.devices.update(index as int, self.devices@[index as int]@));
                }
                r
            },
            Target::Unmapped => Err(MemoryError::OutOfBoundsAccess { offset }),
        }
    }

    fn load_byte(&self, offset: u32) -> (r: MemoryResult<u8>)
        ensures
            r == (match self@.load(offset, 1) {
                Ok(v) => Ok::<u8, MemoryError>(v as u8),
                Err(e) => Err(e),
            }),
            r matches Ok(v) ==> self@.load(offset, 1) == Ok::<u32, MemoryError>(v as u32),
    {
        match self.locate(offset) {
            Target::MainMemory => {
                let r = self.main.load_byte(offset);
                r
            },
            Target::Device { index, offset: local } => {
                assert(self@.devices[index as int] == self.devices@[index as int]@);
                let r = self.devices[index].load_byte(local);
                r
            },
            Target::Unmapped => Err(MemoryError::OutOfBoundsAccess { offset }),
        }
    }

    fn load_half_word(&self, offset: u32) -> (r: MemoryResult<u16>)
        ensures
            r == (match self@.load(offset, 2) {
                Ok(v) => Ok::<u16, MemoryError>(v as u16),
                Err(e) => Err(e),
            }),
            r matches Ok(v) ==> self@.load(offset, 2) == Ok::<u32, MemoryError>(v as u32),
    {
        match self.locate(offset) {
            Target::MainMemory => {
                let r = self.main.load_half_word(offset);
                r
            },
            Target::Device { index, offset: local } => {
                assert(self@.devices[index as int] == self.devices@[index as int]@);
                let r = self.devices[index].load_half_word(local);
                r
            },
            Target::Unmapped => Err(MemoryError::OutOfBoundsAccess { offset }),
        }
    }

    fn load_word(&self, offset: u32) -> (r: MemoryResult<u32>)
        ensures
            r == self@.load(offset, 4),
    {
        match self.locate(offset) {
            Target::MainMemory => {
                let r = self.main.load_word(offset);
                r
            },
            Target::Device { index, offset: local } => {
                assert(self@.devices[index as int] == self.devices@[index as int]@);
                let r = self.devices[index].load_word(local);
                r
            },
            Target::Unmapped => Err(MemoryError::OutOfBoundsAccess { offset }),
        }
    }

    fn store_conditional(
        &mut self,
        offset: u32,
        src: u32,
        cells: &mut Reservations,
        reservation: usize,
        should_be: u32,
    ) -> (r: MemoryResult<u32>)
        ensures
            final(self).wf(),
            r == old(self)@.store_conditional_result(offset, old(cells)@, reservation, should_be),
            final(self)@ == old(self)@.store_conditional(offset, src, old(cells)@, reservation, should_be),
            final(cells)@ == old(self)@.store_conditional_cells(offset, old(cells)@, reservation, should_be),
    {
        let ghost before = self@;
        match self.locate(offset) {
            Target::MainMemory => {
                let r = self.main.store_conditional(offset, src, cells, reservation, should_be);
                proof {
                    before.lemma_with_region(Target::MainMemory, self.main@);
                    assert(self@.devices =~= before.devices);
                }
                r
            },
            Target::Device { index, offset: local } => {
                assert(self@.devices[index as int] == self.devices@[index as int]@);
                let r = self.devices[index].store_conditional(local, src, cells, reservation, should_be);
                proof {
                    before.lemma_with_region(Target::Device { index, offset: local }, self.devices@[index as int]@);
                    assert(self@.devices =~= before.devices.update(index as int, self.devices@[index as int]@));
                }
                r
            },
            Target::Unmapped => Err(MemoryError::OutOfBoundsAccess { offset }),
        }
    }

    fn amoswap_w(&mut self, offset: u32, src: u32, cells: &mut Reservations) -> (r: MemoryResult<u32>)
        ensures
            final(self).wf(),
            r == old(self)@.amo_result(AmoOp::Swap, offset),
            final(self)@ == old(self)@.amo(AmoOp::Swap, offset, src),
            final(cells)@ == old(self)@.amo_cells(AmoOp::Swap, offset, old(cells)@),
    {
        self.amo(AmoOp::Swap, offset, src, cells)
    }

    fn amoadd_w(&mut self, offset: u32, src: u32, cells: &mut Reservations) -> (r: MemoryResult<u32>)
        ensures
            final(self).wf(),
            r == old(self)@.amo_result(AmoOp::Add, offset),
            final(self)@ == old(self)@.amo(AmoOp::Add, offset, src),
            final(cells)@ == old(self)@.amo_cells(AmoOp::Add, offset, old(cells)@),
    {
        self.amo(AmoOp::Add, offset, src, cells)
    }

    fn amoand_w(&mut self, offset: u32, src: u32, cells: &mut Reservations) -> (r: MemoryResult<u32>)
        ensures
            final(self).wf(),
            r == old(self)@.amo_result(AmoOp::And, offset),
            final(self)@ == old(self)@.amo(AmoOp::And, offset, src),
            final(cells)@ == old(self)@.amo_cells(AmoOp::And, offset, old(cells)@),
    {
        self.amo(AmoOp::And, offset, src, cells)
    }

    fn amoor_w(&mut self, offset: u32, src: u32, cells: &mut Reservations) -> (r: MemoryResult<u32>)
        ensures
            final(self).wf(),
            r == old(self)@.amo_result(AmoOp::Or, offset),
            final(self)@ == old(self)@.amo(AmoOp::Or, offset, src),
            final(cells)@ == old(self)@.amo_cells(AmoOp::Or, offset, old(cells)@),
    {
        self.amo(AmoOp::Or, offset, src, cells)
    }

    fn amoxor_w(&mut self, offset: u32, src: u32, cells: &mut Reservations) -> (r: MemoryResult<u32>)
        ensures
            final(self).wf(),
            r == old(self)@.amo_result(AmoOp::Xor, offset),
            final(self)@ == old(self)@.amo(AmoOp::Xor, offset, src),
            final(cells)@ == old(self)@.amo_cells(AmoOp::Xor, offset, old(cells)@),
    {
        self.amo(AmoOp::Xor, offset, src, cells)
    }

    fn amomax_w(&mut self, offset: u32, src: u32, cells: &mut Reservations) -> (r: MemoryResult<u32>)
        ensures
            final(self).wf(),
            r == old(self)@.amo_result(AmoOp::Max, offset),
            final(self)@ == old(self)@.amo(AmoOp::Max, offset, src),
            final(cells)@ == old(self)@.amo_cells(AmoOp::Max, offset, old(cells)@),
    {
        self.amo(AmoOp::Max, offset, src, cells)
    }

    fn amomaxu_w(&mut self, offset: u32, src: u32, cells: &mut Reservations) -> (r: MemoryResult<u32>)
        ensures
            final(self).wf(),
            r == old(self)@.amo_result(AmoOp::Maxu, offset),
            final(self)@ == old(self)@.amo(AmoOp::Maxu, offset, src),
            final(cells)@ == old(self)@.amo_cells(AmoOp::Maxu, offset, old(cells)@),
    {
        self.amo(AmoOp::Maxu, offset, src, cells)
    }

    fn amomin_w(&mut self, offset: u32, src: u32, cells: &mut Reservations) -> (r: MemoryResult<u32>)
        ensures
            final(self).wf(),
            r == old(self)@.amo_result(AmoOp::Min, offset),
            final(self)@ == old(self)@.amo(AmoOp::Min, offset, src),
            final(cells)@ == old(self)@.amo_cells(AmoOp::Min, offset, old(cells)@),
    {
        self.amo(AmoOp::Min, offset, src, cells)
    }

    fn amominu_w(&mut self, offset: u32, src: u32, cells: &mut Reservations) -> (r: MemoryResult<u32>)
        ensures
            final(self).wf(),
            r == old(self)@.amo_result(AmoOp::Minu, offset),
            final(self)@ == old(self)@.amo(AmoOp::Minu, offset, src),
            final(cells)@ == old(self)@.amo_cells(AmoOp::Minu, offset, old(cells)@),
    {
        self.amo(AmoOp::Minu, offset, src, cells)
    }

    /// The attributes of main memory.
    fn attributes(&self) -> (pma: Pma)
        ensures
            pma == self@.main.attributes,
    {
        self.main.attributes()
    }

    /// The bus spans the whole address space.
    fn properties(&self) -> (p: Properties)
        ensures
            p.spec_base_frame() == 0,
            p.spec_frame_count() == MAX_FRAME_COUNT,
    {
        Properties::new(0, MAX_FRAME_COUNT)
    }

    /// Registers a reservation cell with main memory and with every
    /// reservable device, once for each frame at which devices start.
    fn register_reservation_set(&mut self, reservation: usize)
        ensures
            final(self).wf(),
            final(self)@ == old(self)@.register_reservation_set(reservation),
    {
        let ghost before = self@;
        self.main.register_reservation_set(reservation);
        let mut seen = seen_new();
        let mut i: usize = 0;
        while i < self.devices.len()
            invariant
                i <= self.devices@.len(),
                self.devices@.len() == before.devices.len(),
                before.wf(),
                self@.main == before.register_reservation_set(reservation).main,
                self@.table == before.table,
                forall|k: int| 0 <= k < i ==> (#[trigger] self.devices@[k])@ == before.register_reservation_set(
                    reservation,
                ).devices[k],
                forall|k: int| i <= k < self.devices@.len() ==> (#[trigger] self.devices@[k])@ == before.devices[k],
                forall|frame: u32|
                    frame_set(seen).contains(frame) <==> exists|j: int|
                        0 <= j < i && (#[trigger] before.devices[j]).base_frame == frame,
            decreases self.devices.len() - i,
        {
            assert(self.devices@[i as int]@ == before.devices[i as int]);
            let base: u32 = self.devices[i].properties().base_frame();
            let fresh: bool = seen_insert(&mut seen, base);
            let reservable: bool = self.devices[i].attributes().reservability() != Reservability::Unreservable;
            if fresh && reservable {
                assert(before.registers(i as int));
                self.devices[i].register_reservation_set(reservation);
            } else {
                assert(!before.registers(i as int)) by {
                    if !fresh {
                        let j = choose|j: int| 0 <= j < i && (#[trigger] before.devices[j]).base_frame == base;
                        assert(before.devices[j].base_frame == before.devices[i as int].base_frame);
                    }
                }
            }
            assert forall|frame: u32|
                frame_set(seen).contains(frame) <==> exists|j: int|
                    0 <= j < i + 1 && (#[trigger] before.devices[j]).base_frame == frame by {
                if frame == base {
                    assert(before.devices[i as int].base_frame == frame);
                }
            }
            i = i + 1;
        }
        assert(self@.devices =~= before.register_reservation_set(reservation).devices);
        proof {
            let after = self@;
            assert forall|frame: u32| #[trigger] after.table.dom().contains(frame) implies {
                let (base, index) = after.table[frame];
                &&& index < after.devices.len()
                &&& after.devices[index as int].base_frame == base
                &&& base <= frame < base + after.devices[index as int].frame_count()
            } by {
                assert(before.table.dom().contains(frame));
            }
        }
    }
}

impl Bus {
    /// Loads `width` bytes at `offset` from the region that holds them.
    pub fn load(&self, offset: u32, width: u32) -> (r: MemoryResult<u32>)
        requires
            self.wf(),
            width == 1 || width == 2 || width == 4,
        ensures
            r == self@.load(offset, width),
    {
        match self.locate(offset) {
            Target::MainMemory => self.main.load(offset, width),
            Target::Device { index, offset: local } => {
                assert(self@.devices[index as int] == self.devices@[index as int]@);
                self.devices[index].load(local, width)
            },
            Target::Unmapped => Err(MemoryError::OutOfBoundsAccess { offset }),
        }
    }

    /// Stores the `width` lowest bytes of `val` at `offset` in the region that holds them.
    pub fn store(&mut self, offset: u32, width: u32, val: u32, cells: &mut Reservations) -> (r: MemoryResult<()>)
        requires
            old(self).wf(),
            width == 1 || width == 2 || width == 4,
        ensures
            final(self).wf(),
            r == old(self)@.store_result(offset, width),
            final(self)@ == old(self)@.store(offset, width, val),
            final(cells)@ == old(self)@.store_cells(offset, width, old(cells)@),
    {
        let ghost before = self@;
        match self.locate(offset) {
            Target::MainMemory => {
                let r = self.main.store(offset, width, val, cells);
                proof {
                    before.lemma_with_region(Target::MainMemory, self.main@);
                    assert(self@.devices =~= before.devices);
                }
                r
            },
            Target::Device { index, offset: local } => {
                assert(self@.devices[index as int] == self.devices@[index as int]@);
                let r = self.devices[index].store(local, width, val, cells);
                proof {
                    before.lemma_with_region(Target::Device { index, offset: local }, self.devices@[index as int]@);
                    assert(self@.devices =~= before.devices.update(index as int, self.devices@[index as int]@));
                }
                r
            },
            Target::Unmapped => Err(MemoryError::OutOfBoundsAccess { offset }),
        }
    }

    /// Performs the atomic memory operation `op` on the word at `offset` in
    /// the region that holds it, and returns the word that was there.
    pub fn amo(&mut self, op: AmoOp, offset: u32, src: u32, cells: &mut Reservations) -> (r: MemoryResult<u32>)
        requires
            old(self).wf(),
        ensures
            final(self).wf(),
            r == old(self)@.amo_result(op, offset),
            final(self)@ == old(self)@.amo(op, offset, src),
            final(cells)@ == old(self)@.amo_cells(op, offset, old(cells)@),
    {
        let ghost before = self@;
        match self.locate(offset) {
            Target::MainMemory => {
                let r = self.main.amo(op, offset, src, cells);
                proof {
                    before.lemma_with_region(Target::MainMemory, self.main@);
                    assert(self@.devices =~= before.devices);
                }
                r
            },
            Target::Device { index, offset: local } => {
                assert(self@.devices[index as int] == self.devices@[index as int]@);
                let r = self.devices[index].amo(op, local, src, cells);
                proof {
                    before.lemma_with_region(Target::Device { index, offset: local }, self.devices@[index as int]@);
                    assert(self@.devices =~= before.devices.update(index as int, self.devices@[index as int]@));
                }
                r
            },
            Target::Unmapped => Err(MemoryError::OutOfBoundsAccess { offset }),
        }
    }
}

} // verus!
