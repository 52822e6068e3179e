use vstd::prelude::*;
use crate::bus::BusView;
use crate::bus::Target;
use crate::hart::alu::wrapped;
use crate::hart::mmu::MmuError;
use crate::hart::mmu::MmuView;
use crate::memory::mapping::MemoryError;
use crate::memory::model::le_bytes;
use crate::memory::model::lemma_aligned_offset;
use crate::memory::model::lemma_le_round_trip;
use crate::memory::reservation::reservation_set_of;
use crate::memory::reservation::NO_RESERVATION;

verus! {

/// Whether `addr` is the address of a word of main memory.
pub open spec fn word_in_main(bus: BusView, addr: u32) -> bool {
    &&& addr % 4 == 0
    &&& addr < 0x8000_0000
    &&& bus.main.backs(addr)
}

/// The word of main memory at `addr`.
pub open spec fn word_at(bus: BusView, addr: u32) -> u32 {
    crate::memory::model::le_value(bus.main.bytes.subrange(addr as int, addr + 4))
}

/// Whether the hart, if it still holds its reservation for the set of
/// `addr`, has seen the word that is at `addr` now: `seen` is what its
/// load-reserved gave.
pub open spec fn reservation_is_fresh(mmu: MmuView, bus: BusView, cells: Seq<u32>, addr: u32, seen: u32) -> bool {
    mmu.holds_reservation(cells, addr) ==> word_at(bus, addr) == seen
}

/// A load-reserved of a word of main memory gives the word and reserves its
/// set for the hart; the cells of the other harts stay as they are, and so
/// does memory.
pub proof fn lemma_load_reserved(mmu: MmuView, bus: BusView, cells: Seq<u32>, addr: u32)
    requires
        bus.wf(),
        word_in_main(bus, addr),
        mmu.reservation < cells.len(),
    ensures
        mmu.load_reserved(bus, addr) == Ok::<u32, MmuError>(word_at(bus, addr)),
        mmu.holds_reservation(mmu.load_reserved_cells(bus, cells, addr), addr),
        mmu.load_reserved_cells(bus, cells, addr).len() == cells.len(),
        forall|other: int|
            0 <= other < cells.len() && other != mmu.reservation ==> mmu.load_reserved_cells(bus, cells, addr)[other]
                == cells[other],
        reservation_is_fresh(mmu, bus, mmu.load_reserved_cells(bus, cells, addr), addr, word_at(bus, addr)),
{
}

/// A store-conditional stores only on a reservation that is held: if the
/// cell of the hart does not hold the set of the address, it returns 1, and
/// neither memory nor any cell changes.
pub proof fn lemma_store_conditional_fails(mmu: MmuView, bus: BusView, cells: Seq<u32>, addr: u32, val: u32)
    requires
        !mmu.holds_reservation(cells, addr),
    ensures
        mmu.store_conditional_result(bus, cells, addr) == Ok::<u32, MmuError>(1u32),
        mmu.store_conditional_bus(bus, cells, addr, val) == bus,
        mmu.store_conditional_cells(bus, cells, addr) == cells,
{
}

/// A store-conditional never returns anything but 0 or 1, and it returns 0
/// exactly when the hart holds the reservation and the word can be stored.
pub proof fn lemma_store_conditional_result(mmu: MmuView, bus: BusView, cells: Seq<u32>, addr: u32)
    requires
        bus.wf(),
        word_in_main(bus, addr),
    ensures
        mmu.store_conditional_result(bus, cells, addr) == Ok::<u32, MmuError>(
            if mmu.holds_reservation(cells, addr) {
                0u32
            } else {
                1u32
            },
        ),
{
}

/// A store-conditional that succeeds stores the word and takes the
/// reservation for the set from the hart and from every hart whose cell is
/// registered with main memory: none of them can store on a reservation
/// that it took before this store.
pub proof fn lemma_store_conditional_succeeds(mmu: MmuView, bus: BusView, cells: Seq<u32>, addr: u32, val: u32)
    requires
        bus.wf(),
        word_in_main(bus, addr),
        mmu.holds_reservation(cells, addr),
    ensures
        mmu.store_conditional_result(bus, cells, addr) == Ok::<u32, MmuError>(0u32),
        word_at(mmu.store_conditional_bus(bus, cells, addr, val), addr) == val,
        mmu.store_conditional_bus(bus, cells, addr, val).wf(),
        word_in_main(mmu.store_conditional_bus(bus, cells, addr, val), addr),
        mmu.store_conditional_cells(bus, cells, addr).len() == cells.len(),
        !mmu.holds_reservation(mmu.store_conditional_cells(bus, cells, addr), addr),
        forall|other: int|
            0 <= other < cells.len() && bus.main.registered.contains(other as usize) ==> mmu.store_conditional_cells(
                bus,
                cells,
                addr,
            )[other] != reservation_set_of(addr),
        forall|other: int|
            0 <= other < cells.len() && other != mmu.reservation && cells[other] != reservation_set_of(addr)
                ==> mmu.store_conditional_cells(bus, cells, addr)[other] == cells[other],
{
    let set = reservation_set_of(addr);
    let after = mmu.store_conditional_bus(bus, cells, addr, val);
    lemma_aligned_offset(addr, 4);
    lemma_le_round_trip(val, 4);
    assert(after.main.bytes.subrange(addr as int, addr + 4) =~= le_bytes(val, 4));
    bus.lemma_with_region(Target::MainMemory, after.main);
    assert(set != NO_RESERVATION);
}

/// Between a load-reserved and the store-conditional that succeeds on its
/// reservation, nobody stored to the word: a hart that loads a word with
/// load-reserved and stores the next number with a store-conditional that
/// succeeds has raised the word by one. With every hart doing so, the word
/// counts the store-conditionals that succeeded, and skips no number.
pub proof fn lemma_counts_by_one(mmu: MmuView, bus: BusView, cells: Seq<u32>, addr: u32, seen: u32)
    requires
        bus.wf(),
        word_in_main(bus, addr),
        reservation_is_fresh(mmu, bus, cells, addr, seen),
        mmu.store_conditional_result(bus, cells, addr) == Ok::<u32, MmuError>(0u32),
    ensures
        word_at(mmu.store_conditional_bus(bus, cells, addr, wrapped(seen + 1)), addr) == wrapped(
            word_at(bus, addr) + 1,
        ),
{
    lemma_store_conditional_result(mmu, bus, cells, addr);
    lemma_store_conditional_succeeds(mmu, bus, cells, addr, wrapped(seen + 1));
}

/// What a hart has seen stays fresh while other harts load with
/// load-reserved, fail to store, or store on their own reservations: after
/// a store-conditional of another hart that succeeds, a hart whose cell is
/// registered with main memory holds no reservation for the set any more.
pub proof fn lemma_fresh_after_others(
    mmu: MmuView,
    other: MmuView,
    bus: BusView,
    cells: Seq<u32>,
    addr: u32,
    seen: u32,
    val: u32,
)
    requires
        bus.wf(),
        word_in_main(bus, addr),
        mmu.reservation != other.reservation,
        mmu.reservation < cells.len(),
        other.reservation < cells.len(),
        bus.main.registered.contains(mmu.reservation),
        reservation_is_fresh(mmu, bus, cells, addr, seen),
    ensures
        reservation_is_fresh(mmu, bus, other.load_reserved_cells(bus, cells, addr), addr, seen),
        reservation_is_fresh(
            mmu,
            other.store_conditional_bus(bus, cells, addr, val),
            other.store_conditional_cells(bus, cells, addr),
            addr,
            seen,
        ),
{
    lemma_store_conditional_result(other, bus, cells, addr);
    if other.holds_reservation(cells, addr) {
        lemma_store_conditional_succeeds(other, bus, cells, addr, val);
    } else {
        lemma_store_conditional_fails(other, bus, cells, addr, val);
    }
}

} // verus!
