use vstd::prelude::*;

verus! {

/// The value of a reservation cell that holds no reservation.
pub const NO_RESERVATION: u32 = 0xffff_ffff;

/// The identifier of the 64-byte reservation set that holds the address.
pub open spec fn reservation_set_of(addr: u32) -> u32 {
    addr / 64
}

/// The identifier of the 64-byte reservation set that holds the address.
pub fn addr_to_reservation_set(addr: u32) -> (set: u32)
    ensures
        set == reservation_set_of(addr),
        set < 0x0400_0000,
{
    addr / 64
}

/// The cells after every registered cell that holds one of `sets` lost its reservation.
pub open spec fn invalidated(cells: Seq<u32>, registered: Seq<usize>, sets: Set<u32>) -> Seq<u32> {
    Seq::new(
        cells.len(),
        |k: int|
            if registered.contains(k as usize) && sets.contains(cells[k]) {
                NO_RESERVATION
            } else {
                cells[k]
            },
    )
}

/// The reservation sets from `first` to `last`, both included.
pub open spec fn set_range(first: u32, last: u32) -> Set<u32> {
    Set::new(|s: u32| first <= s <= last)
}

/// The reservation cells of the harts: one 32-bit word each, which holds the
/// identifier of the reservation set that the hart has reserved, or
/// `NO_RESERVATION`. A hart names its cell by the cell's index.
pub struct Reservations {
    cells: Vec<u32>,
}

impl Reservations {
    /// The cells, by index.
    pub closed spec fn view(&self) -> Seq<u32> {
        self.cells@
    }

    /// What the cell `cell` holds; a cell that does not exist holds no reservation.
    pub open spec fn spec_load(&self, cell: usize) -> u32 {
        if cell < self@.len() {
            self@[cell as int]
        } else {
            NO_RESERVATION
        }
    }

    /// No cells.
    pub fn new() -> (r: Reservations)
        ensures
            r@ == Seq::<u32>::empty(),
    {
        Reservations { cells: Vec::new() }
    }

    /// The number of cells.
    pub fn len(&self) -> (n: usize)
        ensures
            n == self@.len(),
    {
        self.cells.len()
    }

    /// Adds a cell that holds no reservation and returns its index.
    pub fn add_cell(&mut self) -> (cell: usize)
        ensures
            cell == old(self)@.len(),
            final(self)@ == old(self)@.push(NO_RESERVATION),
    {
        let cell: usize = self.cells.len();
        self.cells.push(NO_RESERVATION);
        cell
    }

    /// Reads a cell. A cell that does not exist reads as holding no reservation.
    pub fn load(&self, cell: usize) -> (v: u32)
        ensures
            v == self.spec_load(cell),
    {
        if cell < self.cells.len() {
            self.cells[cell]
        } else {
            NO_RESERVATION
        }
    }

    /// Writes a cell. A write to a cell that does not exist is dropped.
    pub fn store(&mut self, cell: usize, value: u32)
        ensures
            final(self)@ == (if cell < old(self)@.len() {
                old(self)@.update(cell as int, value)
            } else {
                old(self)@
            }),
    {
        if cell < self.cells.len() {
            self.cells[cell] = value;
        }
    }

    /// Writes `new` to the cell if it exists and holds `current`, and says whether it did.
    pub fn compare_exchange(&mut self, cell: usize, current: u32, new: u32) -> (swapped: bool)
        ensures
            swapped == (cell < old(self)@.len() && old(self)@[cell as int] == current),
            final(self)@ == (if swapped {
                old(self)@.update(cell as int, new)
            } else {
                old(self)@
            }),
    {
        if cell < self.cells.len() && self.cells[cell] == current {
            self.cells[cell] = new;
            true
        } else {
            false
        }
    }

    /// Takes the reservation from every cell of `registered` that holds a set from
    /// `first` to `last`.
    pub fn invalidate_range(&mut self, registered: &Vec<usize>, first: u32, last: u32)
        ensures
            final(self)@ == invalidated(old(self)@, registered@, set_range(first, last)),
    {
        let ghost before = self@;
        let mut i: usize = 0;
        while i < registered.len()
            invariant
                i <= registered.len(),
                self@.len() == before.len(),
                forall|k: int|
                    0 <= k < before.len() ==> #[trigger] self@[k] == (if registered@.subrange(0, i as int).contains(
                        k as usize,
                    ) && first <= before[k] <= last {
                        NO_RESERVATION
                    } else {
                        before[k]
                    }),
            decreases registered.len() - i,
        {
            let cell: usize = registered[i];
            let ghost prefix = registered@.subrange(0, i as int);
            let ghost next = registered@.subrange(0, i + 1);
            assert(next == prefix.push(cell));
            assert(forall|k: usize| next.contains(k) <==> (prefix.contains(k) || k == cell)) by {
                assert forall|k: usize| next.contains(k) implies (prefix.contains(k) || k == cell) by {
                    let j = choose|j: int| 0 <= j < next.len() && next[j] == k;
                    if j < prefix.len() {
                        assert(prefix[j] == k);
                    }
                }
                assert forall|k: usize| (prefix.contains(k) || k == cell) implies next.contains(k) by {
                    if k == cell {
                        assert(next[i as int] == k);
                    } else {
                        let j = choose|j: int| 0 <= j < prefix.len() && prefix[j] == k;
                        assert(next[j] == k);
                    }
                }
            }
            if cell < self.cells.len() {
                let held: u32 = self.cells[cell];
                if first <= held && held <= last {
                    self.cells[cell] = NO_RESERVATION;
                }
            }
            i = i + 1;
        }
        assert(registered@.subrange(0, i as int) == registered@);
        assert(self@ =~= invalidated(before, registered@, set_range(first, last)));
    }
}

/// Takes the reservation from every cell of `reservations` that holds `should_be`.
pub fn helper_invalidate_reservations(cells: &mut Reservations, reservations: &Vec<usize>, should_be: u32)
    ensures
        final(cells)@ == invalidated(old(cells)@, reservations@, set_range(should_be, should_be)),
{
    cells.invalidate_range(reservations, should_be, should_be);
}

/// Tests whether the cell `reservation` still holds `should_be`, and takes the
/// reservation from it if so. Returns 0 if it held it and 1 if not.
pub fn helper_check_reservation(cells: &mut Reservations, reservation: usize, should_be: u32) -> (failed: u32)
    ensures
        failed == (if old(cells).spec_load(reservation) == should_be && reservation < old(cells)@.len() {
            0u32
        } else {
            1u32
        }),
        final(cells)@ == (if failed == 0 {
            old(cells)@.update(reservation as int, NO_RESERVATION)
        } else {
            old(cells)@
        }),
{
    if cells.compare_exchange(reservation, should_be, NO_RESERVATION) {
        0
    } else {
        1
    }
}

/// Invalidating for one group of sets and then for another is invalidating for both.
pub proof fn lemma_invalidated_twice(cells: Seq<u32>, registered: Seq<usize>, a: Set<u32>, b: Set<u32>)
    ensures
        invalidated(invalidated(cells, registered, a), registered, b) == invalidated(
            cells,
            registered,
            a.union(b),
        ),
{
    assert(invalidated(invalidated(cells, registered, a), registered, b) =~= invalidated(
        cells,
        registered,
        a.union(b),
    ));
}

} // verus!
