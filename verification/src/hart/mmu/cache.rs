use vstd::prelude::*;
use crate::hart::mmu::cache::block::Block;
use crate::hart::mmu::cache::block::BlockView;
use crate::hart::mmu::cache::set::CacheSet;
use crate::hart::mmu::cache::set::SetView;
use crate::hart::mmu::cache::types::block_addr;
use crate::hart::mmu::cache::types::block_len;
use crate::hart::mmu::cache::types::geometry_ok;
use crate::hart::mmu::cache::types::lemma_pow2_positive;
use crate::hart::mmu::cache::types::lemma_split;
use crate::hart::mmu::cache::types::offset_of;
use crate::hart::mmu::cache::types::set_count;
use crate::hart::mmu::cache::types::set_of;
use crate::hart::mmu::cache::types::tag_of;
use crate::hart::mmu::cache::types::Addr;
use crate::hart::mmu::cache::types::BlockOffset;
use crate::hart::mmu::cache::types::SetIndex;
use crate::hart::mmu::cache::types::Tag;
use crate::hart::mmu::cache::types::TagSet;
use crate::hart::mmu::cache::types::INVALID_TAG;

pub mod block;
pub mod set;
pub mod types;

verus! {

/// A cache as a value: its sets.
#[verifier::ext_equal]
pub struct CacheView<T, U> {
    pub sets: Seq<SetView<T, U>>,
}

/// What a block drove out of the cache: the address of its first entry, its entries, its tracker.
pub type Evicted<T, U> = (u32, Vec<T>, U);

impl<T, U> CacheView<T, U> {
    /// The cache has `2^s` sets of `a` slots with blocks of `2^b` entries.
    pub open spec fn wf(self, s: u32, a: int, b: u32) -> bool {
        &&& 1 <= s + b < 32
        &&& self.sets.len() == set_count(s)
        &&& forall|i: int| 0 <= i < self.sets.len() ==> (#[trigger] self.sets[i]).wf(a, block_len(b) as int)
    }

    /// The set in which the address has its place.
    pub open spec fn set_at(self, addr: u32, s: u32, b: u32) -> SetView<T, U> {
        self.sets[set_of(addr, s, b) as int]
    }

    /// Whether the cache holds the block of the address.
    pub open spec fn resident(self, addr: u32, s: u32, b: u32) -> bool {
        self.set_at(addr, s, b).hit(tag_of(addr, s, b))
    }

    /// The slot in its set of the block of the address.
    pub open spec fn slot_of(self, addr: u32, s: u32, b: u32) -> int {
        self.set_at(addr, s, b).find(tag_of(addr, s, b))
    }

    /// The block of the address, if the cache holds it.
    pub open spec fn line(self, addr: u32, s: u32, b: u32) -> BlockView<T, U> {
        self.set_at(addr, s, b).blocks[self.slot_of(addr, s, b)]
    }

    /// Whether the block of the address was changed since it came into the cache.
    pub open spec fn dirty(self, addr: u32, s: u32, b: u32) -> bool {
        self.set_at(addr, s, b).dirty[self.slot_of(addr, s, b)]
    }

    /// The entry at the address, if the cache holds its block.
    pub open spec fn lookup(self, addr: u32, s: u32, b: u32) -> Option<T> {
        if self.resident(addr, s, b) {
            Some(self.line(addr, s, b).data[offset_of(addr, b) as int])
        } else {
            None
        }
    }

    /// What the block of the address drives out when it comes into the
    /// cache: the address of the first entry of the block that held its
    /// slot, and that block, if it was changed.
    pub open spec fn evicted(self, addr: u32, s: u32, b: u32) -> Option<(u32, BlockView<T, U>)> {
        match self.set_at(addr, s, b).evicted(tag_of(addr, s, b)) {
            Some((tag, block)) => Some((block_addr(tag, set_of(addr, s, b), s, b), block)),
            None => None,
        }
    }

    /// The cache after `block` came in as the block of the address.
    pub open spec fn insert(self, addr: u32, s: u32, b: u32, block: BlockView<T, U>) -> CacheView<T, U> {
        CacheView {
            sets: self.sets.update(
                set_of(addr, s, b) as int,
                self.set_at(addr, s, b).insert(tag_of(addr, s, b), block),
            ),
        }
    }

    /// The cache after the block of the address was changed to `block`.
    pub open spec fn changed(self, addr: u32, s: u32, b: u32, block: BlockView<T, U>) -> CacheView<T, U> {
        CacheView {
            sets: self.sets.update(
                set_of(addr, s, b) as int,
                self.set_at(addr, s, b).changed(self.slot_of(addr, s, b), block),
            ),
        }
    }

    /// The cache after the entry at the address was changed to `entry` and
    /// the tracker of its block to `tracker`.
    pub open spec fn written(self, addr: u32, s: u32, b: u32, entry: T, tracker: U) -> CacheView<T, U> {
        self.changed(
            addr,
            s,
            b,
            BlockView { data: self.line(addr, s, b).data.update(offset_of(addr, b) as int, entry), tracker },
        )
    }

    /// A cache stays well formed when a block in it changes and keeps its length.
    pub proof fn lemma_changed(self, s: u32, a: int, b: u32, addr: u32, block: BlockView<T, U>)
        requires
            self.wf(s, a, b),
            self.resident(addr, s, b),
            block.data.len() == block_len(b),
        ensures
            self.changed(addr, s, b, block).wf(s, a, b),
    {
        lemma_split(addr, s, b);
        let set = self.set_at(addr, s, b);
        set.lemma_find_from(tag_of(addr, s, b), 0);
        set.lemma_changed(a, block_len(b) as int, self.slot_of(addr, s, b), block);
    }

    /// A block that is driven out has the length of a block.
    pub proof fn lemma_evicted(self, s: u32, a: int, b: u32, addr: u32)
        requires
            self.wf(s, a, b),
        ensures
            self.evicted(addr, s, b) matches Some((_, block)) ==> block.data.len() == block_len(b),
    {
        lemma_split(addr, s, b);
        let set = self.set_at(addr, s, b);
        set.lemma_find_from(tag_of(addr, s, b), 0);
        set.lemma_find_from(INVALID_TAG, 0);
        assert(set.blocks[set.slot_for(tag_of(addr, s, b))].data.len() == block_len(b));
    }

    /// A cache stays well formed when a block comes in, and then holds the block.
    pub proof fn lemma_insert(self, s: u32, a: int, b: u32, addr: u32, block: BlockView<T, U>)
        requires
            self.wf(s, a, b),
            block.data.len() == block_len(b),
        ensures
            self.insert(addr, s, b, block).wf(s, a, b),
            self.insert(addr, s, b, block).resident(addr, s, b),
            self.insert(addr, s, b, block).line(addr, s, b) == block,
            !self.insert(addr, s, b, block).dirty(addr, s, b),
    {
        lemma_split(addr, s, b);
        let set = self.set_at(addr, s, b);
        set.lemma_insert(a, block_len(b) as int, tag_of(addr, s, b), block);
    }

    /// Whether every slot of the cache is free.
    pub open spec fn is_empty(self) -> bool {
        forall|s: int, i: int|
            0 <= s < self.sets.len() && 0 <= i < self.sets[s].tags.len() ==> (#[trigger] self.sets[s].tags[i])
                == INVALID_TAG
    }

    /// The cache with every slot free.
    pub open spec fn cleared(self) -> CacheView<T, U> {
        CacheView { sets: Seq::new(self.sets.len(), |i: int| self.sets[i].cleared()) }
    }
}

/// Whether `got` is what the model says was driven out.
pub open spec fn is_eviction<T, U>(expected: Option<(u32, BlockView<T, U>)>, got: Option<Evicted<T, U>>) -> bool {
    match expected {
        Some((addr, block)) => got matches Some((a, data, tracker)) && a == addr && data@ == block.data && tracker
            == block.tracker,
        None => got is None,
    }
}

/// A set-associative cache of `2^S` sets with `A` slots each; a slot holds a
/// block of `2^B` entries of `T` with a tracker `U`. An address counts
/// entries: its `B` lowest bits are the offset in the block, the next `S`
/// bits choose the set, the rest is the tag.
pub struct Cache<T, U, const S: usize, const A: usize, const B: usize> {
    sets: Vec<CacheSet<T, U, S, A, B>>,
}

impl<T: Copy, U: Copy, const S: usize, const A: usize, const B: usize> Cache<T, U, S, A, B> {
    pub closed spec fn view(&self) -> CacheView<T, U> {
        CacheView { sets: Seq::new(self.sets@.len(), |i: int| self.sets@[i]@) }
    }

    /// The cache has `2^S` sets of `A` slots with blocks of `2^B` entries,
    /// and no set holds a block twice.
    pub open spec fn wf(&self) -> bool {
        &&& geometry_ok(S, A, B)
        &&& self@.wf(S as u32, A as int, B as u32)
    }

    /// A cache that holds no block. Its blocks are filled with `fresh` and `clean`.
    pub fn filled(fresh: T, clean: U) -> (cache: Self)
        requires
            geometry_ok(S, A, B),
        ensures
            cache.wf(),
            cache@.is_empty(),
            forall|addr: u32| !(#[trigger] cache@.resident(addr, S as u32, B as u32)),
    {
        let s: u32 = S as u32;
        proof {
            lemma_pow2_positive(s);
        }
        let count: u32 = 1u32 << s;
        let mut sets: Vec<CacheSet<T, U, S, A, B>> = Vec::new();
        let mut i: u32 = 0;
        while i < count
            invariant
                i <= count,
                geometry_ok(S, A, B),
                sets@.len() == i,
                forall|k: int| 0 <= k < i ==> (#[trigger] sets@[k]).wf(),
                forall|k: int, j: int| 0 <= k < i && 0 <= j < A ==> (#[trigger] sets@[k]@.tags[j]) == INVALID_TAG,
            decreases count - i,
        {
            sets.push(CacheSet::filled(fresh, clean));
            i = i + 1;
        }
        let cache = Cache { sets };
        assert forall|k: int| 0 <= k < cache@.sets.len() implies (#[trigger] cache@.sets[k]).wf(
            A as int,
            block_len(B as u32) as int,
        ) by {
            assert(cache.sets@[k].wf());
        }
        assert forall|s: int, i: int|
            0 <= s < cache@.sets.len() && 0 <= i < cache@.sets[s].tags.len() implies (#[trigger] cache@.sets[s].tags[i])
            == INVALID_TAG by {
            assert(cache.sets@[s].wf());
            assert(cache.sets@[s]@.tags[i] == INVALID_TAG);
        }
        assert forall|addr: u32| !(#[trigger] cache@.resident(addr, S as u32, B as u32)) by {
            lemma_split(addr, S as u32, B as u32);
            let set = cache@.set_at(addr, S as u32, B as u32);
            let tag = tag_of(addr, S as u32, B as u32);
            set.lemma_find_from(tag, 0);
            if set.find(tag) < set.tags.len() {
                assert(cache.sets@[set_of(addr, S as u32, B as u32) as int]@.tags[set.find(tag)] == INVALID_TAG);
            }
        }
        cache
    }

    /// A cache that holds no block.
    pub fn new() -> (cache: Self) where T: Default, U: Default
        requires
            geometry_ok(S, A, B),
            call_requires(T::default, ()),
            call_requires(U::default, ()),
        ensures
            cache.wf(),
            cache@.is_empty(),
            forall|addr: u32| !(#[trigger] cache@.resident(addr, S as u32, B as u32)),
    {
        Self::filled(T::default(), U::default())
    }

    /// The address, as the cache sees it.
    pub fn addr_from_u32(addr: u32) -> (a: Addr<S, B>)
        ensures
            a@ == addr,
    {
        Addr::from_u32(addr)
    }

    /// The block under the tag in the set, if the cache holds it.
    pub fn get_block(&self, cts: TagSet<S, B>) -> (r: Option<&Block<T, U, B>>)
        requires
            self.wf(),
        ensures
            r is Some <==> self@.resident(cts@, S as u32, B as u32),
            r matches Some(block) ==> block@ == self@.line(cts@, S as u32, B as u32) && block.wf(),
    {
        let si: usize = cts.set().raw() as usize;
        assert(self@.sets[si as int] == self.sets@[si as int]@);
        assert(self.sets@[si as int].wf());
        self.sets[si].get_block(cts.tag())
    }

    /// The block under the tag in the set, to be changed, if the cache holds
    /// it. The block is dirty from now on.
    pub fn get_block_mut(&mut self, cts: TagSet<S, B>) -> (r: Option<&mut Block<T, U, B>>)
        requires
            old(self).wf(),
        ensures
            r is Some <==> old(self)@.resident(cts@, S as u32, B as u32),
            r matches Some(block) ==> {
                &&& block@ == old(self)@.line(cts@, S as u32, B as u32)
                &&& block.wf()
                &&& final(self)@ == old(self)@.changed(cts@, S as u32, B as u32, final(block)@)
            },
            r is None ==> final(self)@ == old(self)@,
    {
        let si: usize = cts.set().raw() as usize;
        assert(self@.sets[si as int] == self.sets@[si as int]@);
        assert(self.sets@[si as int].wf());
        self.sets[si].get_block_mut(cts.tag())
    }

    /// The entry at the address, if the cache holds its block.
    pub fn get(&self, addr: u32) -> (r: Option<&T>)
        requires
            self.wf(),
        ensures
            r is Some <==> self@.resident(addr, S as u32, B as u32),
            r matches Some(entry) ==> Some(*entry) == self@.lookup(addr, S as u32, B as u32),
    {
        let a = Self::addr_from_u32(addr);
        match self.get_block(a.tag_set()) {
            Some(block) => Some(block.get(a.offset())),
            None => None,
        }
    }

    /// The entry at the address and the tracker of its block, to be changed,
    /// if the cache holds the block. The block is dirty from now on.
    pub fn get_mut(&mut self, addr: u32) -> (r: Option<(&mut T, &mut U)>)
        requires
            old(self).wf(),
        ensures
            r is Some <==> old(self)@.resident(addr, S as u32, B as u32),
            r matches Some((entry, tracker)) ==> {
                &&& Some(*entry) == old(self)@.lookup(addr, S as u32, B as u32)
                &&& *tracker == old(self)@.line(addr, S as u32, B as u32).tracker
                &&& final(self)@ == old(self)@.written(addr, S as u32, B as u32, *final(entry), *final(tracker))
            },
            r is None ==> final(self)@ == old(self)@,
            final(self).wf(),
    {
        let a = Self::addr_from_u32(addr);
        proof {
            let before = self@;
            assert forall|e: T, t: U| before.resident(addr, S as u32, B as u32) implies (#[trigger] before.written(
                addr,
                S as u32,
                B as u32,
                e,
                t,
            )).wf(S as u32, A as int, B as u32) by {
                lemma_split(addr, S as u32, B as u32);
                before.set_at(addr, S as u32, B as u32).lemma_find_from(tag_of(addr, S as u32, B as u32), 0);
                before.lemma_changed(
                    S as u32,
                    A as int,
                    B as u32,
                    addr,
                    BlockView {
                        data: before.line(addr, S as u32, B as u32).data.update(
                            offset_of(addr, B as u32) as int,
                            e,
                        ),
                        tracker: t,
                    },
                );
            }
        }
        match self.get_block_mut(a.tag_set()) {
            Some(block) => Some(block.get_mut(a.offset())),
            None => None,
        }
    }

    /// Turns what a set gave up into what the cache gives up.
    fn eviction_of(addr: Addr<S, B>, victim: Option<(Tag<S, B>, Block<T, U, B>)>) -> (r: Option<Evicted<T, U>>)
        requires
            geometry_ok(S, A, B),
        ensures
            match victim {
                Some((tag, block)) => r matches Some((a, data, tracker)) && a == block_addr(
                    tag@,
                    set_of(addr@, S as u32, B as u32),
                    S as u32,
                    B as u32,
                ) && data@ == block@.data && tracker == block@.tracker,
                None => r is None,
            },
    {
        match victim {
            Some((tag, block)) => {
                let shift: u32 = (S + B) as u32;
                let b: u32 = B as u32;
                let (data, tracker) = block.into_parts();
                Some(((tag.raw() << shift) | (addr.set().raw() << b), data, tracker))
            },
            None => None,
        }
    }

    /// Puts a block in as the block of the address. The block is clean
    /// afterwards, with a default tracker. Returns what it drove out: the
    /// address of the first entry, the entries and the tracker of the block
    /// that held its slot, if that block was changed.
    pub fn insert(&mut self, addr: u32, block: Vec<T>) -> (r: Option<Evicted<T, U>>) where U: Default
        requires
            old(self).wf(),
            block@.len() == block_len(B as u32),
            call_requires(U::default, ()),
        ensures
            final(self).wf(),
            is_eviction(old(self)@.evicted(addr, S as u32, B as u32), r),
            exists|t: U| #[trigger]
                call_ensures(U::default, (), t) && final(self)@ == old(self)@.insert(
                    addr,
                    S as u32,
                    B as u32,
                    BlockView { data: block@, tracker: t },
                ),
    {
        let a = Self::addr_from_u32(addr);
        let si: usize = a.set().raw() as usize;
        let ghost before = self@;
        assert(self@.sets[si as int] == self.sets@[si as int]@);
        assert(self.sets@[si as int].wf());
        let filled = Block::with_data(block);
        let ghost inserted = filled@;
        let (_, victim) = self.sets[si].insert(a.tag(), filled);
        proof {
            before.lemma_insert(S as u32, A as int, B as u32, addr, inserted);
            assert(self@ =~= before.insert(addr, S as u32, B as u32, inserted));
        }
        Self::eviction_of(a, victim)
    }

    /// Fills a block and puts it in as the block of the address, as `insert`
    /// does. If `f` fails, so does this, and the cache stays as it is.
    pub fn insert_with<F, E>(&mut self, addr: u32, f: F) -> (r: Result<Option<Evicted<T, U>>, E>) where
        F: FnOnce() -> Result<Vec<T>, E>,
        U: Default,

        requires
            old(self).wf(),
            f.requires(()),
            call_requires(U::default, ()),
            forall|d: Vec<T>| f.ensures((), Ok(d)) ==> d@.len() == block_len(B as u32),
        ensures
            final(self).wf(),
            match r {
                Ok(victim) => {
                    &&& is_eviction(old(self)@.evicted(addr, S as u32, B as u32), victim)
                    &&& exists|d: Vec<T>, t: U| #[trigger]
                        f.ensures((), Ok(d)) && #[trigger] call_ensures(U::default, (), t) && final(self)@ == old(
                            self,
                        )@.insert(addr, S as u32, B as u32, BlockView { data: d@, tracker: t })
                },
                Err(e) => f.ensures((), Err(e)) && final(self)@ == old(self)@,
            },
    {
        match f() {
            Ok(data) => Ok(self.insert(addr, data)),
            Err(e) => Err(e),
        }
    }

    /// The entry at the address. If the cache does not hold its block, the
    /// block is filled and put in first: it goes into the first free slot of
    /// its set, else into the slot whose turn it is, and is clean. With the
    /// entry comes what the block drove out. If `f` fails, so does this, and
    /// the cache stays as it is.
    pub fn get_or_insert_with<F, E>(&mut self, addr: u32, f: F) -> (r: Result<(&T, Option<Evicted<T, U>>), E>) where
        F: FnOnce() -> Result<Vec<T>, E>,
        U: Default,

        requires
            old(self).wf(),
            f.requires(()),
            call_requires(U::default, ()),
            forall|d: Vec<T>| f.ensures((), Ok(d)) ==> d@.len() == block_len(B as u32),
        ensures
            final(self).wf(),
            old(self)@.resident(addr, S as u32, B as u32) ==> {
                &&& final(self)@ == old(self)@
                &&& r matches Ok((entry, victim))
                &&& Some(*entry) == old(self)@.lookup(addr, S as u32, B as u32)
                &&& victim is None
            },
            !old(self)@.resident(addr, S as u32, B as u32) ==> match r {
                Ok((entry, victim)) => {
                    &&& is_eviction(old(self)@.evicted(addr, S as u32, B as u32), victim)
                    &&& exists|d: Vec<T>, t: U| #[trigger]
                        f.ensures((), Ok(d)) && #[trigger] call_ensures(U::default, (), t) && *entry
                            == d@[offset_of(addr, B as u32) as int] && final(self)@ == old(self)@.insert(
                            addr,
                            S as u32,
                            B as u32,
                            BlockView { data: d@, tracker: t },
                        )
                },
                Err(e) => f.ensures((), Err(e)) && final(self)@ == old(self)@,
            },
    {
        let a = Self::addr_from_u32(addr);
        let si: usize = a.set().raw() as usize;
        let ghost before = self@;
        assert(self@.sets[si as int] == self.sets@[si as int]@);
        assert(self.sets@[si as int].wf());
        if self.sets[si].get_block(a.tag()).is_none() {
            match self.insert_with(addr, f) {
                Ok(victim) => {
                    proof {
                        let (d, t) = choose|d: Vec<T>, t: U| #[trigger]
                            f.ensures((), Ok(d)) && #[trigger] call_ensures(U::default, (), t) && self@
                                == before.insert(addr, S as u32, B as u32, BlockView { data: d@, tracker: t });
                        before.lemma_insert(S as u32, A as int, B as u32, addr, BlockView { data: d@, tracker: t });
                    }
                    match self.get(addr) {
                        Some(entry) => Ok((entry, victim)),
                        None => vstd::pervasive::unreached(),
                    }
                },
                Err(e) => Err(e),
            }
        } else {
            match self.get(addr) {
                Some(entry) => Ok((entry, None)),
                None => vstd::pervasive::unreached(),
            }
        }
    }

    /// The entry at the address and the tracker of its block, to be changed.
    /// If the cache does not hold the block, the block is filled and put in
    /// first, as `get_or_insert_with` does. The block is dirty afterwards.
    pub fn get_mut_or_insert_with<F, E>(&mut self, addr: u32, f: F) -> (r: Result<
        ((&mut T, &mut U), Option<Evicted<T, U>>),
        E,
    >) where F: FnOnce() -> Result<Vec<T>, E>, U: Default
        requires
            old(self).wf(),
            f.requires(()),
            call_requires(U::default, ()),
            forall|d: Vec<T>| f.ensures((), Ok(d)) ==> d@.len() == block_len(B as u32),
        ensures
            final(self).wf(),
            old(self)@.resident(addr, S as u32, B as u32) ==> {
                &&& r matches Ok(((entry, tracker), victim))
                &&& Some(*entry) == old(self)@.lookup(addr, S as u32, B as u32)
                &&& *tracker == old(self)@.line(addr, S as u32, B as u32).tracker
                &&& victim is None
                &&& final(self)@ == old(self)@.written(addr, S as u32, B as u32, *final(entry), *final(tracker))
            },
            !old(self)@.resident(addr, S as u32, B as u32) ==> match r {
                Ok(((entry, tracker), victim)) => {
                    &&& is_eviction(old(self)@.evicted(addr, S as u32, B as u32), victim)
                    &&& exists|d: Vec<T>, t: U| #[trigger]
                        f.ensures((), Ok(d)) && #[trigger] call_ensures(U::default, (), t) && *entry
                            == d@[offset_of(addr, B as u32) as int] && *tracker == t && final(self)@ == old(
                            self,
                        )@.insert(addr, S as u32, B as u32, BlockView { data: d@, tracker: t }).written(
                            addr,
                            S as u32,
                            B as u32,
                            *final(entry),
                            *final(tracker),
                        )
                },
                Err(e) => f.ensures((), Err(e)) && final(self)@ == old(self)@,
            },
    {
        let a = Self::addr_from_u32(addr);
        let si: usize = a.set().raw() as usize;
        let ghost before = self@;
        assert(self@.sets[si as int] == self.sets@[si as int]@);
        assert(self.sets@[si as int].wf());
        if self.sets[si].get_block(a.tag()).is_none() {
            match self.insert_with(addr, f) {
                Ok(victim) => {
                    proof {
                        let (d, t) = choose|d: Vec<T>, t: U| #[trigger]
                            f.ensures((), Ok(d)) && #[trigger] call_ensures(U::default, (), t) && self@
                                == before.insert(addr, S as u32, B as u32, BlockView { data: d@, tracker: t });
                        before.lemma_insert(S as u32, A as int, B as u32, addr, BlockView { data: d@, tracker: t });
                    }
                    match self.get_mut(addr) {
                        Some(pair) => Ok((pair, victim)),
                        None => vstd::pervasive::unreached(),
                    }
                },
                Err(e) => Err(e),
            }
        } else {
            match self.get_mut(addr) {
                Some(pair) => Ok((pair, None)),
                None => vstd::pervasive::unreached(),
            }
        }
    }

    /// Frees every slot of the cache. What the cache held is lost.
    pub fn clear(&mut self)
        requires
            old(self).wf(),
        ensures
            final(self).wf(),
            final(self)@ == old(self)@.cleared(),
            final(self)@.is_empty(),
            forall|addr: u32| !(#[trigger] final(self)@.resident(addr, S as u32, B as u32)),
    {
        let ghost before = self@;
        let mut i: usize = 0;
        while i < self.sets.len()
            invariant
                i <= self.sets@.len(),
                self.sets@.len() == before.sets.len(),
                geometry_ok(S, A, B),
                before.wf(S as u32, A as int, B as u32),
                forall|k: int| 0 <= k < i ==> (#[trigger] self.sets@[k]).wf() && self.sets@[k]@ == before.sets[k].cleared(),
                forall|k: int| i <= k < self.sets@.len() ==> (#[trigger] self.sets@[k])@ == before.sets[k],
            decreases self.sets.len() - i,
        {
            assert(self.sets@[i as int]@ == before.sets[i as int]);
            assert(self.sets@[i as int].wf());
            self.sets[i].clear();
            i = i + 1;
        }
        assert(self@ =~= before.cleared());
        assert forall|k: int| 0 <= k < self@.sets.len() implies (#[trigger] self@.sets[k]).wf(
            A as int,
            block_len(B as u32) as int,
        ) by {
            assert(self.sets@[k].wf());
        }
        assert forall|addr: u32| !(#[trigger] self@.resident(addr, S as u32, B as u32)) by {
            lemma_split(addr, S as u32, B as u32);
            let set = self@.set_at(addr, S as u32, B as u32);
            let tag = tag_of(addr, S as u32, B as u32);
            set.lemma_find_from(tag, 0);
        }
    }
}

} // verus!
