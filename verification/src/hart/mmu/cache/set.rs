use vstd::prelude::*;
use crate::hart::mmu::cache::block::copy_of;
use crate::hart::mmu::cache::block::Block;
use crate::hart::mmu::cache::block::BlockView;
use crate::hart::mmu::cache::types::block_len;
use crate::hart::mmu::cache::types::Tag;
use crate::hart::mmu::cache::types::INVALID_TAG;

verus! {

/// A set of a cache as a value: its slots with their tags and dirty flags,
/// and the slot that is replaced next when none is free.
#[verifier::ext_equal]
pub struct SetView<T, U> {
    pub blocks: Seq<BlockView<T, U>>,
    pub tags: Seq<u32>,
    pub dirty: Seq<bool>,
    pub victim: int,
}

impl<T, U> SetView<T, U> {
    /// The set has `a` slots with blocks of `len` entries, and no two slots hold the same block.
    pub open spec fn wf(self, a: int, len: int) -> bool {
        &&& a >= 1
        &&& self.blocks.len() == a
        &&& self.tags.len() == a
        &&& self.dirty.len() == a
        &&& 0 <= self.victim < a
        &&& forall|i: int| 0 <= i < a ==> (#[trigger] self.blocks[i]).data.len() == len
        &&& forall|i: int, j: int|
            0 <= i < a && 0 <= j < a && i != j && #[trigger] self.tags[i] == #[trigger] self.tags[j]
                ==> self.tags[i] == INVALID_TAG
    }

    /// The first slot from `i` on that holds the tag, or the number of slots.
    pub open spec fn find_from(self, tag: u32, i: int) -> int
        decreases self.tags.len() - i,
    {
        if i < 0 || i >= self.tags.len() {
            self.tags.len() as int
        } else if self.tags[i] == tag {
            i
        } else {
            self.find_from(tag, i + 1)
        }
    }

    /// The slot that holds the tag, or the number of slots.
    pub open spec fn find(self, tag: u32) -> int {
        self.find_from(tag, 0)
    }

    /// Whether a slot holds the block with this tag. No slot holds the invalid tag's block.
    pub open spec fn hit(self, tag: u32) -> bool {
        tag != INVALID_TAG && self.find(tag) < self.tags.len()
    }

    /// The first free slot, or the number of slots.
    pub open spec fn free(self) -> int {
        self.find(INVALID_TAG)
    }

    /// Whether a block with this tag takes the slot of another block.
    pub open spec fn replaces(self, tag: u32) -> bool {
        self.find(tag) >= self.tags.len() && self.free() >= self.tags.len()
    }

    /// The slot that a block with this tag goes into: the one that holds the
    /// tag already, else the first that is free, else the one whose turn it is.
    pub open spec fn slot_for(self, tag: u32) -> int {
        if self.find(tag) < self.tags.len() {
            self.find(tag)
        } else if self.free() < self.tags.len() {
            self.free()
        } else {
            self.victim
        }
    }

    /// What a block with this tag drives out: the tag and the block of its
    /// slot, if the slot held a block that was changed.
    pub open spec fn evicted(self, tag: u32) -> Option<(u32, BlockView<T, U>)> {
        let i = self.slot_for(tag);
        if self.tags[i] != INVALID_TAG && self.dirty[i] {
            Some((self.tags[i], self.blocks[i]))
        } else {
            None
        }
    }

    /// The set after the block went into its slot: the slot is clean, and
    /// the turn moves on if no slot was free.
    pub open spec fn insert(self, tag: u32, block: BlockView<T, U>) -> SetView<T, U> {
        let i = self.slot_for(tag);
        SetView {
            blocks: self.blocks.update(i, block),
            tags: self.tags.update(i, tag),
            dirty: self.dirty.update(i, false),
            victim: if self.replaces(tag) {
                (self.victim + 1) % (self.tags.len() as int)
            } else {
                self.victim
            },
        }
    }

    /// The set after the block in slot `i` was changed to `block`.
    pub open spec fn changed(self, i: int, block: BlockView<T, U>) -> SetView<T, U> {
        SetView { blocks: self.blocks.update(i, block), dirty: self.dirty.update(i, true), ..self }
    }

    /// The set with every slot free.
    pub open spec fn cleared(self) -> SetView<T, U> {
        SetView {
            blocks: self.blocks,
            tags: Seq::new(self.tags.len(), |i: int| INVALID_TAG),
            dirty: Seq::new(self.dirty.len(), |i: int| false),
            victim: 0,
        }
    }

    /// A set stays well formed when a block in it changes and keeps its length.
    pub proof fn lemma_changed(self, a: int, len: int, i: int, block: BlockView<T, U>)
        requires
            self.wf(a, len),
            0 <= i < a,
            block.data.len() == len,
        ensures
            self.changed(i, block).wf(a, len),
            forall|tag: u32| self.changed(i, block).find(tag) == self.find(tag),
    {
        let after = self.changed(i, block);
        assert forall|p: int, q: int|
            0 <= p < a && 0 <= q < a && p != q && #[trigger] after.tags[p] == #[trigger] after.tags[q] implies after.tags[p]
            == INVALID_TAG by {
            assert(self.tags[p] == self.tags[q]);
        }
        assert forall|tag: u32| after.find(tag) == self.find(tag) by {
            self.lemma_same_tags(after, tag, 0);
        }
    }

    /// Sets with the same tags find the same slots.
    pub proof fn lemma_same_tags(self, other: SetView<T, U>, tag: u32, i: int)
        requires
            self.tags == other.tags,
            0 <= i <= self.tags.len(),
        ensures
            self.find_from(tag, i) == other.find_from(tag, i),
        decreases self.tags.len() - i,
    {
        if i < self.tags.len() && self.tags[i] != tag {
            self.lemma_same_tags(other, tag, i + 1);
        }
    }

    /// A block that comes in drives out at most the block of its slot: every
    /// other block stays where it was, as it was.
    pub proof fn lemma_insert_keeps(self, a: int, len: int, tag: u32, block: BlockView<T, U>, other: u32)
        requires
            self.wf(a, len),
            tag != INVALID_TAG,
            other != INVALID_TAG,
            other != tag,
        ensures
            self.insert(tag, block).hit(other) <==> (self.hit(other) && self.find(other) != self.slot_for(tag)),
            self.insert(tag, block).hit(other) ==> {
                &&& self.insert(tag, block).find(other) == self.find(other)
                &&& self.insert(tag, block).blocks[self.find(other)] == self.blocks[self.find(other)]
                &&& self.insert(tag, block).dirty[self.find(other)] == self.dirty[self.find(other)]
            },
            0 <= self.slot_for(tag) < a,
            self.hit(other) ==> 0 <= self.find(other) < a && self.tags[self.find(other)] == other,
    {
        let after = self.insert(tag, block);
        let i = self.slot_for(tag);
        self.lemma_find_from(tag, 0);
        self.lemma_find_from(INVALID_TAG, 0);
        self.lemma_find_from(other, 0);
        after.lemma_find_from(other, 0);
        let f = self.find(other);
        let g = after.find(other);
        if self.hit(other) && f != i {
            assert(after.tags[f] == other);
            if g < f {
                assert(after.tags[g] == other);
                assert(self.tags[g] == other);
            }
        } else if self.hit(other) {
            if g < a {
                assert(after.tags[g] == other);
                assert(g != i);
                assert(self.tags[g] == self.tags[f]);
            }
        } else {
            if g < a {
                assert(after.tags[g] == other);
                assert(self.tags[g] == other);
            }
        }
    }

    /// The slot of a block that the set holds is the one slot with its tag.
    pub proof fn lemma_found(self, a: int, len: int, i: int)
        requires
            self.wf(a, len),
            0 <= i < a,
            self.tags[i] != INVALID_TAG,
        ensures
            self.hit(self.tags[i]),
            self.find(self.tags[i]) == i,
    {
        self.lemma_find_from(self.tags[i], 0);
        let f = self.find(self.tags[i]);
        assert(self.tags[f] == self.tags[i]);
    }

    /// The first slot found holds the tag, and no slot before it does.
    pub proof fn lemma_find_from(self, tag: u32, i: int)
        requires
            0 <= i <= self.tags.len(),
        ensures
            i <= self.find_from(tag, i) <= self.tags.len(),
            self.find_from(tag, i) < self.tags.len() ==> self.tags[self.find_from(tag, i)] == tag,
            forall|k: int| i <= k < self.find_from(tag, i) ==> self.tags[k] != tag,
        decreases self.tags.len() - i,
    {
        if i < self.tags.len() && self.tags[i] != tag {
            self.lemma_find_from(tag, i + 1);
        }
    }

    /// A set stays well formed when a block goes in, and then holds the block.
    pub proof fn lemma_insert(self, a: int, len: int, tag: u32, block: BlockView<T, U>)
        requires
            self.wf(a, len),
            tag != INVALID_TAG,
            block.data.len() == len,
        ensures
            self.insert(tag, block).wf(a, len),
            0 <= self.slot_for(tag) < a,
            self.insert(tag, block).hit(tag),
            self.insert(tag, block).find(tag) == self.slot_for(tag),
            self.insert(tag, block).blocks[self.slot_for(tag)] == block,
            !self.insert(tag, block).dirty[self.slot_for(tag)],
            forall|other: u32|
                other != tag && self.hit(other) && self.find(other) != self.slot_for(tag) ==> self.insert(
                    tag,
                    block,
                ).hit(other) && #[trigger] self.insert(tag, block).find(other) == self.find(other),
    {
        let after = self.insert(tag, block);
        let i = self.slot_for(tag);
        self.lemma_find_from(tag, 0);
        self.lemma_find_from(INVALID_TAG, 0);
        after.lemma_find_from(tag, 0);
        assert(after.tags[i] == tag);
        assert forall|p: int, q: int|
            0 <= p < a && 0 <= q < a && p != q && #[trigger] after.tags[p] == #[trigger] after.tags[q] implies after.tags[p]
            == INVALID_TAG by {
            if p == i || q == i {
                let o = if p == i {
                    q
                } else {
                    p
                };
                assert(self.tags[o] == tag);
                if self.find(tag) < self.tags.len() {
                    assert(self.tags[i] == self.tags[o]);
                }
            } else {
                assert(self.tags[p] == self.tags[q]);
            }
        }
        assert forall|other: u32|
            other != tag && self.hit(other) && self.find(other) != self.slot_for(tag) implies after.hit(other)
            && #[trigger] after.find(other) == self.find(other) by {
            self.lemma_find_from(other, 0);
            after.lemma_find_from(other, 0);
            let f = self.find(other);
            assert(after.tags[f] == other);
            if after.find(other) < f {
                let g = after.find(other);
                assert(after.tags[g] == other);
                assert(g != i);
                assert(self.tags[g] == other);
            }
        }
    }
}

/// A set of a cache: `A` slots, each with a block of `2^B` entries, a tag
/// and a dirty flag, and the turn for the replacement of a block.
pub struct CacheSet<T, U, const S: usize, const A: usize, const B: usize> {
    blocks: Vec<Block<T, U, B>>,
    tags: Vec<u32>,
    dirty: Vec<bool>,
    victim: usize,
}

impl<T: Copy, U: Copy, const S: usize, const A: usize, const B: usize> CacheSet<T, U, S, A, B> {
    pub closed spec fn view(&self) -> SetView<T, U> {
        SetView {
            blocks: Seq::new(self.blocks@.len(), |i: int| self.blocks@[i]@),
            tags: self.tags@,
            dirty: self.dirty@,
            victim: self.victim as int,
        }
    }

    /// The set has `A` slots with blocks of `2^B` entries, and no two slots hold the same block.
    pub open spec fn wf(&self) -> bool {
        self@.wf(A as int, block_len(B as u32) as int)
    }

    /// A set whose slots are all free; their blocks hold `fresh` and `clean`.
    pub fn filled(fresh: T, clean: U) -> (set: Self)
        requires
            B < 32,
            A >= 1,
        ensures
            set.wf(),
            set@.victim == 0,
            forall|i: int| 0 <= i < A ==> set@.tags[i] == INVALID_TAG && !set@.dirty[i],
    {
        let mut blocks: Vec<Block<T, U, B>> = Vec::new();
        let mut tags: Vec<u32> = Vec::new();
        let mut dirty: Vec<bool> = Vec::new();
        let mut i: usize = 0;
        while i < A
            invariant
                i <= A,
                B < 32,
                blocks@.len() == i,
                tags@.len() == i,
                dirty@.len() == i,
                forall|k: int| 0 <= k < i ==> (#[trigger] blocks@[k]).wf(),
                forall|k: int| 0 <= k < i ==> tags@[k] == INVALID_TAG && !dirty@[k],
            decreases A - i,
        {
            blocks.push(Block::filled(fresh, clean));
            tags.push(INVALID_TAG);
            dirty.push(false);
            i = i + 1;
        }
        let set = CacheSet { blocks, tags, dirty, victim: 0 };
        assert forall|k: int| 0 <= k < A implies (#[trigger] set@.blocks[k]).data.len() == block_len(B as u32) by {
            assert(set.blocks@[k].wf());
        }
        set
    }

    /// A set whose slots are all free.
    pub fn new() -> (set: Self) where T: Default, U: Default
        requires
            B < 32,
            A >= 1,
            call_requires(T::default, ()),
            call_requires(U::default, ()),
        ensures
            set.wf(),
            set@.victim == 0,
            forall|i: int| 0 <= i < A ==> set@.tags[i] == INVALID_TAG && !set@.dirty[i],
    {
        Self::filled(T::default(), U::default())
    }

    /// The slot that holds the tag, or the number of slots.
    fn position(&self, tag: u32) -> (i: usize)
        requires
            self.wf(),
        ensures
            i == self@.find(tag),
            i <= A,
            i < A ==> self@.tags[i as int] == tag,
    {
        let mut i: usize = 0;
        proof {
            self@.lemma_find_from(tag, 0);
        }
        while i < A
            invariant
                i <= A,
                self.wf(),
                self@.find(tag) == self@.find_from(tag, i as int),
            decreases A - i,
        {
            if self.tags[i] == tag {
                return i;
            }
            i = i + 1;
        }
        i
    }

    /// The block with the tag, if the set holds it.
    pub fn get_block(&self, tag: Tag<S, B>) -> (r: Option<&Block<T, U, B>>)
        requires
            self.wf(),
        ensures
            r is Some <==> self@.hit(tag@),
            r matches Some(block) ==> block@ == self@.blocks[self@.find(tag@)] && block.wf(),
    {
        if tag.is_invalid() {
            return None;
        }
        let i: usize = self.position(tag.raw());
        if i < A {
            assert(self@.blocks[i as int] == self.blocks@[i as int]@);
            Some(&self.blocks[i])
        } else {
            None
        }
    }

    /// The block with the tag, to be changed, if the set holds it. Its slot is dirty from now on.
    pub fn get_block_mut(&mut self, tag: Tag<S, B>) -> (r: Option<&mut Block<T, U, B>>)
        requires
            old(self).wf(),
        ensures
            r is Some <==> old(self)@.hit(tag@),
            r matches Some(block) ==> {
                &&& block@ == old(self)@.blocks[old(self)@.find(tag@)]
                &&& block.wf()
                &&& final(self)@ == old(self)@.changed(old(self)@.find(tag@), final(block)@)
            },
            r is None ==> final(self)@ == old(self)@,
    {
        if tag.is_invalid() {
            return None;
        }
        let i: usize = self.position(tag.raw());
        if i < A {
            assert(self@.blocks[i as int] == self.blocks@[i as int]@);
            self.dirty[i] = true;
            Some(&mut self.blocks[i])
        } else {
            None
        }
    }

    /// Frees every slot. What the slots held is lost.
    pub fn clear(&mut self)
        requires
            old(self).wf(),
        ensures
            final(self).wf(),
            final(self)@ == old(self)@.cleared(),
    {
        let ghost before = self@;
        let mut i: usize = 0;
        while i < A
            invariant
                i <= A,
                before.wf(A as int, block_len(B as u32) as int),
                self@.blocks == before.blocks,
                self@.tags.len() == A,
                self@.dirty.len() == A,
                forall|k: int| 0 <= k < i ==> self@.tags[k] == INVALID_TAG && !self@.dirty[k],
            decreases A - i,
        {
            self.tags[i] = INVALID_TAG;
            self.dirty[i] = false;
            i = i + 1;
        }
        self.victim = 0;
        assert(self@ =~= before.cleared());
    }

    /// Whether `got` is what the block with the tag drives out of the set `before`.
    pub open spec fn is_evicted(
        before: SetView<T, U>,
        tag: u32,
        got: Option<(Tag<S, B>, Block<T, U, B>)>,
    ) -> bool {
        match before.evicted(tag) {
            Some((t, b)) => got matches Some((tag_got, block_got)) && tag_got@ == t && block_got@ == b
                && block_got.wf(),
            None => got is None,
        }
    }

    /// Puts a block under the tag into the set, in the slot that holds the
    /// tag already, else in the first free slot, else in the slot whose turn
    /// it is. The slot is clean afterwards. Returns the block in its slot and
    /// what it drove out: the tag and the block of the slot, if the slot held
    /// a block that was changed.
    pub fn insert(&mut self, tag: Tag<S, B>, block: Block<T, U, B>) -> (r: (
        &mut Block<T, U, B>,
        Option<(Tag<S, B>, Block<T, U, B>)>,
    ))
        requires
            old(self).wf(),
            tag@ != INVALID_TAG,
            block.wf(),
        ensures
            r.0@ == block@,
            r.0.wf(),
            Self::is_evicted(old(self)@, tag@, r.1),
            final(self)@ == old(self)@.insert(tag@, final(r.0)@),
    {
        let held: usize = self.position(tag.raw());
        let free: usize = self.position(INVALID_TAG);
        let idx: usize = if held < A {
            held
        } else if free < A {
            free
        } else {
            let turn: usize = self.victim;
            self.victim = (self.victim + 1) % A;
            turn
        };
        assert(self@.blocks[idx as int] == self.blocks@[idx as int]@);
        assert(self.blocks@[idx as int].wf()) by {
            assert(self@.blocks[idx as int].data.len() == block_len(B as u32));
        }
        let victim_tag: u32 = self.tags[idx];
        let victim = if victim_tag != INVALID_TAG && self.dirty[idx] {
            Some((Tag::from_raw(victim_tag), self.blocks[idx].copy()))
        } else {
            None
        };
        self.tags[idx] = tag.raw();
        self.dirty[idx] = false;
        self.blocks[idx] = block;
        (&mut self.blocks[idx], victim)
    }

    /// Fills a block and puts it under the tag into the set, as `insert`
    /// does. If `f` fails, so does this, and the set stays as it is.
    pub fn insert_with<F, E>(&mut self, tag: Tag<S, B>, f: F) -> (r: Result<
        (&mut Block<T, U, B>, Option<(Tag<S, B>, Block<T, U, B>)>),
        E,
    >) where F: FnOnce() -> Result<Vec<T>, E>, U: Default
        requires
            old(self).wf(),
            tag@ != INVALID_TAG,
            f.requires(()),
            call_requires(U::default, ()),
            forall|d: Vec<T>| f.ensures((), Ok(d)) ==> d@.len() == block_len(B as u32),
        ensures
            match r {
                Ok((block, victim)) => {
                    &&& exists|d: Vec<T>| #[trigger] f.ensures((), Ok(d)) && block@.data == d@
                    &&& call_ensures(U::default, (), block@.tracker)
                    &&& block.wf()
                    &&& Self::is_evicted(old(self)@, tag@, victim)
                    &&& final(self)@ == old(self)@.insert(tag@, final(block)@)
                },
                Err(e) => f.ensures((), Err(e)) && final(self)@ == old(self)@,
            },
    {
        match f() {
            Ok(data) => {
                let block = Block::with_data(data);
                let (slot, victim) = self.insert(tag, block);
                Ok((slot, victim))
            },
            Err(e) => Err(e),
        }
    }

    /// The block with the tag; if the set does not hold it, the block is
    /// filled and put in first, as `insert_with` does.
    pub fn get_block_or_insert_with<F, E>(&mut self, tag: Tag<S, B>, f: F) -> (r: Result<
        (&Block<T, U, B>, Option<(Tag<S, B>, Block<T, U, B>)>),
        E,
    >) where F: FnOnce() -> Result<Vec<T>, E>, U: Default
        requires
            old(self).wf(),
            tag@ != INVALID_TAG,
            f.requires(()),
            call_requires(U::default, ()),
            forall|d: Vec<T>| f.ensures((), Ok(d)) ==> d@.len() == block_len(B as u32),
        ensures
            old(self)@.hit(tag@) ==> {
                &&& final(self)@ == old(self)@
                &&& r matches Ok((block, victim))
                &&& block@ == old(self)@.blocks[old(self)@.find(tag@)]
                &&& victim is None
            },
            !old(self)@.hit(tag@) ==> match r {
                Ok((block, victim)) => {
                    &&& exists|d: Vec<T>| #[trigger] f.ensures((), Ok(d)) && block@.data == d@
                    &&& call_ensures(U::default, (), block@.tracker)
                    &&& Self::is_evicted(old(self)@, tag@, victim)
                    &&& final(self)@ == old(self)@.insert(tag@, block@)
                },
                Err(e) => f.ensures((), Err(e)) && final(self)@ == old(self)@,
            },
            r matches Ok((block, _)) ==> block.wf(),
            final(self).wf(),
    {
        let i: usize = self.position(tag.raw());
        if i < A {
            assert(self@.blocks[i as int] == self.blocks@[i as int]@);
            assert(self.blocks@[i as int].wf());
            Ok((&self.blocks[i], None))
        } else {
            let ghost before = self@;
            match self.insert_with(tag, f) {
                Ok((slot, victim)) => {
                    proof {
                        before.lemma_insert(A as int, block_len(B as u32) as int, tag@, slot@);
                    }
                    Ok((&*slot, victim))
                },
                Err(e) => Err(e),
            }
        }
    }

    /// The block with the tag, to be changed; if the set does not hold it,
    /// the block is filled and put in first, as `insert_with` does. The slot
    /// of the block is dirty afterwards.
    pub fn get_block_mut_or_insert_with<F, E>(&mut self, tag: Tag<S, B>, f: F) -> (r: Result<
        (&mut Block<T, U, B>, Option<(Tag<S, B>, Block<T, U, B>)>),
        E,
    >) where F: FnOnce() -> Result<Vec<T>, E>, U: Default
        requires
            old(self).wf(),
            tag@ != INVALID_TAG,
            f.requires(()),
            call_requires(U::default, ()),
            forall|d: Vec<T>| f.ensures((), Ok(d)) ==> d@.len() == block_len(B as u32),
        ensures
            old(self)@.hit(tag@) ==> {
                &&& r matches Ok((block, victim))
                &&& block@ == old(self)@.blocks[old(self)@.find(tag@)]
                &&& victim is None
                &&& final(self)@ == old(self)@.changed(old(self)@.find(tag@), final(block)@)
            },
            !old(self)@.hit(tag@) ==> match r {
                Ok((block, victim)) => {
                    &&& exists|d: Vec<T>| #[trigger] f.ensures((), Ok(d)) && block@.data == d@
                    &&& call_ensures(U::default, (), block@.tracker)
                    &&& Self::is_evicted(old(self)@, tag@, victim)
                    &&& final(self)@ == old(self)@.insert(tag@, block@).changed(
                        old(self)@.slot_for(tag@),
                        final(block)@,
                    )
                },
                Err(e) => f.ensures((), Err(e)) && final(self)@ == old(self)@,
            },
            r matches Ok((block, _)) ==> block.wf(),
    {
        let i: usize = self.position(tag.raw());
        if i < A {
            assert(self@.blocks[i as int] == self.blocks@[i as int]@);
            assert(self.blocks@[i as int].wf());
            self.dirty[i] = true;
            Ok((&mut self.blocks[i], None))
        } else {
            match f() {
                Ok(data) => {
                    let ghost before = self@;
                    let block = Block::with_data(data);
                    let (_, victim) = self.insert(tag, block);
                    proof {
                        before.lemma_insert(A as int, block_len(B as u32) as int, tag@, block@);
                    }
                    let slot: usize = self.position(tag.raw());
                    assert(self@.blocks[slot as int] == self.blocks@[slot as int]@);
                    self.dirty[slot] = true;
                    Ok((&mut self.blocks[slot], victim))
                },
                Err(e) => Err(e),
            }
        }
    }
}

} // verus!
