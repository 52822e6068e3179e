use vstd::prelude::*;
use crate::hart::mmu::cache::types::block_len;
use crate::hart::mmu::cache::types::lemma_pow2_positive;
use crate::hart::mmu::cache::types::BlockOffset;

verus! {

/// A block as a value: its entries and its tracker.
pub struct BlockView<T, U> {
    pub data: Seq<T>,
    pub tracker: U,
}

/// A block of `2^B` entries with a tracker, which says what became of the
/// entries since the block was filled.
pub struct Block<T, U, const B: usize> {
    data: Vec<T>,
    tracker: U,
}

/// Copies a vector of plain values.
pub fn copy_of<T: Copy>(v: &Vec<T>) -> (c: Vec<T>)
    ensures
        c@ == v@,
{
    let mut c: Vec<T> = Vec::new();
    let mut i: usize = 0;
    while i < v.len()
        invariant
            i <= v@.len(),
            c@ == v@.subrange(0, i as int),
        decreases v.len() - i,
    {
        c.push(v[i]);
        assert(v@.subrange(0, i + 1) == v@.subrange(0, i as int).push(v@[i as int]));
        i = i + 1;
    }
    assert(v@.subrange(0, i as int) == v@);
    c
}

impl<T: Copy, U: Copy, const B: usize> Block<T, U, B> {
    pub closed spec fn view(&self) -> BlockView<T, U> {
        BlockView { data: self.data@, tracker: self.tracker }
    }

    /// The block has `2^B` entries.
    pub open spec fn wf(&self) -> bool {
        self@.data.len() == block_len(B as u32)
    }

    /// A block whose entries all hold `fresh`, with the tracker `tracker`.
    pub fn filled(fresh: T, tracker: U) -> (block: Self)
        requires
            B < 32,
        ensures
            block.wf(),
            block@.tracker == tracker,
            forall|i: int| 0 <= i < block@.data.len() ==> block@.data[i] == fresh,
    {
        let b: u32 = B as u32;
        proof {
            lemma_pow2_positive(b);
        }
        let len: u32 = 1u32 << b;
        let mut data: Vec<T> = Vec::new();
        let mut i: u32 = 0;
        while i < len
            invariant
                i <= len,
                data@.len() == i,
                forall|k: int| 0 <= k < i ==> data@[k] == fresh,
            decreases len - i,
        {
            data.push(fresh);
            i = i + 1;
        }
        Block { data, tracker }
    }

    /// A block of default entries with a default tracker.
    pub fn new() -> (block: Self) where T: Default, U: Default
        requires
            B < 32,
            call_requires(T::default, ()),
            call_requires(U::default, ()),
        ensures
            block.wf(),
            call_ensures(U::default, (), block@.tracker),
            forall|i: int| 0 <= i < block@.data.len() ==> call_ensures(T::default, (), #[trigger] block@.data[i]),
    {
        let b: u32 = B as u32;
        proof {
            lemma_pow2_positive(b);
        }
        let len: u32 = 1u32 << b;
        let mut data: Vec<T> = Vec::new();
        let mut i: u32 = 0;
        while i < len
            invariant
                i <= len,
                data@.len() == i,
                call_requires(T::default, ()),
                forall|k: int| 0 <= k < i ==> call_ensures(T::default, (), #[trigger] data@[k]),
            decreases len - i,
        {
            data.push(T::default());
            i = i + 1;
        }
        Block { data, tracker: U::default() }
    }

    /// A block that was filled with the given entries: its tracker is the default one.
    pub fn with_data(data: Vec<T>) -> (block: Self) where U: Default
        requires
            data@.len() == block_len(B as u32),
            call_requires(U::default, ()),
        ensures
            block.wf(),
            block@.data == data@,
            call_ensures(U::default, (), block@.tracker),
    {
        Block { data, tracker: U::default() }
    }

    /// The entry at the offset.
    pub fn get(&self, cbo: BlockOffset<B>) -> (entry: &T)
        requires
            self.wf(),
            cbo@ < block_len(B as u32),
        ensures
            *entry == self@.data[cbo@ as int],
    {
        &self.data[cbo.raw() as usize]
    }

    /// The entry at the offset and the tracker, to be changed.
    pub fn get_mut(&mut self, cbo: BlockOffset<B>) -> (r: (&mut T, &mut U))
        requires
            old(self).wf(),
            cbo@ < block_len(B as u32),
        ensures
            *r.0 == old(self)@.data[cbo@ as int],
            *r.1 == old(self)@.tracker,
            final(self)@.data == old(self)@.data.update(cbo@ as int, *final(r.0)),
            final(self)@.tracker == *final(r.1),
            final(self).wf(),
    {
        (&mut self.data[cbo.raw() as usize], &mut self.tracker)
    }

    /// The entries and the tracker.
    pub fn internal(&self) -> (r: (&Vec<T>, &U))
        ensures
            r.0@ == self@.data,
            *r.1 == self@.tracker,
    {
        (&self.data, &self.tracker)
    }

    /// The entries and the tracker, to be changed. The block is well formed
    /// afterwards if the number of entries is what it was.
    pub fn internal_mut(&mut self) -> (r: (&mut Vec<T>, &mut U))
        ensures
            r.0@ == old(self)@.data,
            *r.1 == old(self)@.tracker,
            final(self)@.data == final(r.0)@,
            final(self)@.tracker == *final(r.1),
    {
        (&mut self.data, &mut self.tracker)
    }

    /// The entries and the tracker of the block.
    pub fn into_parts(self) -> (r: (Vec<T>, U))
        ensures
            r.0@ == self@.data,
            r.1 == self@.tracker,
    {
        (self.data, self.tracker)
    }

    /// A copy of the block.
    pub fn copy(&self) -> (c: Self)
        ensures
            c@ == self@,
    {
        Block { data: copy_of(&self.data), tracker: self.tracker }
    }
}

} // verus!
