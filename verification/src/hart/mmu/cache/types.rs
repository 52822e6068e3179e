use vstd::prelude::*;

verus! {

/// The tag of a slot that holds no block.
pub const INVALID_TAG: u32 = 0xffff_ffff;

/// Whether a cache can have `2^s` sets of `a` blocks of `2^b` entries each:
/// an address must split into a tag, a set and an offset, no tag may be the
/// invalid one, and a set must have a slot.
pub open spec fn geometry_ok(s: usize, a: usize, b: usize) -> bool {
    &&& 1 <= s + b < 32
    &&& 1 <= a
}

/// The number of entries in a block.
pub open spec fn block_len(b: u32) -> u32 {
    1u32 << b
}

/// The number of sets.
pub open spec fn set_count(s: u32) -> u32 {
    1u32 << s
}

/// The tag of an address: what is left above the bits of the set and of the offset.
pub open spec fn tag_of(addr: u32, s: u32, b: u32) -> u32 {
    addr >> ((s + b) as u32)
}

/// The set of an address: the `s` bits above the offset. With no bit for
/// the set there is one set, the set 0.
pub open spec fn set_of(addr: u32, s: u32, b: u32) -> u32 {
    if s == 0 {
        0
    } else {
        (addr >> b) & (0xffff_ffffu32 >> ((32 - s) as u32))
    }
}

/// The offset of an address in its block: the `b` lowest bits.
pub open spec fn offset_of(addr: u32, b: u32) -> u32 {
    addr & (((1u32 << b) - 1) as u32)
}

/// The address of the first entry of the block with the given tag in the given set.
pub open spec fn block_addr(tag: u32, set: u32, s: u32, b: u32) -> u32 {
    (tag << ((s + b) as u32)) | (set << b)
}

/// A block and a cache hold at least one entry and one set.
pub proof fn lemma_pow2_positive(n: u32)
    by (bit_vector)
    requires
        n < 32,
    ensures
        1 <= 1u32 << n,
{
}

/// The set of an address is the number that its `s` bits above the offset
/// spell, and so one of the `2^s` sets.
pub proof fn lemma_set_index(addr: u32, s: u32, b: u32)
    by (bit_vector)
    requires
        s + b <= 32,
    ensures
        s < 32 ==> set_of(addr, s, b) < (1u32 << s),
        1 <= s < 32 ==> set_of(addr, s, b) == (addr >> b) & (((1u32 << s) - 1) as u32),
        s == 32 ==> set_of(addr, s, b) == addr,
{
}

/// How an address splits into tag, set and offset, and how it is put together again.
pub proof fn lemma_split(addr: u32, s: u32, b: u32)
    by (bit_vector)
    requires
        1 <= s + b < 32,
    ensures
        1 <= block_len(b),
        1 <= set_count(s),
        set_of(addr, s, b) < set_count(s),
        offset_of(addr, b) < block_len(b),
        tag_of(addr, s, b) != 0xffff_ffffu32,
        block_addr(tag_of(addr, s, b), set_of(addr, s, b), s, b) | offset_of(addr, b) == addr,
        block_addr(tag_of(addr, s, b), set_of(addr, s, b), s, b) + offset_of(addr, b) == addr,
        tag_of(block_addr(tag_of(addr, s, b), set_of(addr, s, b), s, b), s, b) == tag_of(addr, s, b),
        set_of(block_addr(tag_of(addr, s, b), set_of(addr, s, b), s, b), s, b) == set_of(addr, s, b),
        offset_of(block_addr(tag_of(addr, s, b), set_of(addr, s, b), s, b), b) == 0,
{
}

/// The offset of an entry in its block.
#[derive(Clone, Copy)]
pub struct BlockOffset<const B: usize> {
    raw: u32,
}

impl<const B: usize> BlockOffset<B> {
    pub closed spec fn view(&self) -> u32 {
        self.raw
    }

    pub fn raw(&self) -> (r: u32)
        ensures
            r == self@,
    {
        self.raw
    }
}

/// The tag of a block.
#[derive(Clone, Copy)]
pub struct Tag<const S: usize, const B: usize> {
    raw: u32,
}

impl<const S: usize, const B: usize> Tag<S, B> {
    pub closed spec fn view(&self) -> u32 {
        self.raw
    }

    /// The tag of a slot that holds no block.
    pub fn invalid() -> (t: Self)
        ensures
            t@ == INVALID_TAG,
    {
        Tag { raw: INVALID_TAG }
    }

    /// Takes a number as a tag.
    pub fn from_raw(raw: u32) -> (t: Self)
        ensures
            t@ == raw,
    {
        Tag { raw }
    }

    pub fn is_invalid(&self) -> (b: bool)
        ensures
            b == (self@ == INVALID_TAG),
    {
        self.raw == INVALID_TAG
    }

    pub fn is_valid(&self) -> (b: bool)
        ensures
            b == (self@ != INVALID_TAG),
    {
        self.raw != INVALID_TAG
    }

    pub fn raw(&self) -> (r: u32)
        ensures
            r == self@,
    {
        self.raw
    }
}

/// The index of a set.
#[derive(Clone, Copy)]
pub struct SetIndex<const S: usize, const B: usize> {
    raw: u32,
}

impl<const S: usize, const B: usize> SetIndex<S, B> {
    pub closed spec fn view(&self) -> u32 {
        self.raw
    }

    pub fn raw(&self) -> (r: u32)
        ensures
            r == self@,
    {
        self.raw
    }
}

/// An address without regard to its offset: the tag and the set.
#[derive(Clone, Copy)]
pub struct TagSet<const S: usize, const B: usize> {
    raw: u32,
}

impl<const S: usize, const B: usize> TagSet<S, B> {
    pub closed spec fn view(&self) -> u32 {
        self.raw
    }

    pub fn tag(&self) -> (t: Tag<S, B>)
        requires
            geometry_ok(S, 1, B),
        ensures
            t@ == tag_of(self@, S as u32, B as u32),
            t@ != INVALID_TAG,
    {
        proof {
            lemma_split(self.raw, S as u32, B as u32);
        }
        let shift: u32 = (S + B) as u32;
        Tag { raw: self.raw >> shift }
    }

    /// The set: the `S` bits above the offset. The bits of the set and of
    /// the offset must be bits of the address.
    pub fn set(&self) -> (i: SetIndex<S, B>)
        requires
            S + B <= 32,
        ensures
            i@ == set_of(self@, S as u32, B as u32),
            S < 32 ==> i@ < set_count(S as u32),
    {
        proof {
            lemma_set_index(self.raw, S as u32, B as u32);
        }
        if S == 0 {
            SetIndex { raw: 0 }
        } else {
            let down: u32 = B as u32;
            let keep: u32 = (32 - S) as u32;
            SetIndex { raw: (self.raw >> down) & (0xffff_ffffu32 >> keep) }
        }
    }
}

/// An address of an entry, as the cache sees it.
#[derive(Clone, Copy)]
pub struct Addr<const S: usize, const B: usize> {
    raw: u32,
}

impl<const S: usize, const B: usize> Addr<S, B> {
    pub closed spec fn view(&self) -> u32 {
        self.raw
    }

    pub fn from_u32(addr: u32) -> (a: Self)
        ensures
            a@ == addr,
    {
        Addr { raw: addr }
    }

    pub fn raw(&self) -> (r: u32)
        ensures
            r == self@,
    {
        self.raw
    }

    pub fn tag(&self) -> (t: Tag<S, B>)
        requires
            geometry_ok(S, 1, B),
        ensures
            t@ == tag_of(self@, S as u32, B as u32),
            t@ != INVALID_TAG,
    {
        self.tag_set().tag()
    }

    /// The set: the `S` bits above the offset. The bits of the set and of
    /// the offset must be bits of the address.
    pub fn set(&self) -> (i: SetIndex<S, B>)
        requires
            S + B <= 32,
        ensures
            i@ == set_of(self@, S as u32, B as u32),
            S < 32 ==> i@ < set_count(S as u32),
    {
        self.tag_set().set()
    }

    /// The offset in the block: the `B` lowest bits.
    pub fn offset(&self) -> (o: BlockOffset<B>)
        requires
            B < 32,
        ensures
            o@ == offset_of(self@, B as u32),
            o@ < block_len(B as u32),
    {
        proof {
            lemma_split(self.raw, if B == 0 { 1u32 } else { 0u32 }, B as u32);
        }
        let b: u32 = B as u32;
        BlockOffset { raw: self.raw & ((1u32 << b) - 1) }
    }

    pub fn tag_set(&self) -> (ts: TagSet<S, B>)
        ensures
            ts@ == self@,
    {
        TagSet { raw: self.raw }
    }
}

} // verus!
