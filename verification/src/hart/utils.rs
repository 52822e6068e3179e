use vstd::prelude::*;

verus! {

/// The `width` lowest bits of `n`.
pub open spec fn low_bits(n: u32, width: u32) -> u32 {
    n & (0xffff_ffffu32 >> ((32 - width) as u32))
}

/// The bits of `n` from bit `start` to bit `end`, both included, moved down to bit 0.
pub open spec fn bits_of(n: u32, start: u32, end: u32) -> u32 {
    (n >> start) & (0xffff_ffffu32 >> ((31 - (end - start)) as u32))
}

/// `n` with the bits above bit `s` set to bit `s`.
pub open spec fn sign_extended(n: u32, s: u32) -> u32 {
    (((n << ((31 - s) as u32)) as i32) >> ((31 - s) as u32)) as u32
}

/// What the low bits of a number are.
pub proof fn lemma_low_bits(n: u32, width: u32)
    by (bit_vector)
    requires
        1 <= width <= 32,
    ensures
        width < 32 ==> low_bits(n, width) < (1u32 << width),
        width == 32 ==> low_bits(n, width) == n,
        low_bits(low_bits(n, width), width) == low_bits(n, width),
        low_bits(n, width) == (n << ((32 - width) as u32)) >> ((32 - width) as u32),
{
}

/// What sign extension does: the bits up to bit `s` stay, the bits above become bit `s`.
pub proof fn lemma_sign_extended(n: u32, s: u32)
    by (bit_vector)
    requires
        s < 32,
    ensures
        low_bits(sign_extended(n, s), (s + 1) as u32) == low_bits(n, (s + 1) as u32),
        (n >> s) & 1 == 0 ==> sign_extended(n, s) == low_bits(n, (s + 1) as u32),
        (n >> s) & 1 == 1 ==> sign_extended(n, s) == low_bits(n, (s + 1) as u32) | (0xffff_fffeu32 << s),
{
}

/// A number that extends to a longer one by its sign.
pub trait SignExtend<T> {
    /// The value with the bits above bit `s` set to bit `s`.
    fn sign_extend(&self, s: usize) -> (r: T)
        requires
            s < 32,
    ;
}

impl SignExtend<u32> for u32 {
    fn sign_extend(&self, s: usize) -> (r: u32)
        ensures
            r == sign_extended(*self, s as u32),
    {
        let shift: u32 = (31 - s) as u32;
        (((*self << shift) as i32) >> shift) as u32
    }
}

/// Some bits: a value and the number of its bits.
#[derive(Clone, Copy, Debug, PartialEq, Eq, Structural)]
pub struct BitRange {
    value: u32,
    width: usize,
}

impl BitRange {
    #[verifier::type_invariant]
    spec fn in_range(self) -> bool {
        &&& 1 <= self.width <= 32
        &&& low_bits(self.value, self.width as u32) == self.value
    }

    /// The bits as a number.
    pub closed spec fn view(&self) -> u32 {
        self.value
    }

    /// The number of the bits.
    pub closed spec fn spec_width(&self) -> usize {
        self.width
    }

    /// The `width` lowest bits of `n`.
    pub fn new(n: u32, width: usize) -> (r: BitRange)
        requires
            1 <= width <= 32,
        ensures
            r@ == low_bits(n, width as u32),
            r.spec_width() == width,
    {
        proof {
            lemma_low_bits(n, width as u32);
        }
        let shift: u32 = (32 - width) as u32;
        BitRange { value: (n << shift) >> shift, width }
    }

    /// The bits of `self` followed by the bits of `next`: `self` above, `next` below.
    pub fn cat(&self, next: BitRange) -> (r: BitRange)
        requires
            self.spec_width() + next.spec_width() <= 32,
        ensures
            r@ == (self@ << (next.spec_width() as u32)) | next@,
            r.spec_width() == self.spec_width() + next.spec_width(),
    {
        proof {
            use_type_invariant(self);
            use_type_invariant(next);
            lemma_cat(self.value, self.width as u32, next.value, next.width as u32);
        }
        let shift: u32 = next.width as u32;
        BitRange { value: (self.value << shift) | next.value, width: self.width + next.width }
    }

    /// The bits as a number.
    pub fn get(&self) -> (v: u32)
        ensures
            v == self@,
    {
        self.value
    }

    /// The number of the bits.
    pub fn width(&self) -> (w: usize)
        ensures
            w == self.spec_width(),
            1 <= w <= 32,
    {
        proof {
            use_type_invariant(self);
        }
        self.width
    }
}

/// Bits that follow one another are as many bits as both together.
proof fn lemma_cat(a: u32, wa: u32, b: u32, wb: u32)
    by (bit_vector)
    requires
        1 <= wa,
        1 <= wb,
        wa + wb <= 32,
        low_bits(a, wa) == a,
        low_bits(b, wb) == b,
    ensures
        low_bits((a << wb) | b, (wa + wb) as u32) == (a << wb) | b,
{
}

/// The bits of a part are as many bits as the part has.
proof fn lemma_bits_of(n: u32, start: u32, end: u32)
    by (bit_vector)
    requires
        start <= end < 32,
    ensures
        low_bits(bits_of(n, start, end), (end - start + 1) as u32) == bits_of(n, start, end),
        low_bits((n >> start) & 1, 1) == (n >> start) & 1,
        bits_of(n, start, start) == (n >> start) & 1,
{
}

/// A number of which a part of the bits can be taken.
pub trait Bits {
    /// The bits from bit `start` to bit `end`, both included.
    fn bits(&self, start: usize, end: usize) -> (r: BitRange)
        requires
            start <= end < 32,
    ;
}

/// A number of which one bit can be taken.
pub trait Bit {
    /// Bit `i`.
    fn bit(&self, i: usize) -> (r: BitRange)
        requires
            i < 32,
    ;
}

impl Bits for u32 {
    fn bits(&self, start: usize, end: usize) -> (r: BitRange)
        ensures
            r@ == bits_of(*self, start as u32, end as u32),
            r.spec_width() == end - start + 1,
    {
        proof {
            lemma_bits_of(*self, start as u32, end as u32);
        }
        let width: usize = end - start + 1;
        let down: u32 = start as u32;
        let keep: u32 = (31 - (end - start)) as u32;
        BitRange { value: (*self >> down) & (0xffff_ffffu32 >> keep), width }
    }
}

impl Bit for u32 {
    fn bit(&self, i: usize) -> (r: BitRange)
        ensures
            r@ == (*self >> (i as u32)) & 1,
            r.spec_width() == 1,
    {
        proof {
            lemma_bits_of(*self, i as u32, i as u32);
        }
        let down: u32 = i as u32;
        BitRange { value: (*self >> down) & 1, width: 1 }
    }
}

} // verus!
