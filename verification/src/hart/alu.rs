use vstd::prelude::*;

verus! {

/// An operation of the arithmetic and logic unit on two words.
#[derive(Debug, Clone, Copy, PartialEq, Eq, Structural)]
pub enum AluOp {
    Add,
    Sub,
    Sll,
    Slt,
    Sltu,
    Xor,
    Srl,
    Sra,
    Or,
    And,
    Mul,
    Mulh,
    Mulhsu,
    Mulhu,
    Div,
    Divu,
    Rem,
    Remu,
}

/// The number that a word stands for when it is read as signed.
pub open spec fn signed(a: u32) -> int {
    if a < 0x8000_0000 {
        a as int
    } else {
        a - 0x1_0000_0000
    }
}

/// The word that stands for a number, cut to 32 bits.
pub open spec fn wrapped(x: int) -> u32 {
    (x % 0x1_0000_0000) as u32
}

/// The size of a number.
pub open spec fn magnitude(x: int) -> int {
    if x < 0 {
        -x
    } else {
        x
    }
}

/// The quotient of a division that rounds towards zero.
pub open spec fn quotient(x: int, y: int) -> int {
    if (x < 0) == (y < 0) {
        magnitude(x) / magnitude(y)
    } else {
        -(magnitude(x) / magnitude(y))
    }
}

/// The remainder of a division that rounds towards zero: it has the sign of the dividend.
pub open spec fn remainder(x: int, y: int) -> int {
    if x < 0 {
        -(magnitude(x) % magnitude(y))
    } else {
        magnitude(x) % magnitude(y)
    }
}

/// The upper word of the 64-bit product of two words read as signed: the
/// product divided by 2^32, rounded down.
pub open spec fn high_signed(a: u32, b: u32) -> u32 {
    wrapped((signed(a) * signed(b)) / 0x1_0000_0000)
}

/// The upper word of the 64-bit product of a word read as signed and a word read as unsigned.
pub open spec fn high_signed_unsigned(a: u32, b: u32) -> u32 {
    wrapped((signed(a) * b) / 0x1_0000_0000)
}

/// The upper word of the 64-bit product of two words read as unsigned.
pub open spec fn high_unsigned(a: u32, b: u32) -> u32 {
    wrapped((a * b) / 0x1_0000_0000)
}

/// The upper word of a 64-bit number is the number divided by 2^32, rounded down.
proof fn lemma_high_word(p: i64)
    by (bit_vector)
    ensures
        ((p >> 32u64) as u32) == (((p / 0x1_0000_0000) % 0x1_0000_0000) as u32),
{
}

impl AluOp {
    /// The result of the operation on `a` and `b`. Sums, differences and
    /// products are cut to 32 bits; shifts go by the five lowest bits of `b`;
    /// comparisons give 1 or 0; a division by zero gives all ones and leaves
    /// the dividend as remainder; the one signed division that overflows
    /// gives the dividend and leaves no remainder.
    pub open spec fn spec_apply(self, a: u32, b: u32) -> u32 {
        match self {
            AluOp::Add => wrapped(a + b),
            AluOp::Sub => wrapped(a - b),
            AluOp::Sll => a << (b & 0x1f),
            AluOp::Slt => if signed(a) < signed(b) {
                1
            } else {
                0
            },
            AluOp::Sltu => if a < b {
                1
            } else {
                0
            },
            AluOp::Xor => a ^ b,
            AluOp::Srl => a >> (b & 0x1f),
            AluOp::Sra => ((a as i32) >> (b & 0x1f)) as u32,
            AluOp::Or => a | b,
            AluOp::And => a & b,
            AluOp::Mul => wrapped(a * b),
            AluOp::Mulh => high_signed(a, b),
            AluOp::Mulhsu => high_signed_unsigned(a, b),
            AluOp::Mulhu => high_unsigned(a, b),
            AluOp::Div => if b == 0 {
                0xffff_ffff
            } else {
                wrapped(quotient(signed(a), signed(b)))
            },
            AluOp::Divu => if b == 0 {
                0xffff_ffff
            } else {
                a / b
            },
            AluOp::Rem => if b == 0 {
                a
            } else {
                wrapped(remainder(signed(a), signed(b)))
            },
            AluOp::Remu => if b == 0 {
                a
            } else {
                a % b
            },
        }
    }
}

/// What the casts and shifts of the unit give.
pub proof fn lemma_alu_bits(a: u32, b: u32)
    by (bit_vector)
    ensures
        b & 0x1f < 32,
        ((a as i32) < 0) == (a >= 0x8000_0000u32),
        a >= 0x8000_0000u32 ==> (a as i32) == a - 0x1_0000_0000,
        a < 0x8000_0000u32 ==> (a as i32) == a,
{
}

/// The size of a word read as signed.
fn magnitude_of(a: u32) -> (m: u32)
    ensures
        m == magnitude(signed(a)),
{
    if a >= 0x8000_0000 {
        (0x1_0000_0000u64 - a as u64) as u32
    } else {
        a
    }
}

/// The word that stands for `m` or for its negative.
fn with_sign(m: u32, negative: bool) -> (w: u32)
    requires
        m <= 0x8000_0000,
    ensures
        w == wrapped(if negative {
            -(m as int)
        } else {
            m as int
        }),
{
    if negative && m != 0 {
        (0x1_0000_0000u64 - m as u64) as u32
    } else {
        m
    }
}

/// Performs an operation of the arithmetic and logic unit.
pub fn alu(op: AluOp, a: u32, b: u32) -> (r: u32)
    ensures
        r == op.spec_apply(a, b),
{
    proof {
        lemma_alu_bits(a, b);
        lemma_alu_bits(b, a);
    }
    match op {
        AluOp::Add => a.wrapping_add(b),
        AluOp::Sub => a.wrapping_sub(b),
        AluOp::Sll => a << (b & 0x1f),
        AluOp::Slt => if (a as i32) < (b as i32) {
            1
        } else {
            0
        },
        AluOp::Sltu => if a < b {
            1
        } else {
            0
        },
        AluOp::Xor => a ^ b,
        AluOp::Srl => a >> (b & 0x1f),
        AluOp::Sra => ((a as i32) >> (b & 0x1f)) as u32,
        AluOp::Or => a | b,
        AluOp::And => a & b,
        AluOp::Mul => a.wrapping_mul(b),
        AluOp::Mulh => {
            let x: i64 = (a as i32) as i64;
            let y: i64 = (b as i32) as i64;
            assert(-0x4000_0000_0000_0000 <= x * y <= 0x4000_0000_0000_0000) by (nonlinear_arith)
                requires
                    -0x8000_0000 <= x < 0x8000_0000,
                    -0x8000_0000 <= y < 0x8000_0000,
            ;
            let p: i64 = x * y;
            proof {
                lemma_high_word(p);
            }
            (p >> 32u64) as u32
        },
        AluOp::Mulhsu => {
            let x: i64 = (a as i32) as i64;
            let y: i64 = b as i64;
            assert(-0x8000_0000_0000_0000 <= x * y < 0x8000_0000_0000_0000) by (nonlinear_arith)
                requires
                    -0x8000_0000 <= x < 0x8000_0000,
                    0 <= y < 0x1_0000_0000,
            ;
            let p: i64 = x * y;
            proof {
                lemma_high_word(p);
            }
            (p >> 32u64) as u32
        },
        AluOp::Mulhu => {
            let x: u64 = a as u64;
            let y: u64 = b as u64;
            assert(0 <= x * y <= 0xffff_fffe_0000_0001) by (nonlinear_arith)
                requires
                    0 <= x < 0x1_0000_0000,
                    0 <= y < 0x1_0000_0000,
            ;
            ((x * y) / 0x1_0000_0000) as u32
        },
        AluOp::Div => if b == 0 {
            0xffff_ffff
        } else {
            let q: u32 = magnitude_of(a) / magnitude_of(b);
            with_sign(q, (a >= 0x8000_0000) != (b >= 0x8000_0000))
        },
        AluOp::Divu => if b == 0 {
            0xffff_ffff
        } else {
            a / b
        },
        AluOp::Rem => if b == 0 {
            a
        } else {
            let r: u32 = magnitude_of(a) % magnitude_of(b);
            with_sign(r, a >= 0x8000_0000)
        },
        AluOp::Remu => if b == 0 {
            a
        } else {
            a % b
        },
    }
}

/// Dividing the smallest number by minus one gives the smallest number and leaves no remainder.
pub proof fn lemma_division_overflow()
    ensures
        AluOp::Div.spec_apply(0x8000_0000, 0xffff_ffff) == 0x8000_0000,
        AluOp::Rem.spec_apply(0x8000_0000, 0xffff_ffff) == 0,
{
}

} // verus!
