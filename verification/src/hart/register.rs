use vstd::prelude::*;

verus! {

/// Number of architectural registers.
pub const REGISTER_COUNT: usize = 32;

/// Identifier of an architectural register.
///
/// `Ignore` names the same storage as `X0`: it reads as zero and a write to
/// it is dropped. The decoder hands it out in place of `X0` as a destination.
#[derive(Copy, Clone, Debug, PartialEq, Eq, Structural)]
pub enum Reg {
    /// ABI name `zero`.
    X0,
    /// ABI name `ra`.
    X1,
    /// ABI name `sp`.
    X2,
    /// ABI name `gp`.
    X3,
    /// ABI name `tp`.
    X4,
    /// ABI name `t0`.
    X5,
    /// ABI name `t1`.
    X6,
    /// ABI name `t2`.
    X7,
    /// ABI name `s0`.
    X8,
    /// ABI name `s1`.
    X9,
    /// ABI name `a0`.
    X10,
    /// ABI name `a1`.
    X11,
    /// ABI name `a2`.
    X12,
    /// ABI name `a3`.
    X13,
    /// ABI name `a4`.
    X14,
    /// ABI name `a5`.
    X15,
    /// ABI name `a6`.
    X16,
    /// ABI name `a7`.
    X17,
    /// ABI name `s2`.
    X18,
    /// ABI name `s3`.
    X19,
    /// ABI name `s4`.
    X20,
    /// ABI name `s5`.
    X21,
    /// ABI name `s6`.
    X22,
    /// ABI name `s7`.
    X23,
    /// ABI name `s8`.
    X24,
    /// ABI name `s9`.
    X25,
    /// ABI name `s10`.
    X26,
    /// ABI name `s11`.
    X27,
    /// ABI name `t3`.
    X28,
    /// ABI name `t4`.
    X29,
    /// ABI name `t5`.
    X30,
    /// ABI name `t6`.
    X31,
    /// Destination whose value is thrown away.
    Ignore,
}

impl Reg {
    pub const ZERO: Reg = Reg::X0;

    pub const RA: Reg = Reg::X1;

    pub const SP: Reg = Reg::X2;

    pub const GP: Reg = Reg::X3;

    pub const TP: Reg = Reg::X4;

    pub const T0: Reg = Reg::X5;

    pub const T1: Reg = Reg::X6;

    pub const T2: Reg = Reg::X7;

    pub const S0: Reg = Reg::X8;

    pub const S1: Reg = Reg::X9;

    pub const A0: Reg = Reg::X10;

    pub const A1: Reg = Reg::X11;

    pub const A2: Reg = Reg::X12;

    pub const A3: Reg = Reg::X13;

    pub const A4: Reg = Reg::X14;

    pub const A5: Reg = Reg::X15;

    pub const A6: Reg = Reg::X16;

    pub const A7: Reg = Reg::X17;

    pub const S2: Reg = Reg::X18;

    pub const S3: Reg = Reg::X19;

    pub const S4: Reg = Reg::X20;

    pub const S5: Reg = Reg::X21;

    pub const S6: Reg = Reg::X22;

    pub const S7: Reg = Reg::X23;

    pub const S8: Reg = Reg::X24;

    pub const S9: Reg = Reg::X25;

    pub const S10: Reg = Reg::X26;

    pub const S11: Reg = Reg::X27;

    pub const T3: Reg = Reg::X28;

    pub const T4: Reg = Reg::X29;

    pub const T5: Reg = Reg::X30;

    pub const T6: Reg = Reg::X31;

    pub const FP: Reg = Reg::X8;

    /// The register's number: 0 to 31, with `Ignore` numbered as `X0`.
    pub open spec fn number(self) -> int {
        match self {
            Reg::X0 => 0,
            Reg::X1 => 1,
            Reg::X2 => 2,
            Reg::X3 => 3,
            Reg::X4 => 4,
            Reg::X5 => 5,
            Reg::X6 => 6,
            Reg::X7 => 7,
            Reg::X8 => 8,
            Reg::X9 => 9,
            Reg::X10 => 10,
            Reg::X11 => 11,
            Reg::X12 => 12,
            Reg::X13 => 13,
            Reg::X14 => 14,
            Reg::X15 => 15,
            Reg::X16 => 16,
            Reg::X17 => 17,
            Reg::X18 => 18,
            Reg::X19 => 19,
            Reg::X20 => 20,
            Reg::X21 => 21,
            Reg::X22 => 22,
            Reg::X23 => 23,
            Reg::X24 => 24,
            Reg::X25 => 25,
            Reg::X26 => 26,
            Reg::X27 => 27,
            Reg::X28 => 28,
            Reg::X29 => 29,
            Reg::X30 => 30,
            Reg::X31 => 31,
            Reg::Ignore => 0,
        }
    }

    /// The register with the given number.
    pub open spec fn spec_from_u32(r: u32) -> Reg {
        if r == 0 {
            Reg::X0
        } else if r == 1 {
            Reg::X1
        } else if r == 2 {
            Reg::X2
        } else if r == 3 {
            Reg::X3
        } else if r == 4 {
            Reg::X4
        } else if r == 5 {
            Reg::X5
        } else if r == 6 {
            Reg::X6
        } else if r == 7 {
            Reg::X7
        } else if r == 8 {
            Reg::X8
        } else if r == 9 {
            Reg::X9
        } else if r == 10 {
            Reg::X10
        } else if r == 11 {
            Reg::X11
        } else if r == 12 {
            Reg::X12
        } else if r == 13 {
            Reg::X13
        } else if r == 14 {
            Reg::X14
        } else if r == 15 {
            Reg::X15
        } else if r == 16 {
            Reg::X16
        } else if r == 17 {
            Reg::X17
        } else if r == 18 {
            Reg::X18
        } else if r == 19 {
            Reg::X19
        } else if r == 20 {
            Reg::X20
        } else if r == 21 {
            Reg::X21
        } else if r == 22 {
            Reg::X22
        } else if r == 23 {
            Reg::X23
        } else if r == 24 {
            Reg::X24
        } else if r == 25 {
            Reg::X25
        } else if r == 26 {
            Reg::X26
        } else if r == 27 {
            Reg::X27
        } else if r == 28 {
            Reg::X28
        } else if r == 29 {
            Reg::X29
        } else if r == 30 {
            Reg::X30
        } else {
            Reg::X31
        }
    }

    /// Turns a register number into its identifier.
    pub fn from_u32(r: u32) -> (reg: Reg)
        requires
            r < 32,
        ensures
            reg == Reg::spec_from_u32(r),
            reg.number() == r,
            reg != Reg::Ignore,
    {
        match r {
            0 => Reg::X0,
            1 => Reg::X1,
            2 => Reg::X2,
            3 => Reg::X3,
            4 => Reg::X4,
            5 => Reg::X5,
            6 => Reg::X6,
            7 => Reg::X7,
            8 => Reg::X8,
            9 => Reg::X9,
            10 => Reg::X10,
            11 => Reg::X11,
            12 => Reg::X12,
            13 => Reg::X13,
            14 => Reg::X14,
            15 => Reg::X15,
            16 => Reg::X16,
            17 => Reg::X17,
            18 => Reg::X18,
            19 => Reg::X19,
            20 => Reg::X20,
            21 => Reg::X21,
            22 => Reg::X22,
            23 => Reg::X23,
            24 => Reg::X24,
            25 => Reg::X25,
            26 => Reg::X26,
            27 => Reg::X27,
            28 => Reg::X28,
            29 => Reg::X29,
            30 => Reg::X30,
            _ => Reg::X31,
        }
    }

    /// The register's number as an index.
    pub fn index(self) -> (i: usize)
        ensures
            i == self.number(),
            i < 32,
    {
        match self {
            Reg::X0 => 0,
            Reg::X1 => 1,
            Reg::X2 => 2,
            Reg::X3 => 3,
            Reg::X4 => 4,
            Reg::X5 => 5,
            Reg::X6 => 6,
            Reg::X7 => 7,
            Reg::X8 => 8,
            Reg::X9 => 9,
            Reg::X10 => 10,
            Reg::X11 => 11,
            Reg::X12 => 12,
            Reg::X13 => 13,
            Reg::X14 => 14,
            Reg::X15 => 15,
            Reg::X16 => 16,
            Reg::X17 => 17,
            Reg::X18 => 18,
            Reg::X19 => 19,
            Reg::X20 => 20,
            Reg::X21 => 21,
            Reg::X22 => 22,
            Reg::X23 => 23,
            Reg::X24 => 24,
            Reg::X25 => 25,
            Reg::X26 => 26,
            Reg::X27 => 27,
            Reg::X28 => 28,
            Reg::X29 => 29,
            Reg::X30 => 30,
            Reg::X31 => 31,
            Reg::Ignore => 0,
        }
    }

    /// Whether a write to this register is dropped.
    pub open spec fn is_zero(self) -> bool {
        self == Reg::X0 || self == Reg::Ignore
    }
}

/// Every register number below 32 names a register that carries that number.
pub proof fn lemma_reg_number_round_trip(r: u32)
    requires
        r < 32,
    ensures
        Reg::spec_from_u32(r).number() == r,
        Reg::spec_from_u32(r) != Reg::Ignore,
{
}

/// A register other than `Ignore` is found again from its number.
pub proof fn lemma_reg_from_number(reg: Reg)
    requires
        reg != Reg::Ignore,
    ensures
        Reg::spec_from_u32(reg.number() as u32) == reg,
{
}

/// The 32 architectural registers, with a spare slot that swallows writes to `X0`.
#[derive(Debug)]
pub struct RegisterFile {
    reg: [u32; 33],
}

impl RegisterFile {
    #[verifier::type_invariant]
    spec fn zero_stays_zero(&self) -> bool {
        self.reg@[0] == 0
    }

    /// The architectural values of `X0` to `X31`.
    pub closed spec fn view(&self) -> Seq<u32> {
        self.reg@.subrange(0, 32)
    }

    /// The value that reading `r` gives.
    pub open spec fn spec_get(&self, r: Reg) -> u32 {
        self@[r.number()]
    }

    /// A register file with every register at zero.
    pub fn new() -> (regs: RegisterFile)
        ensures
            regs@ == Seq::new(32, |i: int| 0u32),
    {
        let regs = RegisterFile { reg: [0u32; 33] };
        assert(regs@ =~= Seq::new(32, |i: int| 0u32));
        regs
    }

    /// Reads a register. `X0` and `Ignore` read as zero.
    pub fn get(&self, r: Reg) -> (val: u32)
        ensures
            val == self.spec_get(r),
            r.is_zero() ==> val == 0,
            self@.len() == 32,
            self@[0] == 0,
    {
        proof {
            use_type_invariant(self);
        }
        self.reg[r.index()]
    }

    /// Writes a register. A write to `X0` or to `Ignore` is dropped.
    pub fn set(&mut self, rd: Reg, val: u32)
        ensures
            final(self)@ == (if rd.is_zero() {
                old(self)@
            } else {
                old(self)@.update(rd.number(), val)
            }),
            final(self)@.len() == 32,
            final(self)@[0] == 0,
    {
        proof {
            use_type_invariant(&*self);
        }
        let i: usize = rd.index();
        let slot: usize = if i == 0 { 32 } else { i };
        let ghost before = self.reg@;
        self.reg[slot] = val;
        assert(self.reg@ == before.update(slot as int, val));
        assert(self@ =~= (if rd.is_zero() {
            before.subrange(0, 32)
        } else {
            before.subrange(0, 32).update(rd.number(), val)
        }));
    }
}

} // verus!
