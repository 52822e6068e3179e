use vstd::prelude::*;

verus! {

/// What became of the instruction that was just executed.
#[derive(Clone, Copy, Debug, PartialEq, Eq, Structural)]
pub enum Conclusion {
    /// Nothing special: the program counter moves on by four.
    Proceed,
    /// The instruction set the program counter itself.
    Jumped,
    /// The instruction raised the exception with this code; the program counter stays.
    Exception(u8),
}

proof fn lemma_low_bits_clear(v: i32)
    by (bit_vector)
    ensures
        (v & 0xfff == 0) <==> (v as int) % 4096 == 0,
        (v & 1 == 0) <==> (v as int) % 2 == 0,
{
}

/// Unsigned 5-bit integer.
#[derive(Clone, Copy, Debug, PartialEq, Eq, Structural)]
pub struct UInt5 {
    val: u8,
}

impl UInt5 {
    #[verifier::type_invariant]
    spec fn in_range(self) -> bool {
        self.val < 32
    }

    pub closed spec fn view(self) -> int {
        self.val as int
    }

    /// The value that holds `v`.
    pub closed spec fn spec_new(v: int) -> UInt5 {
        UInt5 { val: v as u8 }
    }

    pub open spec fn fits(v: int) -> bool {
        0 <= v < 32
    }

    pub proof fn lemma_new(v: int)
        requires
            Self::fits(v),
        ensures
            Self::spec_new(v)@ == v,
    {
    }

    pub fn new(value: u32) -> (r: UInt5)
        requires
            Self::fits(value as int),
        ensures
            r == Self::spec_new(value as int),
            r@ == value,
    {
        UInt5 { val: value as u8 }
    }

    pub fn checked_new(value: u32) -> (r: Option<UInt5>)
        ensures
            r == (if Self::fits(value as int) {
                Some(Self::spec_new(value as int))
            } else {
                None
            }),
    {
        if value < 32 {
            Some(UInt5 { val: value as u8 })
        } else {
            None
        }
    }

    pub fn value(self) -> (v: u32)
        ensures
            v == self@,
            v < 32,
    {
        proof {
            use_type_invariant(self);
        }
        self.val as u32
    }
}

/// Signed 12-bit integer.
#[derive(Clone, Copy, Debug, PartialEq, Eq, Structural)]
pub struct Int12 {
    val: i16,
}

impl Int12 {
    #[verifier::type_invariant]
    spec fn in_range(self) -> bool {
        -2048 <= self.val < 2048
    }

    pub closed spec fn view(self) -> int {
        self.val as int
    }

    /// The value that holds `v`.
    pub closed spec fn spec_new(v: int) -> Int12 {
        Int12 { val: v as i16 }
    }

    pub open spec fn fits(v: int) -> bool {
        -2048 <= v < 2048
    }

    pub proof fn lemma_new(v: int)
        requires
            Self::fits(v),
        ensures
            Self::spec_new(v)@ == v,
    {
    }

    pub fn new(value: i32) -> (r: Int12)
        requires
            Self::fits(value as int),
        ensures
            r == Self::spec_new(value as int),
            r@ == value,
    {
        Int12 { val: value as i16 }
    }

    pub fn checked_new(value: i32) -> (r: Option<Int12>)
        ensures
            r == (if Self::fits(value as int) {
                Some(Self::spec_new(value as int))
            } else {
                None
            }),
    {
        if -2048 <= value && value < 2048 {
            Some(Int12 { val: value as i16 })
        } else {
            None
        }
    }

    pub fn value(self) -> (v: i32)
        ensures
            v == self@,
            Self::fits(v as int),
    {
        proof {
            use_type_invariant(self);
        }
        self.val as i32
    }
}

/// Signed 32-bit integer whose 12 lowest bits are zero.
#[derive(Clone, Copy, Debug, PartialEq, Eq, Structural)]
pub struct Int32Trunc12 {
    val: i32,
}

impl Int32Trunc12 {
    #[verifier::type_invariant]
    spec fn in_range(self) -> bool {
        Self::fits(self.val as int)
    }

    pub closed spec fn view(self) -> int {
        self.val as int
    }

    /// The value that holds `v`.
    pub closed spec fn spec_new(v: int) -> Int32Trunc12 {
        Int32Trunc12 { val: v as i32 }
    }

    pub open spec fn fits(v: int) -> bool {
        &&& i32::MIN <= v <= i32::MAX
        &&& v % 4096 == 0
    }

    pub proof fn lemma_new(v: int)
        requires
            Self::fits(v),
        ensures
            Self::spec_new(v)@ == v,
    {
    }

    pub fn new(value: i32) -> (r: Int32Trunc12)
        requires
            Self::fits(value as int),
        ensures
            r == Self::spec_new(value as int),
            r@ == value,
    {
        Int32Trunc12 { val: value }
    }

    pub fn checked_new(value: i32) -> (r: Option<Int32Trunc12>)
        ensures
            r == (if Self::fits(value as int) {
                Some(Self::spec_new(value as int))
            } else {
                None
            }),
    {
        proof {
            lemma_low_bits_clear(value);
        }
        if value & 0xfff == 0 {
            Some(Int32Trunc12 { val: value })
        } else {
            None
        }
    }

    pub fn value(self) -> (v: i32)
        ensures
            v == self@,
            Self::fits(v as int),
    {
        proof {
            use_type_invariant(self);
        }
        self.val
    }
}

/// Signed 21-bit integer whose lowest bit is zero.
#[derive(Clone, Copy, Debug, PartialEq, Eq, Structural)]
pub struct Int21Trunc1 {
    val: i32,
}

impl Int21Trunc1 {
    #[verifier::type_invariant]
    spec fn in_range(self) -> bool {
        Self::fits(self.val as int)
    }

    pub closed spec fn view(self) -> int {
        self.val as int
    }

    /// The value that holds `v`.
    pub closed spec fn spec_new(v: int) -> Int21Trunc1 {
        Int21Trunc1 { val: v as i32 }
    }

    pub open spec fn fits(v: int) -> bool {
        &&& -0x10_0000 <= v < 0x10_0000
        &&& v % 2 == 0
    }

    pub proof fn lemma_new(v: int)
        requires
            Self::fits(v),
        ensures
            Self::spec_new(v)@ == v,
    {
    }

    pub fn new(value: i32) -> (r: Int21Trunc1)
        requires
            Self::fits(value as int),
        ensures
            r == Self::spec_new(value as int),
            r@ == value,
    {
        Int21Trunc1 { val: value }
    }

    pub fn checked_new(value: i32) -> (r: Option<Int21Trunc1>)
        ensures
            r == (if Self::fits(value as int) {
                Some(Self::spec_new(value as int))
            } else {
                None
            }),
    {
        proof {
            lemma_low_bits_clear(value);
        }
        if -0x10_0000 <= value && value < 0x10_0000 && value & 1 == 0 {
            Some(Int21Trunc1 { val: value })
        } else {
            None
        }
    }

    pub fn value(self) -> (v: i32)
        ensures
            v == self@,
            Self::fits(v as int),
    {
        proof {
            use_type_invariant(self);
        }
        self.val
    }
}

/// Signed 13-bit integer whose lowest bit is zero.
#[derive(Clone, Copy, Debug, PartialEq, Eq, Structural)]
pub struct Int13Trunc1 {
    val: i16,
}

impl Int13Trunc1 {
    #[verifier::type_invariant]
    spec fn in_range(self) -> bool {
        Self::fits(self.val as int)
    }

    pub closed spec fn view(self) -> int {
        self.val as int
    }

    /// The value that holds `v`.
    pub closed spec fn spec_new(v: int) -> Int13Trunc1 {
        Int13Trunc1 { val: v as i16 }
    }

    pub open spec fn fits(v: int) -> bool {
        &&& -4096 <= v < 4096
        &&& v % 2 == 0
    }

    pub proof fn lemma_new(v: int)
        requires
            Self::fits(v),
        ensures
            Self::spec_new(v)@ == v,
    {
    }

    pub fn new(value: i32) -> (r: Int13Trunc1)
        requires
            Self::fits(value as int),
        ensures
            r == Self::spec_new(value as int),
            r@ == value,
    {
        Int13Trunc1 { val: value as i16 }
    }

    pub fn checked_new(value: i32) -> (r: Option<Int13Trunc1>)
        ensures
            r == (if Self::fits(value as int) {
                Some(Self::spec_new(value as int))
            } else {
                None
            }),
    {
        proof {
            lemma_low_bits_clear(value);
        }
        if -4096 <= value && value < 4096 && value & 1 == 0 {
            Some(Int13Trunc1 { val: value as i16 })
        } else {
            None
        }
    }

    pub fn value(self) -> (v: i32)
        ensures
            v == self@,
            Self::fits(v as int),
    {
        proof {
            use_type_invariant(self);
        }
        self.val as i32
    }
}

/// Index of a control and status register: 12 bits.
#[derive(Clone, Copy, Debug, PartialEq, Eq, Structural)]
pub struct Csr {
    index: u16,
}

impl Csr {
    #[verifier::type_invariant]
    spec fn in_range(self) -> bool {
        self.index < 4096
    }

    pub closed spec fn view(self) -> int {
        self.index as int
    }

    /// The value that holds `v`.
    pub closed spec fn spec_new(v: int) -> Csr {
        Csr { index: v as u16 }
    }

    pub open spec fn fits(v: int) -> bool {
        0 <= v < 4096
    }

    pub proof fn lemma_new(v: int)
        requires
            Self::fits(v),
        ensures
            Self::spec_new(v)@ == v,
    {
    }

    pub fn new(index: u32) -> (r: Csr)
        requires
            Self::fits(index as int),
        ensures
            r == Self::spec_new(index as int),
            r@ == index,
    {
        Csr { index: index as u16 }
    }

    pub fn value(self) -> (v: u32)
        ensures
            v == self@,
            v < 4096,
    {
        proof {
            use_type_invariant(self);
        }
        self.index as u32
    }
}

/// The four ordering bits of one side of a fence: input, output, read, write.
#[derive(Clone, Copy, Debug, PartialEq, Eq, Structural)]
pub struct FenceSet {
    set: u8,
}

impl FenceSet {
    #[verifier::type_invariant]
    spec fn in_range(self) -> bool {
        self.set < 16
    }

    pub closed spec fn view(self) -> int {
        self.set as int
    }

    /// The four bits as they stand in the instruction.
    pub closed spec fn bits(self) -> u8 {
        self.set
    }

    /// The value that holds `v`.
    pub closed spec fn spec_new(v: int) -> FenceSet {
        FenceSet { set: v as u8 }
    }

    pub open spec fn fits(v: int) -> bool {
        0 <= v < 16
    }

    pub proof fn lemma_new(v: int)
        requires
            Self::fits(v),
        ensures
            Self::spec_new(v)@ == v,
    {
    }

    /// Builds a set from its four bits; none of the upper four bits may be set.
    pub fn new(set: u8) -> (r: FenceSet)
        requires
            Self::fits(set as int),
        ensures
            r == Self::spec_new(set as int),
            r@ == set,
            r.bits() == set,
    {
        FenceSet { set }
    }

    pub fn raw(&self) -> (v: u8)
        ensures
            v == self@,
            v == self.bits(),
            v < 16,
    {
        proof {
            use_type_invariant(self);
        }
        self.set
    }

    /// Bit 3: device input.
    pub fn input(&self) -> (b: bool)
        ensures
            b == (self.bits() & 8 != 0),
    {
        self.set & 8 != 0
    }

    /// Bit 2: device output.
    pub fn output(&self) -> (b: bool)
        ensures
            b == (self.bits() & 4 != 0),
    {
        self.set & 4 != 0
    }

    /// Bit 1: memory reads.
    pub fn read(&self) -> (b: bool)
        ensures
            b == (self.bits() & 2 != 0),
    {
        self.set & 2 != 0
    }

    /// Bit 0: memory writes.
    pub fn write(&self) -> (b: bool)
        ensures
            b == (self.bits() & 1 != 0),
    {
        self.set & 1 != 0
    }
}

/// The mode field of a fence. A fence never traps, so other modes are kept as one.
#[derive(Clone, Copy, Debug, PartialEq, Eq, Structural)]
pub enum FenceMode {
    Normal,
    Tso,
    Other,
}

impl FenceMode {
    pub open spec fn spec_new(mode: u8) -> FenceMode {
        if mode == 0 {
            FenceMode::Normal
        } else if mode == 8 {
            FenceMode::Tso
        } else {
            FenceMode::Other
        }
    }

    pub fn new(mode: u8) -> (r: FenceMode)
        ensures
            r == Self::spec_new(mode),
    {
        match mode {
            0 => FenceMode::Normal,
            8 => FenceMode::Tso,
            _ => FenceMode::Other,
        }
    }
}

/// The class that the seven lowest bits of an instruction select.
#[derive(Clone, Copy, Debug, PartialEq, Eq, Structural)]
pub enum OpCode {
    Load,
    MiscMem,
    OpImm,
    Auipc,
    Store,
    Amo,
    Op,
    Lui,
    Branch,
    Jalr,
    Jal,
    System,
    Invalid,
}

impl OpCode {
    pub open spec fn spec_from_u32(op: u32) -> OpCode {
        if op == 0b0000011 {
            OpCode::Load
        } else if op == 0b0001111 {
            OpCode::MiscMem
        } else if op == 0b0010011 {
            OpCode::OpImm
        } else if op == 0b0010111 {
            OpCode::Auipc
        } else if op == 0b0100011 {
            OpCode::Store
        } else if op == 0b0101111 {
            OpCode::Amo
        } else if op == 0b0110011 {
            OpCode::Op
        } else if op == 0b0110111 {
            OpCode::Lui
        } else if op == 0b1100011 {
            OpCode::Branch
        } else if op == 0b1100111 {
            OpCode::Jalr
        } else if op == 0b1101111 {
            OpCode::Jal
        } else if op == 0b1110011 {
            OpCode::System
        } else {
            OpCode::Invalid
        }
    }

    /// The seven bits that select this class; `Invalid` has none and gives 0.
    pub open spec fn spec_bits(self) -> u32 {
        match self {
            OpCode::Load => 0b0000011,
            OpCode::MiscMem => 0b0001111,
            OpCode::OpImm => 0b0010011,
            OpCode::Auipc => 0b0010111,
            OpCode::Store => 0b0100011,
            OpCode::Amo => 0b0101111,
            OpCode::Op => 0b0110011,
            OpCode::Lui => 0b0110111,
            OpCode::Branch => 0b1100011,
            OpCode::Jalr => 0b1100111,
            OpCode::Jal => 0b1101111,
            OpCode::System => 0b1110011,
            OpCode::Invalid => 0,
        }
    }

    /// The class of the given opcode field.
    pub fn from_u32(op: u32) -> (r: OpCode)
        ensures
            r == Self::spec_from_u32(op),
    {
        match op {
            0b0000011 => OpCode::Load,
            0b0001111 => OpCode::MiscMem,
            0b0010011 => OpCode::OpImm,
            0b0010111 => OpCode::Auipc,
            0b0100011 => OpCode::Store,
            0b0101111 => OpCode::Amo,
            0b0110011 => OpCode::Op,
            0b0110111 => OpCode::Lui,
            0b1100011 => OpCode::Branch,
            0b1100111 => OpCode::Jalr,
            0b1101111 => OpCode::Jal,
            0b1110011 => OpCode::System,
            _ => OpCode::Invalid,
        }
    }
}

/// Every opcode class but `Invalid` is found again from its seven bits.
pub proof fn lemma_opcode_round_trip(op: OpCode)
    requires
        op != OpCode::Invalid,
    ensures
        OpCode::spec_from_u32(op.spec_bits()) == op,
{
}

impl From<u32> for OpCode {
    fn from(op: u32) -> (r: OpCode) {
        OpCode::from_u32(op)
    }
}

impl vstd::std_specs::convert::FromSpecImpl<u32> for OpCode {
    open spec fn obeys_from_spec() -> bool {
        true
    }

    open spec fn from_spec(op: u32) -> OpCode {
        OpCode::spec_from_u32(op)
    }
}

impl From<UInt5> for u32 {
    fn from(value: UInt5) -> (v: u32) {
        value.value()
    }
}

impl vstd::std_specs::convert::FromSpecImpl<UInt5> for u32 {
    open spec fn obeys_from_spec() -> bool {
        true
    }

    open spec fn from_spec(value: UInt5) -> u32 {
        value@ as u32
    }
}

impl From<Int12> for i32 {
    fn from(imm: Int12) -> (v: i32) {
        imm.value()
    }
}

impl vstd::std_specs::convert::FromSpecImpl<Int12> for i32 {
    open spec fn obeys_from_spec() -> bool {
        true
    }

    open spec fn from_spec(imm: Int12) -> i32 {
        imm@ as i32
    }
}

impl From<Int32Trunc12> for i32 {
    fn from(imm: Int32Trunc12) -> (v: i32) {
        imm.value()
    }
}

impl vstd::std_specs::convert::FromSpecImpl<Int32Trunc12> for i32 {
    open spec fn obeys_from_spec() -> bool {
        true
    }

    open spec fn from_spec(imm: Int32Trunc12) -> i32 {
        imm@ as i32
    }
}

impl From<Int21Trunc1> for i32 {
    fn from(imm: Int21Trunc1) -> (v: i32) {
        imm.value()
    }
}

impl vstd::std_specs::convert::FromSpecImpl<Int21Trunc1> for i32 {
    open spec fn obeys_from_spec() -> bool {
        true
    }

    open spec fn from_spec(imm: Int21Trunc1) -> i32 {
        imm@ as i32
    }
}

impl From<Int13Trunc1> for i32 {
    fn from(imm: Int13Trunc1) -> (v: i32) {
        imm.value()
    }
}

impl vstd::std_specs::convert::FromSpecImpl<Int13Trunc1> for i32 {
    open spec fn obeys_from_spec() -> bool {
        true
    }

    open spec fn from_spec(imm: Int13Trunc1) -> i32 {
        imm@ as i32
    }
}

} // verus!
