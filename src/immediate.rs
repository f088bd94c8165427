//! The tagged runtime value of the machine and its per-tag operations.
use vstd::prelude::*;

use crate::endian::{
    be_bytes_u16, be_bytes_u32, be_bytes_u64, be_value_u16, be_value_u32, be_value_u64,
    read_u16_be, read_u32_be, read_u64_be, write_u16_be, write_u32_be, write_u64_be,
};
use crate::vm::Fault;


verus! {

/// Where a pointer points: a local arena slot, a static binding, or a heap
/// cell. Every dereference is checked against the memory it names.
#[derive(Debug, Clone, Copy, PartialEq, Eq, Structural)]
pub enum Address {
    Slot(usize),
    Static(usize),
    Heap(usize),
}

/// Every runtime value. Floating-point values are carried as their IEEE-754
/// bit patterns; aggregates are carried as handles into the machine's tables.
#[derive(Debug, Clone, Copy, PartialEq, Eq, Structural)]
pub enum Immediate {
    U8(u8),
    U16(u16),
    U32(u32),
    U64(u64),
    USize(usize),
    /// Bit pattern of a single-precision float.
    Float(u32),
    /// Bit pattern of a double-precision float.
    Double(u64),
    Char(char),
    /// A mutable pointer.
    Pointer(Address),
    /// An immutable pointer.
    PointerConst(Address),
    /// Handle of an array whose elements share one tag.
    Array(usize),
    /// Handle of a tuple, structure or empty variant.
    Variant(usize),
    /// Handle of a typed object in the machine's object store.
    DetailedType(usize),
    /// Handle of a function.
    Function(usize),
}

impl Immediate {
    /// Fixed-width unsigned integer tags.
    pub open spec fn is_integer(self) -> bool {
        ||| self is U8
        ||| self is U16
        ||| self is U32
        ||| self is U64
        ||| self is USize
    }

    /// Tags that a value-converting coercion accepts.
    pub open spec fn is_convertible(self) -> bool {
        self.is_integer() || self is Char
    }

    /// Tags on which `is_zero` is defined.
    pub open spec fn is_numeric(self) -> bool {
        self.is_integer() || self is Char || self is Float || self is Double
    }

    pub open spec fn same_tag(self, other: Immediate) -> bool {
        match (self, other) {
            (Immediate::U8(_), Immediate::U8(_)) => true,
            (Immediate::U16(_), Immediate::U16(_)) => true,
            (Immediate::U32(_), Immediate::U32(_)) => true,
            (Immediate::U64(_), Immediate::U64(_)) => true,
            (Immediate::USize(_), Immediate::USize(_)) => true,
            (Immediate::Float(_), Immediate::Float(_)) => true,
            (Immediate::Double(_), Immediate::Double(_)) => true,
            (Immediate::Char(_), Immediate::Char(_)) => true,
            (Immediate::Pointer(_), Immediate::Pointer(_)) => true,
            (Immediate::PointerConst(_), Immediate::PointerConst(_)) => true,
            (Immediate::Array(_), Immediate::Array(_)) => true,
            (Immediate::Variant(_), Immediate::Variant(_)) => true,
            (Immediate::DetailedType(_), Immediate::DetailedType(_)) => true,
            (Immediate::Function(_), Immediate::Function(_)) => true,
            _ => false,
        }
    }

    /// The unsigned value of an integer or character.
    pub open spec fn value(self) -> int {
        match self {
            Immediate::U8(d) => d as int,
            Immediate::U16(d) => d as int,
            Immediate::U32(d) => d as int,
            Immediate::U64(d) => d as int,
            Immediate::USize(d) => d as int,
            Immediate::Char(c) => c as int,
            _ => 0,
        }
    }

    /// One more than the largest value of an integer tag.
    pub open spec fn modulus(self) -> int {
        match self {
            Immediate::U8(_) => 0x100,
            Immediate::U16(_) => 0x1_0000,
            Immediate::U32(_) => 0x1_0000_0000,
            Immediate::U64(_) => 0x1_0000_0000_0000_0000,
            Immediate::USize(_) => usize::MAX as int + 1,
            _ => 1,
        }
    }

    /// The value of an integer read as two's complement at its width.
    pub open spec fn signed_value(self) -> int {
        if 2 * self.value() >= self.modulus() {
            self.value() - self.modulus()
        } else {
            self.value()
        }
    }

    /// The integer of this tag that holds `v` (truncated to its width).
    pub open spec fn with_value(self, v: int) -> Immediate {
        match self {
            Immediate::U8(_) => Immediate::U8(v as u8),
            Immediate::U16(_) => Immediate::U16(v as u16),
            Immediate::U32(_) => Immediate::U32(v as u32),
            Immediate::U64(_) => Immediate::U64(v as u64),
            _ => Immediate::USize(v as usize),
        }
    }

    /// Zero of this tag; for a float, either signed zero.
    pub open spec fn spec_is_zero(self) -> bool {
        match self {
            Immediate::Float(bits) => bits & 0x7fff_ffffu32 == 0,
            Immediate::Double(bits) => bits & 0x7fff_ffff_ffff_ffffu64 == 0,
            _ => self.value() == 0,
        }
    }

    /// The top bit at the value's width; a character is read as its low byte.
    pub open spec fn spec_msb(self) -> bool {
        match self {
            Immediate::Char(c) => (c as u8) >= 0x80,
            _ => 2 * self.value() >= self.modulus(),
        }
    }

    pub open spec fn spec_lsb(self) -> bool {
        match self {
            Immediate::Char(c) => (c as u8) % 2 == 1,
            _ => self.value() % 2 == 1,
        }
    }

    /// The big-endian bytes of an integer at its width; a pointer-sized
    /// integer takes eight bytes.
    pub open spec fn bytes(self) -> Seq<u8> {
        match self {
            Immediate::U8(d) => seq![d],
            Immediate::U16(d) => be_bytes_u16(d),
            Immediate::U32(d) => be_bytes_u32(d),
            Immediate::U64(d) => be_bytes_u64(d),
            Immediate::USize(d) => be_bytes_u64(d as u64),
            _ => Seq::empty(),
        }
    }

    /// The integer of the width of `b` whose big-endian form is `b`.
    pub open spec fn decoded(b: Seq<u8>) -> Option<Immediate> {
        if b.len() == 1 {
            Some(Immediate::U8(b[0]))
        } else if b.len() == 2 {
            Some(Immediate::U16(be_value_u16(b)))
        } else if b.len() == 4 {
            Some(Immediate::U32(be_value_u32(b)))
        } else if b.len() == 8 {
            Some(Immediate::U64(be_value_u64(b)))
        } else {
            None
        }
    }

    /// The boolean encoding of the machine: true is zero, false is all ones.
    pub open spec fn spec_bool_equivalent(input: bool) -> Immediate {
        if input {
            Immediate::U8(0)
        } else {
            Immediate::U8(0xff)
        }
    }

    pub fn bool_equivalent(input: bool) -> (r: Immediate)
        ensures
            r == Immediate::spec_bool_equivalent(input),
    {
        if input {
            Immediate::U8(0)
        } else {
            Immediate::U8(u8::MAX)
        }
    }

    pub fn is_integer_tag(&self) -> (r: bool)
        ensures
            r == self.is_integer(),
    {
        matches!(
            self,
            Immediate::U8(_) | Immediate::U16(_) | Immediate::U32(_) | Immediate::U64(_)
                | Immediate::USize(_)
        )
    }

    pub fn is_convertible_tag(&self) -> (r: bool)
        ensures
            r == self.is_convertible(),
    {
        matches!(
            self,
            Immediate::U8(_) | Immediate::U16(_) | Immediate::U32(_) | Immediate::U64(_)
                | Immediate::USize(_) | Immediate::Char(_)
        )
    }

    pub fn is_numeric_tag(&self) -> (r: bool)
        ensures
            r == self.is_numeric(),
    {
        matches!(
            self,
            Immediate::U8(_) | Immediate::U16(_) | Immediate::U32(_) | Immediate::U64(_)
                | Immediate::USize(_) | Immediate::Char(_) | Immediate::Float(_)
                | Immediate::Double(_)
        )
    }

    pub fn has_same_tag(&self, other: &Immediate) -> (r: bool)
        ensures
            r == self.same_tag(*other),
    {
        match (self, other) {
            (Immediate::U8(_), Immediate::U8(_)) => true,
            (Immediate::U16(_), Immediate::U16(_)) => true,
            (Immediate::U32(_), Immediate::U32(_)) => true,
            (Immediate::U64(_), Immediate::U64(_)) => true,
            (Immediate::USize(_), Immediate::USize(_)) => true,
            (Immediate::Float(_), Immediate::Float(_)) => true,
            (Immediate::Double(_), Immediate::Double(_)) => true,
            (Immediate::Char(_), Immediate::Char(_)) => true,
            (Immediate::Pointer(_), Immediate::Pointer(_)) => true,
            (Immediate::PointerConst(_), Immediate::PointerConst(_)) => true,
            (Immediate::Array(_), Immediate::Array(_)) => true,
            (Immediate::Variant(_), Immediate::Variant(_)) => true,
            (Immediate::DetailedType(_), Immediate::DetailedType(_)) => true,
            (Immediate::Function(_), Immediate::Function(_)) => true,
            _ => false,
        }
    }

    /// The unsigned value of an integer or character, widened.
    pub fn raw_value(&self) -> (r: u64)
        requires
            self.is_convertible(),
        ensures
            r as int == self.value(),
    {
        match self {
            Immediate::U8(d) => *d as u64,
            Immediate::U16(d) => *d as u64,
            Immediate::U32(d) => *d as u64,
            Immediate::U64(d) => *d,
            Immediate::USize(d) => *d as u64,
            Immediate::Char(c) => *c as u32 as u64,
            _ => 0,
        }
    }

    pub fn into_u8(self) -> (r: Immediate)
        requires
            self.is_convertible(),
        ensures
            r == Immediate::U8(self.value() as u8),
    {
        let v = self.raw_value();
        Immediate::U8(v as u8)
    }

    pub fn into_u16(self) -> (r: Immediate)
        requires
            self.is_convertible(),
        ensures
            r == Immediate::U16(self.value() as u16),
    {
        let v = self.raw_value();
        Immediate::U16(v as u16)
    }

    pub fn into_u32(self) -> (r: Immediate)
        requires
            self.is_convertible(),
        ensures
            r == Immediate::U32(self.value() as u32),
    {
        let v = self.raw_value();
        Immediate::U32(v as u32)
    }

    pub fn into_u64(self) -> (r: Immediate)
        requires
            self.is_convertible(),
        ensures
            r == Immediate::U64(self.value() as u64),
    {
        let v = self.raw_value();
        Immediate::U64(v)
    }

    pub fn into_usize(self) -> (r: Immediate)
        requires
            self.is_convertible(),
        ensures
            r == Immediate::USize(self.value() as usize),
    {
        let v = self.raw_value();
        Immediate::USize(v as usize)
    }

    /// The value converted to a byte, when the value is an integer or a
    /// character.
    pub fn try_into_u8(self) -> (r: Result<u8, Fault>)
        ensures
            self.is_convertible() ==> r == Ok::<u8, Fault>(self.value() as u8),
            !self.is_convertible() ==> r == Err::<u8, Fault>(Fault::PrimitiveTypeMismatch),
    {
        if !self.is_convertible_tag() {
            return Err(Fault::PrimitiveTypeMismatch);
        }
        Ok(self.raw_value() as u8)
    }

    pub fn try_into_u16(self) -> (r: Result<u16, Fault>)
        ensures
            self.is_convertible() ==> r == Ok::<u16, Fault>(self.value() as u16),
            !self.is_convertible() ==> r == Err::<u16, Fault>(Fault::PrimitiveTypeMismatch),
    {
        if !self.is_convertible_tag() {
            return Err(Fault::PrimitiveTypeMismatch);
        }
        Ok(self.raw_value() as u16)
    }

    pub fn try_into_u32(self) -> (r: Result<u32, Fault>)
        ensures
            self.is_convertible() ==> r == Ok::<u32, Fault>(self.value() as u32),
            !self.is_convertible() ==> r == Err::<u32, Fault>(Fault::PrimitiveTypeMismatch),
    {
        if !self.is_convertible_tag() {
            return Err(Fault::PrimitiveTypeMismatch);
        }
        Ok(self.raw_value() as u32)
    }

    pub fn try_into_u64(self) -> (r: Result<u64, Fault>)
        ensures
            self.is_convertible() ==> r == Ok::<u64, Fault>(self.value() as u64),
            !self.is_convertible() ==> r == Err::<u64, Fault>(Fault::PrimitiveTypeMismatch),
    {
        if !self.is_convertible_tag() {
            return Err(Fault::PrimitiveTypeMismatch);
        }
        Ok(self.raw_value())
    }

    /// The character held, when the value is one.
    pub fn try_into_char(self) -> (r: Result<char, Fault>)
        ensures
            self matches Immediate::Char(c) ==> r == Ok::<char, Fault>(c),
            !(self is Char) ==> r == Err::<char, Fault>(Fault::PrimitiveTypeMismatch),
    {
        match self {
            Immediate::Char(c) => Ok(c),
            _ => Err(Fault::PrimitiveTypeMismatch),
        }
    }

    /// A byte becomes the character of that code point.
    pub fn into_char(self) -> (r: Immediate)
        requires
            self is U8,
        ensures
            self matches Immediate::U8(d) ==> r == Immediate::Char(d as char),
            r is Char && r.value() == self.value(),
    {
        match self {
            Immediate::U8(d) => Immediate::Char(d as char),
            _ => self,
        }
    }

    /// Reinterprets the bits of a double as an unsigned 64-bit integer; any
    /// other convertible value is converted by value.
    pub fn into_u64_no_coercion(self) -> (r: Immediate)
        requires
            self.is_convertible() || self is Double,
        ensures
            self matches Immediate::Double(bits) ==> r == Immediate::U64(bits),
            self.is_convertible() ==> r == Immediate::U64(self.value() as u64),
    {
        match self {
            Immediate::Double(bits) => Immediate::U64(bits),
            _ => self.into_u64(),
        }
    }

    /// Reinterprets the bits of a 32-bit integer as a float; a float stays as
    /// it is; any other convertible value is first converted to 32 bits.
    pub fn into_float_no_coercion(self) -> (r: Immediate)
        requires
            self.is_convertible() || self is Float,
        ensures
            self is Float ==> r == self,
            self.is_convertible() ==> r == Immediate::Float(self.value() as u32),
    {
        match self {
            Immediate::Float(_) => self,
            _ => {
                let v = self.raw_value();
                Immediate::Float(v as u32)
            },
        }
    }

    /// Reinterprets the bits of a 64-bit integer as a double; a double stays
    /// as it is; any other convertible value is first converted to 64 bits.
    pub fn into_double_no_coercion(self) -> (r: Immediate)
        requires
            self.is_convertible() || self is Double,
        ensures
            self is Double ==> r == self,
            self.is_convertible() ==> r == Immediate::Double(self.value() as u64),
    {
        match self {
            Immediate::Double(_) => self,
            _ => {
                let v = self.raw_value();
                Immediate::Double(v)
            },
        }
    }

    /// Converts an integer to the integer of `size` bytes.
    pub fn into_size(self, size: u8) -> (r: Result<Immediate, Fault>)
        ensures
            !self.is_integer() ==> r == Err::<Immediate, Fault>(Fault::PrimitiveTypeMismatch),
            self.is_integer() ==> r == match size {
                1 => Ok(Immediate::U8(self.value() as u8)),
                2 => Ok(Immediate::U16(self.value() as u16)),
                4 => Ok(Immediate::U32(self.value() as u32)),
                8 => Ok(Immediate::U64(self.value() as u64)),
                _ => Err(Fault::InvalidMemorySize),
            },
    {
        if !self.is_integer_tag() {
            return Err(Fault::PrimitiveTypeMismatch);
        }
        match size {
            1 => Ok(self.into_u8()),
            2 => Ok(self.into_u16()),
            4 => Ok(self.into_u32()),
            8 => Ok(self.into_u64()),
            _ => Err(Fault::InvalidMemorySize),
        }
    }

    pub fn is_zero(&self) -> (r: bool)
        requires
            self.is_numeric(),
        ensures
            r == self.spec_is_zero(),
    {
        match self {
            Immediate::Float(bits) => *bits & 0x7fff_ffffu32 == 0,
            Immediate::Double(bits) => *bits & 0x7fff_ffff_ffff_ffffu64 == 0,
            _ => self.raw_value() == 0,
        }
    }

    /// The most significant bit.
    pub fn msb(&self) -> (r: bool)
        requires
            self.is_convertible(),
        ensures
            r == self.spec_msb(),
    {
        match self {
            Immediate::U8(d) => *d >= 0x80,
            Immediate::U16(d) => *d >= 0x8000,
            Immediate::U32(d) => *d >= 0x8000_0000,
            Immediate::U64(d) => *d >= 0x8000_0000_0000_0000,
            Immediate::USize(d) => *d > usize::MAX / 2,
            Immediate::Char(c) => (*c as u32 as u8) >= 0x80,
            _ => false,
        }
    }

    /// The least significant bit.
    pub fn lsb(&self) -> (r: bool)
        requires
            self.is_convertible(),
        ensures
            r == self.spec_lsb(),
    {
        match self {
            Immediate::Char(c) => (*c as u32 as u8) % 2 == 1,
            _ => self.raw_value() % 2 == 1,
        }
    }

    /// The big-endian bytes of an integer.
    pub fn to_bytes(&self) -> (r: Vec<u8>)
        requires
            self.is_integer(),
        ensures
            r@ == self.bytes(),
    {
        match self {
            Immediate::U8(d) => {
                let mut v: Vec<u8> = Vec::new();
                v.push(*d);
                proof {
                    assert(v@ =~= seq![*d]);
                }
                v
            },
            Immediate::U16(d) => write_u16_be(*d),
            Immediate::U32(d) => write_u32_be(*d),
            Immediate::U64(d) => write_u64_be(*d),
            Immediate::USize(d) => write_u64_be(*d as u64),
            _ => Vec::new(),
        }
    }

    /// The integer whose big-endian form is `bytes`; its width is the number
    /// of bytes, which must be 1, 2, 4 or 8.
    pub fn from_bytes(bytes: &[u8]) -> (r: Result<Immediate, Fault>)
        ensures
            r == match Immediate::decoded(bytes@) {
                Some(i) => Ok(i),
                None => Err(Fault::InvalidMemorySize),
            },
    {
        let n = bytes.len();
        if n == 1 {
            Ok(Immediate::U8(bytes[0]))
        } else if n == 2 {
            Ok(Immediate::U16(read_u16_be(bytes)))
        } else if n == 4 {
            Ok(Immediate::U32(read_u32_be(bytes)))
        } else if n == 8 {
            Ok(Immediate::U64(read_u64_be(bytes)))
        } else {
            Err(Fault::InvalidMemorySize)
        }
    }

    /// The number of set bits in the big-endian bytes of an integer.
    pub fn set_bits(&self) -> (r: u8)
        requires
            self.is_integer(),
        ensures
            r as nat == bytes_popcount(self.bytes()),
    {
        let bytes = self.to_bytes();
        let mut count: u8 = 0;
        let mut i: usize = 0;
        while i < bytes.len()
            invariant
                bytes@ == self.bytes(),
                bytes@.len() <= 8,
                i <= bytes@.len(),
                count as nat == bytes_popcount(bytes@.subrange(0, i as int)),
                count <= 8 * i,
            decreases bytes.len() - i,
        {
            let b = bytes[i];
            let c = byte_set_bits(b);
            proof {
                lemma_bytes_popcount_push(bytes@.subrange(0, i as int), b);
                assert(bytes@.subrange(0, i as int).push(b) =~= bytes@.subrange(0, i + 1));
            }
            count = count + c;
            i = i + 1;
        }
        proof {
            assert(bytes@.subrange(0, bytes@.len() as int) =~= bytes@);
        }
        count
    }

    /// Whether a plain copy of this value is a complete copy of it. Aggregates
    /// and typed objects are copied only through the typed copy rules.
    pub fn can_copy(&self) -> (r: bool)
        ensures
            r == !(self is Array || self is Variant || self is Function || self is DetailedType),
    {
        !matches!(
            self,
            Immediate::Array(_) | Immediate::Variant(_) | Immediate::Function(_)
                | Immediate::DetailedType(_)
        )
    }
}

/// Number of set bits of a byte.
pub open spec fn byte_popcount(b: u8) -> nat
    decreases b,
{
    if b == 0 {
        0
    } else {
        (b % 2) as nat + byte_popcount(b / 2)
    }
}

/// Number of set bits over a byte sequence.
pub open spec fn bytes_popcount(s: Seq<u8>) -> nat
    decreases s.len(),
{
    if s.len() == 0 {
        0
    } else {
        bytes_popcount(s.drop_last()) + byte_popcount(s.last())
    }
}

proof fn lemma_bytes_popcount_push(s: Seq<u8>, b: u8)
    ensures
        bytes_popcount(s.push(b)) == bytes_popcount(s) + byte_popcount(b),
{
    assert(s.push(b).drop_last() =~= s);
}

/// `2^k`.
pub open spec fn two_to(k: nat) -> nat
    decreases k,
{
    if k == 0 {
        1
    } else {
        2 * two_to((k - 1) as nat)
    }
}

/// Counts the set bits of one byte.
fn byte_set_bits(b: u8) -> (r: u8)
    ensures
        r as nat == byte_popcount(b),
        r <= 8,
{
    let mut v: u8 = b;
    let mut count: u8 = 0;
    let mut steps: u8 = 0;
    proof {
        reveal_with_fuel(two_to, 9);
    }
    while v != 0
        invariant
            count as nat + byte_popcount(v) == byte_popcount(b),
            (v as nat) < two_to((8 - steps) as nat),
            steps <= 8,
            count <= steps,
        decreases v,
    {
        assert(steps < 8) by {
            if steps == 8 {
                assert(two_to(0) == 1);
            }
        };
        assert(two_to((8 - steps) as nat) == 2 * two_to((8 - steps - 1) as nat));
        count = count + v % 2;
        v = v / 2;
        steps = steps + 1;
    }
    count
}

/// Serializing an integer to its big-endian bytes and decoding them at the
/// same width gives back the same value; a fixed-width integer comes back
/// with its own tag, a pointer-sized one as the 64-bit integer of that value.
pub proof fn lemma_bytes_round_trip(i: Immediate)
    requires
        i.is_integer(),
    ensures
        Immediate::decoded(i.bytes()) is Some,
        Immediate::decoded(i.bytes())->0.value() == i.value(),
        !(i is USize) ==> Immediate::decoded(i.bytes()) == Some(i),
{
    match i {
        Immediate::U8(d) => {},
        Immediate::U16(d) => {
            crate::endian::lemma_be_u16_round_trip(d);
        },
        Immediate::U32(d) => {
            crate::endian::lemma_be_u32_round_trip(d);
        },
        Immediate::U64(d) => {
            crate::endian::lemma_be_u64_round_trip(d);
        },
        Immediate::USize(d) => {
            crate::endian::lemma_be_u64_round_trip(d as u64);
        },
        _ => {},
    }
}

} // verus!
