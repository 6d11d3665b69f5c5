//! The tagged value held in one operand stack slot.

use vstd::prelude::*;

use crate::object::PVObject;
use crate::opcodes::PrimOpKind;

verus! {

/// The 8-byte, 8-byte-aligned numeric payload slot of an `Int` value.
///
/// A consumer that knows the value's kind reads the low `width` bits as
/// the corresponding integer; the remaining high bits of an in-range
/// payload are zero.
#[derive(Clone, Copy, Debug, PartialEq, Eq, Structural)]
pub struct Aligned(pub u64);

/// One cell of the operand stack: absent, a fixed-width integer, or a
/// shared handle to a heap object.
#[derive(Clone, Copy, Debug, PartialEq, Eq, Structural)]
pub enum Value {
    /// The default, absent value.
    Null,
    /// A fixed-width integer: the kind names which low bits of the
    /// payload are meaningful.
    Int(PrimOpKind, Aligned),
    /// A shared handle to a heap cell; copying it shares the cell.
    Object(PVObject),
}

impl Value {
    /// An `Int` payload is kept in range for its kind: the unused high
    /// bits are zero. `Null` and `Object` carry no payload.
    pub open spec fn canonical(self) -> bool {
        match self {
            Value::Int(k, a) => k.fits(a.0),
            _ => true,
        }
    }

    /// The raw numeric payload: the stored bits for `Int`, zero for
    /// `Null` and `Object`.
    pub open spec fn payload_bits(self) -> u64 {
        match self {
            Value::Int(_, a) => a.0,
            _ => 0,
        }
    }

    /// Whether this value is `Null`.
    pub fn is_null(&self) -> (r: bool)
        ensures
            r == (self is Null),
    {
        match self {
            Value::Null => true,
            _ => false,
        }
    }

    /// Build an `Int` of the given kind from a raw bit pattern, keeping
    /// only the bits the kind names.
    pub fn from(bits: u64, k: PrimOpKind) -> (r: Value)
        ensures
            r == Value::Int(k, Aligned(k.spec_truncate(bits))),
            r.canonical(),
    {
        Value::Int(k, Aligned(k.truncate(bits)))
    }

    /// Build a `U8` value.
    pub fn from_u8(v: u8) -> (r: Value)
        ensures
            r == Value::Int(PrimOpKind::U8, Aligned(v as u64)),
            r.canonical(),
    {
        Value::Int(PrimOpKind::U8, Aligned(v as u64))
    }

    /// Build an `I8` value from the two's complement byte of `v`.
    pub fn from_i8(v: i8) -> (r: Value)
        ensures
            r == Value::Int(PrimOpKind::I8, Aligned(v as u8 as u64)),
            r.canonical(),
    {
        Value::Int(PrimOpKind::I8, Aligned(v as u8 as u64))
    }

    /// Build a `U16` value.
    pub fn from_u16(v: u16) -> (r: Value)
        ensures
            r == Value::Int(PrimOpKind::U16, Aligned(v as u64)),
            r.canonical(),
    {
        Value::Int(PrimOpKind::U16, Aligned(v as u64))
    }

    /// Build an `I16` value from the two's complement bytes of `v`.
    pub fn from_i16(v: i16) -> (r: Value)
        ensures
            r == Value::Int(PrimOpKind::I16, Aligned(v as u16 as u64)),
            r.canonical(),
    {
        Value::Int(PrimOpKind::I16, Aligned(v as u16 as u64))
    }

    /// Build a `U32` value.
    pub fn from_u32(v: u32) -> (r: Value)
        ensures
            r == Value::Int(PrimOpKind::U32, Aligned(v as u64)),
            r.canonical(),
    {
        Value::Int(PrimOpKind::U32, Aligned(v as u64))
    }

    /// Build an `I32` value from the two's complement bytes of `v`.
    pub fn from_i32(v: i32) -> (r: Value)
        ensures
            r == Value::Int(PrimOpKind::I32, Aligned(v as u32 as u64)),
            r.canonical(),
    {
        Value::Int(PrimOpKind::I32, Aligned(v as u32 as u64))
    }

    /// Build a `U64` value.
    pub fn from_u64(v: u64) -> (r: Value)
        ensures
            r == Value::Int(PrimOpKind::U64, Aligned(v)),
            r.canonical(),
    {
        Value::Int(PrimOpKind::U64, Aligned(v))
    }

    /// Build an `I64` value from the two's complement bytes of `v`.
    pub fn from_i64(v: i64) -> (r: Value)
        ensures
            r == Value::Int(PrimOpKind::I64, Aligned(v as u64)),
            r.canonical(),
    {
        Value::Int(PrimOpKind::I64, Aligned(v as u64))
    }

    /// Read the payload as a `u8`: the low byte for `Int`, zero for
    /// `Null` and `Object`.
    pub fn reinterpret_u8(&self) -> (r: u8)
        ensures
            r == self.payload_bits() as u8,
    {
        match self {
            Value::Int(_, a) => #[verifier::truncate] (a.0 as u8),
            _ => 0,
        }
    }

    /// Read the payload as an `i8` in two's complement.
    pub fn reinterpret_i8(&self) -> (r: i8)
        ensures
            r == self.payload_bits() as i8,
    {
        match self {
            Value::Int(_, a) => #[verifier::truncate] (a.0 as i8),
            _ => 0,
        }
    }

    /// Read the payload as a `u16`.
    pub fn reinterpret_u16(&self) -> (r: u16)
        ensures
            r == self.payload_bits() as u16,
    {
        match self {
            Value::Int(_, a) => #[verifier::truncate] (a.0 as u16),
            _ => 0,
        }
    }

    /// Read the payload as an `i16` in two's complement.
    pub fn reinterpret_i16(&self) -> (r: i16)
        ensures
            r == self.payload_bits() as i16,
    {
        match self {
            Value::Int(_, a) => #[verifier::truncate] (a.0 as i16),
            _ => 0,
        }
    }

    /// Read the payload as a `u32`.
    pub fn reinterpret_u32(&self) -> (r: u32)
        ensures
            r == self.payload_bits() as u32,
    {
        match self {
            Value::Int(_, a) => #[verifier::truncate] (a.0 as u32),
            _ => 0,
        }
    }

    /// Read the payload as an `i32` in two's complement.
    pub fn reinterpret_i32(&self) -> (r: i32)
        ensures
            r == self.payload_bits() as i32,
    {
        match self {
            Value::Int(_, a) => #[verifier::truncate] (a.0 as i32),
            _ => 0,
        }
    }

    /// Read the payload as a `u64`.
    pub fn reinterpret_u64(&self) -> (r: u64)
        ensures
            r == self.payload_bits(),
    {
        match self {
            Value::Int(_, a) => a.0,
            _ => 0,
        }
    }

    /// Read the payload as an `i64` in two's complement.
    pub fn reinterpret_i64(&self) -> (r: i64)
        ensures
            r == self.payload_bits() as i64,
    {
        match self {
            Value::Int(_, a) => #[verifier::truncate] (a.0 as i64),
            _ => 0,
        }
    }
}

impl Default for Value {
    /// A fresh stack slot is `Null`.
    fn default() -> (r: Self)
        ensures
            r is Null,
    {
        Value::Null
    }
}

/// Law: a value built from a `u8` reads back as exactly that integer.
pub proof fn lemma_round_trip_u8(v: u8)
    ensures
        Value::Int(PrimOpKind::U8, Aligned(v as u64)).payload_bits() as u8 == v,
{
}

/// Law: a value built from an `i8` reads back as exactly that integer.
pub proof fn lemma_round_trip_i8(v: i8)
    ensures
        Value::Int(PrimOpKind::I8, Aligned(v as u8 as u64)).payload_bits() as i8 == v,
{
    assert((v as u8 as u64) as i8 == v) by (bit_vector);
}

/// Law: a value built from a `u16` reads back as exactly that integer.
pub proof fn lemma_round_trip_u16(v: u16)
    ensures
        Value::Int(PrimOpKind::U16, Aligned(v as u64)).payload_bits() as u16 == v,
{
}

/// Law: a value built from an `i16` reads back as exactly that integer.
pub proof fn lemma_round_trip_i16(v: i16)
    ensures
        Value::Int(PrimOpKind::I16, Aligned(v as u16 as u64)).payload_bits() as i16 == v,
{
    assert((v as u16 as u64) as i16 == v) by (bit_vector);
}

/// Law: a value built from a `u32` reads back as exactly that integer.
pub proof fn lemma_round_trip_u32(v: u32)
    ensures
        Value::Int(PrimOpKind::U32, Aligned(v as u64)).payload_bits() as u32 == v,
{
}

/// Law: a value built from an `i32` reads back as exactly that integer.
pub proof fn lemma_round_trip_i32(v: i32)
    ensures
        Value::Int(PrimOpKind::I32, Aligned(v as u32 as u64)).payload_bits() as i32 == v,
{
    assert((v as u32 as u64) as i32 == v) by (bit_vector);
}

/// Law: a value built from a `u64` reads back as exactly that integer.
pub proof fn lemma_round_trip_u64(v: u64)
    ensures
        Value::Int(PrimOpKind::U64, Aligned(v)).payload_bits() == v,
{
}

/// Law: a value built from an `i64` reads back as exactly that integer.
pub proof fn lemma_round_trip_i64(v: i64)
    ensures
        Value::Int(PrimOpKind::I64, Aligned(v as u64)).payload_bits() as i64 == v,
{
    assert((v as u64) as i64 == v) by (bit_vector);
}

} // verus!
