//! Operations, their numeric kinds, and the packed immediate they carry.

use vstd::prelude::*;

use crate::atoms::Atom;
use crate::value::Aligned;

verus! {

/// Numeric width and signedness declared by an `Int` value or an
/// arithmetic operation.
#[derive(Clone, Copy, Debug, PartialEq, Eq, PartialOrd, Ord, Structural)]
pub enum PrimOpKind {
    U8,
    I8,
    U16,
    I16,
    U32,
    I32,
    U64,
    I64,
}

impl PrimOpKind {
    /// Number of payload bits a value of this kind occupies.
    pub open spec fn width(self) -> nat {
        match self {
            PrimOpKind::U8 | PrimOpKind::I8 => 8,
            PrimOpKind::U16 | PrimOpKind::I16 => 16,
            PrimOpKind::U32 | PrimOpKind::I32 => 32,
            PrimOpKind::U64 | PrimOpKind::I64 => 64,
        }
    }

    /// `2^width`: one more than the largest bit pattern of this kind.
    pub open spec fn bound(self) -> int {
        match self {
            PrimOpKind::U8 | PrimOpKind::I8 => 0x100,
            PrimOpKind::U16 | PrimOpKind::I16 => 0x1_0000,
            PrimOpKind::U32 | PrimOpKind::I32 => 0x1_0000_0000,
            PrimOpKind::U64 | PrimOpKind::I64 => 0x1_0000_0000_0000_0000,
        }
    }

    /// Whether this kind is interpreted in two's complement.
    pub open spec fn is_signed(self) -> bool {
        match self {
            PrimOpKind::I8 | PrimOpKind::I16 | PrimOpKind::I32 | PrimOpKind::I64 => true,
            _ => false,
        }
    }

    /// A bit pattern is in range for the kind when its unused high bits
    /// are zero.
    pub open spec fn fits(self, bits: u64) -> bool {
        bits < self.bound()
    }

    /// The integer a bit pattern of this kind stands for: plain for the
    /// unsigned kinds, two's complement for the signed ones.
    pub open spec fn interp(self, bits: u64) -> int {
        if self.is_signed() && bits >= self.bound() / 2 {
            bits - self.bound()
        } else {
            bits as int
        }
    }

    /// Reduce a 64-bit pattern to the low bits of this kind.
    pub open spec fn spec_truncate(self, bits: u64) -> u64 {
        (bits as int % self.bound()) as u64
    }

    /// Keep only the low `width` bits of an arbitrary 64-bit pattern.
    pub fn truncate(self, bits: u64) -> (r: u64)
        ensures
            r == self.spec_truncate(bits),
            self.fits(r),
    {
        match self {
            PrimOpKind::U8 | PrimOpKind::I8 => bits % 0x100,
            PrimOpKind::U16 | PrimOpKind::I16 => bits % 0x1_0000,
            PrimOpKind::U32 | PrimOpKind::I32 => bits % 0x1_0000_0000,
            PrimOpKind::U64 | PrimOpKind::I64 => bits,
        }
    }
}

/// The 8-byte numeric payload embedded in an operation.
///
/// Only the low `width` bits named by the operation's kind are
/// meaningful; the readers below ignore the rest.
#[derive(Clone, Copy, Debug, PartialEq, Eq, Structural)]
pub struct IntOpImmediate(u64);

impl View for IntOpImmediate {
    type V = u64;

    closed spec fn view(&self) -> u64 {
        self.0
    }
}

impl IntOpImmediate {
    /// Wrap a raw 64-bit pattern as an immediate.
    pub fn from_bits(bits: u64) -> (r: Self)
        ensures
            r@ == bits,
    {
        IntOpImmediate(bits)
    }

    /// Build an immediate whose low byte is `v` and whose unused high
    /// bits are zero.
    pub fn from_u8(v: u8) -> (r: Self)
        ensures
            r@ == v as u64,
    {
        IntOpImmediate(v as u64)
    }

    /// Build an immediate holding the two's complement byte of `v`.
    pub fn from_i8(v: i8) -> (r: Self)
        ensures
            r@ == v as u8 as u64,
    {
        IntOpImmediate(v as u8 as u64)
    }

    /// Build an immediate whose low two bytes are `v`.
    pub fn from_u16(v: u16) -> (r: Self)
        ensures
            r@ == v as u64,
    {
        IntOpImmediate(v as u64)
    }

    /// Build an immediate holding the two's complement bytes of `v`.
    pub fn from_i16(v: i16) -> (r: Self)
        ensures
            r@ == v as u16 as u64,
    {
        IntOpImmediate(v as u16 as u64)
    }

    /// Build an immediate whose low four bytes are `v`.
    pub fn from_u32(v: u32) -> (r: Self)
        ensures
            r@ == v as u64,
    {
        IntOpImmediate(v as u64)
    }

    /// Build an immediate holding the two's complement bytes of `v`.
    pub fn from_i32(v: i32) -> (r: Self)
        ensures
            r@ == v as u32 as u64,
    {
        IntOpImmediate(v as u32 as u64)
    }

    /// Build an immediate holding all eight bytes of `v`.
    pub fn from_u64(v: u64) -> (r: Self)
        ensures
            r@ == v,
    {
        IntOpImmediate(v)
    }

    /// Build an immediate holding the two's complement bytes of `v`.
    pub fn from_i64(v: i64) -> (r: Self)
        ensures
            r@ == v as u64,
    {
        IntOpImmediate(v as u64)
    }

    /// Read the low byte. The kind handed in must be the operation's
    /// declared kind; any other is a malformed instruction stream.
    pub fn read_u8(&self, kind: PrimOpKind) -> (r: u8)
        requires
            kind == PrimOpKind::U8,
        ensures
            r == self@ as u8,
    {
        #[verifier::truncate] (self.0 as u8)
    }

    /// Read the low byte in two's complement.
    pub fn read_i8(&self, kind: PrimOpKind) -> (r: i8)
        requires
            kind == PrimOpKind::I8,
        ensures
            r == self@ as i8,
    {
        #[verifier::truncate] (self.0 as i8)
    }

    /// Read the low two bytes.
    pub fn read_u16(&self, kind: PrimOpKind) -> (r: u16)
        requires
            kind == PrimOpKind::U16,
        ensures
            r == self@ as u16,
    {
        #[verifier::truncate] (self.0 as u16)
    }

    /// Read the low two bytes in two's complement.
    pub fn read_i16(&self, kind: PrimOpKind) -> (r: i16)
        requires
            kind == PrimOpKind::I16,
        ensures
            r == self@ as i16,
    {
        #[verifier::truncate] (self.0 as i16)
    }

    /// Read the low four bytes.
    pub fn read_u32(&self, kind: PrimOpKind) -> (r: u32)
        requires
            kind == PrimOpKind::U32,
        ensures
            r == self@ as u32,
    {
        #[verifier::truncate] (self.0 as u32)
    }

    /// Read the low four bytes in two's complement.
    pub fn read_i32(&self, kind: PrimOpKind) -> (r: i32)
        requires
            kind == PrimOpKind::I32,
        ensures
            r == self@ as i32,
    {
        #[verifier::truncate] (self.0 as i32)
    }

    /// Read all eight bytes.
    pub fn read_u64(&self, kind: PrimOpKind) -> (r: u64)
        requires
            kind == PrimOpKind::U64,
        ensures
            r == self@,
    {
        self.0
    }

    /// Read all eight bytes in two's complement.
    pub fn read_i64(&self, kind: PrimOpKind) -> (r: i64)
        requires
            kind == PrimOpKind::I64,
        ensures
            r == self@ as i64,
    {
        #[verifier::truncate] (self.0 as i64)
    }

    /// The raw payload as an aligned 8-byte buffer.
    pub fn as_aligned(&self) -> (r: Aligned)
        ensures
            r.0 == self@,
    {
        Aligned(self.0)
    }

    /// Copy a slice of exactly `N` bytes into an array.
    pub fn slice_as_array<const N: usize>(s: &[u8]) -> (r: [u8; N])
        requires
            s@.len() == N,
        ensures
            r@ == s@,
    {
        let mut a: [u8; N] = vstd::array::array_fill_for_copy_types(0u8);
        let mut i: usize = 0;
        while i < N
            invariant
                i <= N,
                s@.len() == N,
                a@.len() == N,
                forall|j: int| 0 <= j < i ==> a@[j] == s@[j],
            decreases N - i,
        {
            a[i] = s[i];
            i = i + 1;
        }
        proof {
            assert(a@ =~= s@);
        }
        a
    }
}

/// One instruction of the machine.
///
/// Stack effects are written in postfix form, the top of the stack
/// rightmost in the "before" pattern.
#[derive(Clone, Copy, Debug, PartialEq, Eq, Structural)]
#[non_exhaustive]
pub enum Operation {
    /// Reserved discriminant zero; executing it is an error.
    Trap,
    /// `( n1 n2 -- sum )`
    Add(PrimOpKind),
    /// `( n1 -- sum )`
    AddImm(PrimOpKind, IntOpImmediate),
    /// `( n1 n2 -- diff )`
    Sub(PrimOpKind),
    /// `( n1 -- diff )`
    SubImm(PrimOpKind, IntOpImmediate),
    /// `( n1 n2 -- prod )`
    Mul(PrimOpKind),
    /// `( n1 -- prod )`
    MulImm(PrimOpKind, IntOpImmediate),
    /// `( n1 n2 -- quot rem )`; reserved, not yet implemented.
    Div(PrimOpKind),
    /// `( n1 -- quot rem )`; reserved, not yet implemented.
    DivImm(PrimOpKind, IntOpImmediate),
    /// `( -- imm )`
    PushImm(PrimOpKind, IntOpImmediate),
    /// `( -- obj )`
    PushAtom(Atom),
    /// `( -- map )`; the argument is a reserved capacity hint.
    MakeObject(u32),
    /// `( -- arr )`
    MakeArray,
    /// `( idx arr -- val )`
    IndexArray,
    /// `( val idx arr -- )`
    SetArray,
    /// `( v -- )`
    Drop,
    /// `( v -- v v )`
    Dup,
    /// `( y x -- x y )`
    Swap,
    /// `( v -- )`; emission to a host debug sink happens outside the
    /// machine, which only discards the operand.
    DebugOut,
    /// Sentinel after the last real operation, used for encoding.
    __Final,
}

impl Operation {
    /// The 1-byte discriminant this operation is encoded with.
    pub fn discriminant(&self) -> (r: u8)
        ensures
            r == self.spec_discriminant(),
    {
        match self {
            Operation::Trap => 0,
            Operation::Add(_) => 1,
            Operation::AddImm(_, _) => 2,
            Operation::Sub(_) => 3,
            Operation::SubImm(_, _) => 4,
            Operation::Mul(_) => 5,
            Operation::MulImm(_, _) => 6,
            Operation::Div(_) => 7,
            Operation::DivImm(_, _) => 8,
            Operation::PushImm(_, _) => 9,
            Operation::PushAtom(_) => 10,
            Operation::MakeObject(_) => 11,
            Operation::MakeArray => 12,
            Operation::IndexArray => 13,
            Operation::SetArray => 14,
            Operation::Drop => 15,
            Operation::Dup => 16,
            Operation::Swap => 17,
            Operation::DebugOut => 18,
            Operation::__Final => 19,
        }
    }

    /// The encoding of each operation, a distinct byte below `kinds`.
    pub open spec fn spec_discriminant(self) -> u8 {
        match self {
            Operation::Trap => 0,
            Operation::Add(_) => 1,
            Operation::AddImm(_, _) => 2,
            Operation::Sub(_) => 3,
            Operation::SubImm(_, _) => 4,
            Operation::Mul(_) => 5,
            Operation::MulImm(_, _) => 6,
            Operation::Div(_) => 7,
            Operation::DivImm(_, _) => 8,
            Operation::PushImm(_, _) => 9,
            Operation::PushAtom(_) => 10,
            Operation::MakeObject(_) => 11,
            Operation::MakeArray => 12,
            Operation::IndexArray => 13,
            Operation::SetArray => 14,
            Operation::Drop => 15,
            Operation::Dup => 16,
            Operation::Swap => 17,
            Operation::DebugOut => 18,
            Operation::__Final => 19,
        }
    }

    /// The number of operation discriminants, for range checks in
    /// encoders and decoders.
    pub fn kinds(&self) -> (r: u8)
        ensures
            r == 20,
            self.spec_discriminant() < r,
    {
        20
    }
}

} // verus!
