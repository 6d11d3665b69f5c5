//! Wrapping arithmetic on the packed payloads, one operation per
//! declared kind.
//!
//! Operands and results are 64-bit patterns whose unused high bits are
//! zero; each operation wraps modulo `2^width` of the declared kind,
//! which is the same bit pattern for the signed and the unsigned
//! reading.

use vstd::prelude::*;

use crate::opcodes::PrimOpKind;

verus! {

/// The sum of two in-range patterns, wrapped modulo `2^width`.
pub open spec fn spec_wrap_add(k: PrimOpKind, x: u64, y: u64) -> u64
    recommends
        k.fits(x),
        k.fits(y),
{
    if x + y < k.bound() {
        (x + y) as u64
    } else {
        (x + y - k.bound()) as u64
    }
}

/// The difference of two in-range patterns, wrapped modulo `2^width`.
pub open spec fn spec_wrap_sub(k: PrimOpKind, x: u64, y: u64) -> u64
    recommends
        k.fits(x),
        k.fits(y),
{
    if x >= y {
        (x - y) as u64
    } else {
        (x - y + k.bound()) as u64
    }
}

/// The product of two in-range patterns, wrapped modulo `2^width`.
pub open spec fn spec_wrap_mul(k: PrimOpKind, x: u64, y: u64) -> u64
    recommends
        k.fits(x),
        k.fits(y),
{
    ((x as int * y as int) % k.bound()) as u64
}

/// The representative of `n` modulo `2^width` inside the kind's own
/// range: `[0, 2^width)` for the unsigned kinds, `[-2^(width-1),
/// 2^(width-1))` for the signed ones.
pub open spec fn wrap_to_kind(k: PrimOpKind, n: int) -> int {
    if k.is_signed() {
        (n + k.bound() / 2) % k.bound() - k.bound() / 2
    } else {
        n % k.bound()
    }
}

/// An in-range bit pattern congruent to `n` modulo `2^width` reads,
/// under the kind's interpretation, as the wrap of `n` into the
/// kind's range.
proof fn lemma_interp_wrap(k: PrimOpKind, bits: u64, n: int, t: int)
    requires
        k.fits(bits),
        n == k.interp(bits) + t * k.bound(),
    ensures
        k.interp(bits) == wrap_to_kind(k, n),
{
    let b = k.bound();
    let h = b / 2;
    let lv = k.interp(bits);
    assert(b == 2 * h);
    if k.is_signed() {
        assert(-h <= lv < h);
        assert(n + h == t * b + (lv + h));
        vstd::arithmetic::div_mod::lemma_fundamental_div_mod_converse(n + h, b, t, lv + h);
    } else {
        assert(0 <= lv < b);
        assert(n == t * b + lv);
        vstd::arithmetic::div_mod::lemma_fundamental_div_mod_converse(n, b, t, lv);
    }
}

/// Law: under the declared kind's interpretation, `Add` is addition
/// modulo `2^width`, for every width and signedness.
pub proof fn lemma_wrapping_add(k: PrimOpKind, x: u64, y: u64)
    requires
        k.fits(x),
        k.fits(y),
    ensures
        k.interp(spec_wrap_add(k, x, y)) == wrap_to_kind(k, k.interp(x) + k.interp(y)),
{
    let b = k.bound();
    let w = spec_wrap_add(k, x, y);
    let cx: int = if k.is_signed() && x >= b / 2 {
        1
    } else {
        0
    };
    let cy: int = if k.is_signed() && y >= b / 2 {
        1
    } else {
        0
    };
    let e: int = if x + y < b {
        0
    } else {
        1
    };
    let f: int = if k.is_signed() && w >= b / 2 {
        1
    } else {
        0
    };
    assert(k.interp(x) == x - cx * b);
    assert(k.interp(y) == y - cy * b);
    assert(w == x + y - e * b);
    assert(k.interp(w) == w - f * b);
    lemma_interp_wrap(k, w, k.interp(x) + k.interp(y), e + f - cx - cy);
}

/// Law: under the declared kind's interpretation, `Sub` is
/// subtraction modulo `2^width`, for every width and signedness.
pub proof fn lemma_wrapping_sub(k: PrimOpKind, x: u64, y: u64)
    requires
        k.fits(x),
        k.fits(y),
    ensures
        k.interp(spec_wrap_sub(k, x, y)) == wrap_to_kind(k, k.interp(x) - k.interp(y)),
{
    let b = k.bound();
    let w = spec_wrap_sub(k, x, y);
    let cx: int = if k.is_signed() && x >= b / 2 {
        1
    } else {
        0
    };
    let cy: int = if k.is_signed() && y >= b / 2 {
        1
    } else {
        0
    };
    let e: int = if x >= y {
        0
    } else {
        1
    };
    let f: int = if k.is_signed() && w >= b / 2 {
        1
    } else {
        0
    };
    assert(k.interp(x) == x - cx * b);
    assert(k.interp(y) == y - cy * b);
    assert(w == x - y + e * b);
    assert(k.interp(w) == w - f * b);
    lemma_interp_wrap(k, w, k.interp(x) - k.interp(y), f - e - cx + cy);
}

/// Law: under the declared kind's interpretation, `Mul` is
/// multiplication modulo `2^width`, for every width and signedness.
pub proof fn lemma_wrapping_mul(k: PrimOpKind, x: u64, y: u64)
    requires
        k.fits(x),
        k.fits(y),
    ensures
        k.interp(spec_wrap_mul(k, x, y)) == wrap_to_kind(k, k.interp(x) * k.interp(y)),
{
    let b = k.bound();
    let w = spec_wrap_mul(k, x, y);
    let p = x as int * y as int;
    let cx: int = if k.is_signed() && x >= b / 2 {
        1
    } else {
        0
    };
    let cy: int = if k.is_signed() && y >= b / 2 {
        1
    } else {
        0
    };
    vstd::arithmetic::div_mod::lemma_fundamental_div_mod(p, b);
    vstd::arithmetic::div_mod::lemma_mod_bound(p, b);
    let q = p / b;
    let f: int = if k.is_signed() && w >= b / 2 {
        1
    } else {
        0
    };
    assert(k.interp(x) == x - cx * b);
    assert(k.interp(y) == y - cy * b);
    assert(w == p % b);
    assert(k.interp(w) == w - f * b);
    assert((x - cx * b) * (y - cy * b) == x as int * y as int - b * (cx * y + cy * x - cx * cy
        * b)) by (nonlinear_arith);
    assert(k.interp(x) * k.interp(y) == k.interp(w) + (q - (cx * y + cy * x - cx * cy * b) + f)
        * b) by (nonlinear_arith)
        requires
            k.interp(x) * k.interp(y) == p - b * (cx * y + cy * x - cx * cy * b),
            p == b * q + (p % b),
            k.interp(w) == (p % b) - f * b,
    ;
    lemma_interp_wrap(k, w, k.interp(x) * k.interp(y), q - (cx * y + cy * x - cx * cy * b) + f);
}

/// Add two payloads as the kind's width, wrapping on overflow.
pub fn wrap_add(k: PrimOpKind, x: u64, y: u64) -> (r: u64)
    requires
        k.fits(x),
        k.fits(y),
    ensures
        r == spec_wrap_add(k, x, y),
        k.fits(r),
{
    match k {
        PrimOpKind::U8 | PrimOpKind::I8 => ((x as u8).wrapping_add(y as u8)) as u64,
        PrimOpKind::U16 | PrimOpKind::I16 => ((x as u16).wrapping_add(y as u16)) as u64,
        PrimOpKind::U32 | PrimOpKind::I32 => ((x as u32).wrapping_add(y as u32)) as u64,
        PrimOpKind::U64 | PrimOpKind::I64 => x.wrapping_add(y),
    }
}

/// Subtract two payloads as the kind's width, wrapping on overflow.
pub fn wrap_sub(k: PrimOpKind, x: u64, y: u64) -> (r: u64)
    requires
        k.fits(x),
        k.fits(y),
    ensures
        r == spec_wrap_sub(k, x, y),
        k.fits(r),
{
    match k {
        PrimOpKind::U8 | PrimOpKind::I8 => ((x as u8).wrapping_sub(y as u8)) as u64,
        PrimOpKind::U16 | PrimOpKind::I16 => ((x as u16).wrapping_sub(y as u16)) as u64,
        PrimOpKind::U32 | PrimOpKind::I32 => ((x as u32).wrapping_sub(y as u32)) as u64,
        PrimOpKind::U64 | PrimOpKind::I64 => x.wrapping_sub(y),
    }
}

/// Multiply two payloads as the kind's width, wrapping on overflow.
pub fn wrap_mul(k: PrimOpKind, x: u64, y: u64) -> (r: u64)
    requires
        k.fits(x),
        k.fits(y),
    ensures
        r == spec_wrap_mul(k, x, y),
        k.fits(r),
{
    match k {
        PrimOpKind::U8 | PrimOpKind::I8 => ((x as u8).wrapping_mul(y as u8)) as u64,
        PrimOpKind::U16 | PrimOpKind::I16 => ((x as u16).wrapping_mul(y as u16)) as u64,
        PrimOpKind::U32 | PrimOpKind::I32 => ((x as u32).wrapping_mul(y as u32)) as u64,
        PrimOpKind::U64 | PrimOpKind::I64 => x.wrapping_mul(y),
    }
}

} // verus!
