//! IEEE 754 bit-pattern arithmetic-free facts.
//!
//! A binary32 value is carried as its bit pattern in a `u32`, a binary64 value
//! as its bit pattern in a `u64`.  Classification (NaN, finite, zero) and the
//! standard `<` / `<=` comparisons of non-NaN values are plain integer
//! functions of those patterns, so they are defined and verified here rather
//! than trusted:
//!
//! * the magnitude of a pattern is the pattern with the sign bit cleared; a
//!   value is NaN when its magnitude exceeds the infinity pattern, finite when
//!   its magnitude is below it, and zero when its magnitude is zero;
//! * `key` maps every non-NaN pattern to a `u32`/`u64` so that the IEEE order
//!   of the values is exactly the unsigned order of the keys: both zeros map
//!   to the middle point, other non-negative patterns are shifted up by the
//!   sign bit, and negative patterns are complemented (negative values grow
//!   downward as their patterns grow upward);
//! * `a < b` on floats is false whenever either side is NaN, and otherwise
//!   agrees with the key order.

use vstd::prelude::*;

verus! {

/// Sign bit of a binary32 pattern.
pub const F32_SIGN: u32 = 0x8000_0000;

/// Magnitude of the binary32 infinity pattern.
pub const F32_INF_MAG: u32 = 0x7f80_0000;

/// Sign bit of a binary64 pattern.
pub const F64_SIGN: u64 = 0x8000_0000_0000_0000;

/// Magnitude of the binary64 infinity pattern.
pub const F64_INF_MAG: u64 = 0x7ff0_0000_0000_0000;

/// Bit pattern of the binary64 value +0.0.
pub const F64_POS_ZERO: u64 = 0;

/// The pattern with the sign bit cleared.
pub open spec fn f32_mag(x: u32) -> u32 {
    if x >= F32_SIGN { (x - F32_SIGN) as u32 } else { x }
}

pub open spec fn f32_is_nan(x: u32) -> bool {
    f32_mag(x) > F32_INF_MAG
}

pub open spec fn f32_is_finite(x: u32) -> bool {
    f32_mag(x) < F32_INF_MAG
}

pub open spec fn f32_is_zero(x: u32) -> bool {
    f32_mag(x) == 0
}

/// Order-embedding of non-NaN binary32 patterns into the unsigned order.
pub open spec fn f32_key(x: u32) -> u32 {
    if f32_is_zero(x) {
        F32_SIGN
    } else if x >= F32_SIGN {
        (0xffff_ffffu32 - x) as u32
    } else {
        (x + F32_SIGN) as u32
    }
}

/// IEEE `a < b` on binary32 patterns: false on NaN, the key order otherwise.
pub open spec fn f32_lt(a: u32, b: u32) -> bool {
    !f32_is_nan(a) && !f32_is_nan(b) && f32_key(a) < f32_key(b)
}

/// IEEE `a <= b` on binary32 patterns.
pub open spec fn f32_le(a: u32, b: u32) -> bool {
    !f32_is_nan(a) && !f32_is_nan(b) && f32_key(a) <= f32_key(b)
}

/// IEEE `a >= +0.0` on binary32 patterns.
pub open spec fn f32_ge_zero(x: u32) -> bool {
    !f32_is_nan(x) && f32_key(x) >= F32_SIGN
}

pub open spec fn f64_mag(x: u64) -> u64 {
    if x >= F64_SIGN { (x - F64_SIGN) as u64 } else { x }
}

pub open spec fn f64_is_nan(x: u64) -> bool {
    f64_mag(x) > F64_INF_MAG
}

pub open spec fn f64_is_finite(x: u64) -> bool {
    f64_mag(x) < F64_INF_MAG
}

pub open spec fn f64_is_zero(x: u64) -> bool {
    f64_mag(x) == 0
}

/// Order-embedding of non-NaN binary64 patterns into the unsigned order.
pub open spec fn f64_key(x: u64) -> u64 {
    if f64_is_zero(x) {
        F64_SIGN
    } else if x >= F64_SIGN {
        (0xffff_ffff_ffff_ffffu64 - x) as u64
    } else {
        (x + F64_SIGN) as u64
    }
}

/// IEEE `a < b` on binary64 patterns: false on NaN, the key order otherwise.
pub open spec fn f64_lt(a: u64, b: u64) -> bool {
    !f64_is_nan(a) && !f64_is_nan(b) && f64_key(a) < f64_key(b)
}

/// IEEE `a >= +0.0` on binary64 patterns.
pub open spec fn f64_ge_zero(x: u64) -> bool {
    !f64_is_nan(x) && f64_key(x) >= F64_SIGN
}

pub fn f32_key_exec(x: u32) -> (r: u32)
    ensures
        r == f32_key(x),
{
    if x == 0 || x == F32_SIGN {
        F32_SIGN
    } else if x >= F32_SIGN {
        0xffff_ffffu32 - x
    } else {
        x + F32_SIGN
    }
}

pub fn f32_is_finite_exec(x: u32) -> (r: bool)
    ensures
        r == f32_is_finite(x),
{
    let m: u32 = if x >= F32_SIGN { x - F32_SIGN } else { x };
    m < F32_INF_MAG
}

pub fn f32_ge_zero_exec(x: u32) -> (r: bool)
    ensures
        r == f32_ge_zero(x),
{
    let m: u32 = if x >= F32_SIGN { x - F32_SIGN } else { x };
    m <= F32_INF_MAG && f32_key_exec(x) >= F32_SIGN
}

pub fn f64_key_exec(x: u64) -> (r: u64)
    ensures
        r == f64_key(x),
{
    if x == 0 || x == F64_SIGN {
        F64_SIGN
    } else if x >= F64_SIGN {
        0xffff_ffff_ffff_ffffu64 - x
    } else {
        x + F64_SIGN
    }
}

pub fn f64_is_finite_exec(x: u64) -> (r: bool)
    ensures
        r == f64_is_finite(x),
{
    let m: u64 = if x >= F64_SIGN { x - F64_SIGN } else { x };
    m < F64_INF_MAG
}

pub fn f64_lt_exec(a: u64, b: u64) -> (r: bool)
    ensures
        r == f64_lt(a, b),
{
    let ma: u64 = if a >= F64_SIGN { a - F64_SIGN } else { a };
    let mb: u64 = if b >= F64_SIGN { b - F64_SIGN } else { b };
    ma <= F64_INF_MAG && mb <= F64_INF_MAG && f64_key_exec(a) < f64_key_exec(b)
}

} // verus!
