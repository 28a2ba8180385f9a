//! Fixed-point arithmetic: the scale constants, truncating division and an
//! integer square root, which the rest of the pipeline builds on.

use vstd::prelude::*;

verus! {

/// Fixed-point scale: lengths, speeds, masses and scalar parameters are
/// integers counting units of `1 / UNIT`.
pub const UNIT: i64 = 65536;

/// Angles count fractions of a full turn: an angle of `TURN` is one whole
/// revolution.
pub const TURN: i64 = 65536;

/// Largest magnitude allowed for a shape-local coordinate, a translation
/// component, a speed component or a contact depth.
pub const MAX_COORD: i64 = 0x4000_0000;

/// Largest uniform scale factor a placement may carry (UNIT-scaled; 16x).
pub const MAX_SCALE: i64 = 0x10_0000;

/// Every world-space coordinate of a valid placed shape stays within this
/// bound (see `transform2d::Transform2d::transform_point`).
pub const WORLD_LIMIT: i64 = 0x10_0000_0000;

/// Magnitude of an integer.
pub open spec fn iabs(x: int) -> int {
    if x >= 0 {
        x
    } else {
        -x
    }
}

/// Division truncated toward zero (the direction Rust's `/` rounds),
/// defined for a positive divisor.
pub open spec fn tdiv(a: int, b: int) -> int {
    if a >= 0 {
        a / b
    } else {
        -((-a) / b)
    }
}

/// Quotient of two fixed-point numbers, truncated toward zero.
pub fn div_trunc(a: i128, b: i128) -> (r: i128)
    requires
        b > 0,
        a > i128::MIN,
    ensures
        r == tdiv(a as int, b as int),
        iabs(r as int) <= iabs(a as int),
{
    let neg = a < 0;
    let mag = if neg { (-a) as u128 } else { a as u128 };
    let q = mag / (b as u128);
    assert(q <= mag) by {
        assert(mag as int / b as int <= mag as int) by (nonlinear_arith)
            requires
                b as int >= 1,
                mag as int >= 0,
            ;
    };
    if neg {
        -(q as i128)
    } else {
        q as i128
    }
}

/// Integer square root: the greatest `r` with `r * r <= x`.
pub fn isqrt_u128(x: u128) -> (r: u128)
    ensures
        r * r <= x < (r + 1) * (r + 1),
        r < 0x1_0000_0000_0000_0000,
{
    let mut lo: u128 = 0;
    let mut hi: u128 = 0x1_0000_0000_0000_0000;
    assert(x < hi * hi) by (nonlinear_arith)
        requires
            hi == 0x1_0000_0000_0000_0000u128,
            x <= u128::MAX,
        ;
    while hi - lo > 1
        invariant
            lo < hi,
            hi <= 0x1_0000_0000_0000_0000,
            lo * lo <= x,
            x < hi * hi,
        decreases hi - lo,
    {
        let mid = lo + (hi - lo) / 2;
        assert(lo < mid < hi);
        assert(mid * mid < 0x1_0000_0000_0000_0000u128 * 0x1_0000_0000_0000_0000u128)
            by (nonlinear_arith)
            requires
                0 <= mid < 0x1_0000_0000_0000_0000u128,
            ;
        if mid * mid <= x {
            lo = mid;
        } else {
            hi = mid;
        }
    }
    lo
}

} // verus!
