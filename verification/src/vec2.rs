//! Exact 2D vectors over fixed-point `i64` components, with the products
//! (dot, cross) widened to `i128` so they never overflow.

use vstd::prelude::*;
use crate::fxp::{iabs, tdiv, UNIT};

verus! {

/// A 2D vector or point; components are fixed-point (units of `1 / UNIT`).
#[derive(Clone, Copy, PartialEq, Eq, Structural, Debug)]
pub struct Vec2 {
    pub x: i64,
    pub y: i64,
}

/// Both components no larger than `m` in magnitude.
pub open spec fn bounded(v: Vec2, m: int) -> bool {
    iabs(v.x as int) <= m && iabs(v.y as int) <= m
}

/// Mathematical dot product.
pub open spec fn dot_spec(a: Vec2, b: Vec2) -> int {
    a.x * b.x + a.y * b.y
}

/// Mathematical 2D cross product (the z component of the 3D cross).
pub open spec fn cross_spec(a: Vec2, b: Vec2) -> int {
    a.x * b.y - a.y * b.x
}

/// The magnitude of a product is the product of the magnitudes.
pub proof fn lemma_mul_bound(a: int, b: int, m: int, n: int)
    by (nonlinear_arith)
    requires
        iabs(a) <= m,
        iabs(b) <= n,
    ensures
        iabs(a * b) <= m * n,
{
}

impl Vec2 {
    pub fn new(x: i64, y: i64) -> (r: Vec2)
        ensures
            r == (Vec2 { x, y }),
    {
        Vec2 { x, y }
    }

    pub fn zero() -> (r: Vec2)
        ensures
            r == (Vec2 { x: 0i64, y: 0i64 }),
    {
        Vec2 { x: 0, y: 0 }
    }

    /// Componentwise sum.
    pub fn add(self, other: Vec2) -> (r: Vec2)
        requires
            i64::MIN <= self.x + other.x <= i64::MAX,
            i64::MIN <= self.y + other.y <= i64::MAX,
        ensures
            r.x == self.x + other.x,
            r.y == self.y + other.y,
    {
        Vec2 { x: self.x + other.x, y: self.y + other.y }
    }

    /// Componentwise difference.
    pub fn sub(self, other: Vec2) -> (r: Vec2)
        requires
            i64::MIN <= self.x - other.x <= i64::MAX,
            i64::MIN <= self.y - other.y <= i64::MAX,
        ensures
            r.x == self.x - other.x,
            r.y == self.y - other.y,
    {
        Vec2 { x: self.x - other.x, y: self.y - other.y }
    }

    pub fn neg(self) -> (r: Vec2)
        requires
            self.x > i64::MIN,
            self.y > i64::MIN,
        ensures
            r.x == -self.x,
            r.y == -self.y,
    {
        Vec2 { x: -self.x, y: -self.y }
    }

    /// The counter-clockwise perpendicular `(-y, x)`.
    pub fn perp(self) -> (r: Vec2)
        requires
            self.y > i64::MIN,
        ensures
            r.x == -self.y,
            r.y == self.x,
    {
        Vec2 { x: -self.y, y: self.x }
    }

    /// Exact dot product, widened so it cannot overflow.
    pub fn dot(self, other: Vec2) -> (r: i128)
        requires
            self.x > i64::MIN,
            self.y > i64::MIN,
        ensures
            r == dot_spec(self, other),
    {
        proof {
            lemma_mul_bound(self.x as int, other.x as int, 0x7fff_ffff_ffff_ffff, 0x8000_0000_0000_0000);
            lemma_mul_bound(self.y as int, other.y as int, 0x7fff_ffff_ffff_ffff, 0x8000_0000_0000_0000);
        }
        (self.x as i128) * (other.x as i128) + (self.y as i128) * (other.y as i128)
    }

    /// Exact 2D cross product, widened so it cannot overflow.
    pub fn cross(self, other: Vec2) -> (r: i128)
        requires
            self.x > i64::MIN,
            self.y > i64::MIN,
        ensures
            r == cross_spec(self, other),
    {
        proof {
            lemma_mul_bound(self.x as int, other.y as int, 0x7fff_ffff_ffff_ffff, 0x8000_0000_0000_0000);
            lemma_mul_bound(self.y as int, other.x as int, 0x7fff_ffff_ffff_ffff, 0x8000_0000_0000_0000);
        }
        (self.x as i128) * (other.y as i128) - (self.y as i128) * (other.x as i128)
    }


    /// The planar cross product with a scalar: the vector
    /// `(s * v.y, -s * v.x) / UNIT`, the velocity a point at lever `v`
    /// gains from angular speed `s`.
    pub fn cross_float(self, rhs: i64) -> (r: Vec2)
        requires
            bounded(self, 0x4000_0000),
            iabs(rhs as int) <= 0x4000_0000,
        ensures
            r.x == tdiv(rhs * self.y, UNIT as int),
            r.y == -tdiv(rhs * self.x, UNIT as int),
    {
        proof {
            lemma_mul_bound(rhs as int, self.y as int, 0x4000_0000, 0x4000_0000);
            lemma_mul_bound(rhs as int, self.x as int, 0x4000_0000, 0x4000_0000);
            lemma_tdiv_scaled_bound(rhs * self.y, UNIT as int);
            lemma_tdiv_scaled_bound(rhs * self.x, UNIT as int);
        }
        let a = crate::fxp::div_trunc((rhs as i128) * (self.y as i128), UNIT as i128);
        let b = crate::fxp::div_trunc((rhs as i128) * (self.x as i128), UNIT as i128);
        Vec2 { x: a as i64, y: (-b) as i64 }
    }

    /// The planar cross product of two vectors, as a scalar.
    pub fn cross_vec(self, rhs: Vec2) -> (r: i128)
        requires
            self.x > i64::MIN,
            self.y > i64::MIN,
        ensures
            r == cross_spec(self, rhs),
    {
        self.cross(rhs)
    }

    /// Rotate by the `UNIT`-scaled rotor `(c, s)`:
    /// `((c*x - s*y) / UNIT, (s*x + c*y) / UNIT)`, truncated.
    pub fn rotate_by(self, c: i64, s: i64) -> (r: Vec2)
        requires
            bounded(self, 0x100_0000_0000),
            iabs(c as int) <= UNIT as int,
            iabs(s as int) <= UNIT as int,
        ensures
            r.x == tdiv(c * self.x - s * self.y, UNIT as int),
            r.y == tdiv(s * self.x + c * self.y, UNIT as int),
            iabs(r.x as int) <= iabs(self.x as int) + iabs(self.y as int),
            iabs(r.y as int) <= iabs(self.x as int) + iabs(self.y as int),
    {
        proof {
            lemma_mul_bound(c as int, self.x as int, UNIT as int, iabs(self.x as int));
            lemma_mul_bound(s as int, self.y as int, UNIT as int, iabs(self.y as int));
            lemma_mul_bound(s as int, self.x as int, UNIT as int, iabs(self.x as int));
            lemma_mul_bound(c as int, self.y as int, UNIT as int, iabs(self.y as int));
        }
        let nx: i128 = (c as i128) * (self.x as i128) - (s as i128) * (self.y as i128);
        let ny: i128 = (s as i128) * (self.x as i128) + (c as i128) * (self.y as i128);
        let rx = crate::fxp::div_trunc(nx, UNIT as i128);
        let ry = crate::fxp::div_trunc(ny, UNIT as i128);
        proof {
            lemma_tdiv_scaled_bound(nx as int, UNIT as int);
            lemma_tdiv_scaled_bound(ny as int, UNIT as int);
            assert(iabs(tdiv(nx as int, UNIT as int)) <= iabs(self.x as int) + iabs(self.y as int))
                by (nonlinear_arith)
                requires
                    iabs(tdiv(nx as int, UNIT as int)) * (UNIT as int) <= iabs(nx as int),
                    iabs(nx as int) <= (UNIT as int) * (iabs(self.x as int) + iabs(
                    self.y as int)),
                    UNIT as int > 0,
                ;
            assert(iabs(tdiv(ny as int, UNIT as int)) <= iabs(self.x as int) + iabs(self.y as int))
                by (nonlinear_arith)
                requires
                    iabs(tdiv(ny as int, UNIT as int)) * (UNIT as int) <= iabs(ny as int),
                    iabs(ny as int) <= (UNIT as int) * (iabs(self.x as int) + iabs(
                    self.y as int)),
                    UNIT as int > 0,
                ;
        }
        Vec2 { x: rx as i64, y: ry as i64 }
    }

    /// Multiply by a fixed-point scalar: `v * s / UNIT`, truncated.
    pub fn scale_fp(self, s: i64) -> (r: Vec2)
        requires
            bounded(self, crate::fxp::MAX_COORD as int),
            0 < s <= crate::fxp::MAX_SCALE,
        ensures
            r.x == tdiv(self.x * s, UNIT as int),
            r.y == tdiv(self.y * s, UNIT as int),
            iabs(r.x as int) <= 16 * iabs(self.x as int),
            iabs(r.y as int) <= 16 * iabs(self.y as int),
    {
        proof {
            lemma_mul_bound(self.x as int, s as int, iabs(self.x as int), crate::fxp::MAX_SCALE as int);
            lemma_mul_bound(self.y as int, s as int, iabs(self.y as int), crate::fxp::MAX_SCALE as int);
        }
        let px = crate::fxp::div_trunc((self.x as i128) * (s as i128), UNIT as i128);
        let py = crate::fxp::div_trunc((self.y as i128) * (s as i128), UNIT as i128);
        proof {
            lemma_tdiv_scaled_bound(self.x * s, UNIT as int);
            lemma_tdiv_scaled_bound(self.y * s, UNIT as int);
            assert(iabs(tdiv(self.x * s, UNIT as int)) <= 16 * iabs(self.x as int)) by (nonlinear_arith)
                requires
                    iabs(tdiv(self.x * s, UNIT as int)) * (UNIT as int) <= iabs((self.x * s) as int),
                    iabs((self.x * s) as int) <= iabs(self.x as int) * (crate::fxp::MAX_SCALE as int),
                    crate::fxp::MAX_SCALE as int == 16 * (UNIT as int),
                    UNIT as int > 0,
                    iabs(self.x as int) >= 0,
                ;
            assert(iabs(tdiv(self.y * s, UNIT as int)) <= 16 * iabs(self.y as int)) by (nonlinear_arith)
                requires
                    iabs(tdiv(self.y * s, UNIT as int)) * (UNIT as int) <= iabs((self.y * s) as int),
                    iabs((self.y * s) as int) <= iabs(self.y as int) * (crate::fxp::MAX_SCALE as int),
                    crate::fxp::MAX_SCALE as int == 16 * (UNIT as int),
                    UNIT as int > 0,
                    iabs(self.y as int) >= 0,
                ;
        }
        Vec2 { x: px as i64, y: py as i64 }
    }
}

/// Truncating division loses less than one divisor's worth:
/// `|a / b| * b >= |a| - b + 1`.
pub proof fn lemma_tdiv_lower(a: int, b: int)
    requires
        b > 0,
    ensures
        iabs(tdiv(a, b)) * b >= iabs(a) - b + 1,
{
    vstd::arithmetic::div_mod::lemma_fundamental_div_mod(iabs(a), b);
    vstd::arithmetic::div_mod::lemma_mod_bound(iabs(a), b);
    if a >= 0 {
        assert(iabs(tdiv(a, b)) == iabs(a) / b);
    } else {
        assert(tdiv(a, b) == -((-a) / b));
        assert((-a) / b >= 0) by (nonlinear_arith)
            requires
                -a >= 0,
                b > 0,
        ;
        assert(iabs(tdiv(a, b)) == iabs(a) / b);
    }
    assert(iabs(a) == b * (iabs(a) / b) + iabs(a) % b);
    assert(iabs(tdiv(a, b)) * b == b * (iabs(a) / b)) by (nonlinear_arith)
        requires
            iabs(tdiv(a, b)) == iabs(a) / b,
    ;
}

/// Truncating division shrinks: `|a / b| * b <= |a|`.
pub proof fn lemma_tdiv_scaled_bound(a: int, b: int)
    requires
        b > 0,
    ensures
        iabs(tdiv(a, b)) * b <= iabs(a),
        iabs(tdiv(a, b)) <= iabs(a),
{
    if a >= 0 {
        assert(iabs(tdiv(a, b)) * b <= iabs(a)) by (nonlinear_arith)
            requires
                a >= 0,
                b > 0,
                tdiv(a, b) == a / b,
            ;
    } else {
        assert(iabs(tdiv(a, b)) * b <= iabs(a)) by (nonlinear_arith)
            requires
                a < 0,
                b > 0,
                tdiv(a, b) == -((-a) / b),
            ;
    }
    assert(iabs(tdiv(a, b)) <= iabs(tdiv(a, b)) * b) by (nonlinear_arith)
        requires
            b >= 1,
            iabs(tdiv(a, b)) >= 0,
        ;
}

} // verus!
