//! Fixed-point sine and cosine over turn-unit angles.
//!
//! An angle is an integer in `[0, TURN)`, one whole revolution being `TURN`.
//! The half-turn values come from a rational approximation (Bhaskara's
//! formula), evaluated exactly in integers; results are `UNIT`-scaled and
//! always lie in `[-UNIT, UNIT]`.

use vstd::prelude::*;
use crate::fxp::{iabs, tdiv, TURN, UNIT};

verus! {

/// Half a revolution, in turn units.
pub const HALF_TURN: i64 = 32768;

/// Quarter of a revolution, in turn units.
pub const QUARTER_TURN: i64 = 16384;

/// The `UNIT`-scaled sine of an angle in `[0, HALF_TURN]`, by Bhaskara's
/// rational approximation evaluated in exact integer arithmetic.
pub open spec fn sin_half_spec(x: int) -> int {
    16 * x * (HALF_TURN - x) * UNIT / (5 * HALF_TURN * HALF_TURN - 4 * x * (HALF_TURN - x))
}

/// The `UNIT`-scaled sine of an angle in `[0, TURN)`.
pub open spec fn sin_spec(a: int) -> int {
    if a <= HALF_TURN {
        sin_half_spec(a)
    } else {
        -sin_half_spec(a - HALF_TURN)
    }
}

/// The angle a quarter turn ahead, wrapped into `[0, TURN)`.
pub open spec fn quarter_ahead(a: int) -> int {
    if a + QUARTER_TURN < TURN {
        a + QUARTER_TURN
    } else {
        a + QUARTER_TURN - TURN
    }
}

/// The `UNIT`-scaled cosine of an angle in `[0, TURN)`.
pub open spec fn cos_spec(a: int) -> int {
    sin_spec(quarter_ahead(a))
}

/// Sine on `[0, HALF_TURN]`, exact to `sin_half_spec`.
fn sin_half(x: i64) -> (r: i64)
    requires
        0 <= x <= HALF_TURN,
    ensures
        r == sin_half_spec(x as int),
        0 <= r <= UNIT,
{
    proof {
        assert(0 <= (x as int) * (HALF_TURN - x) && 4 * ((x as int) * (HALF_TURN - x)) <= (
        HALF_TURN as int) * (HALF_TURN as int)) by (nonlinear_arith)
            requires
                0 <= x as int <= HALF_TURN as int,
            ;
    }
    let p: i128 = (x as i128) * ((HALF_TURN - x) as i128);
    let num: i128 = 16 * p * (UNIT as i128);
    let den: i128 = 5 * (HALF_TURN as i128) * (HALF_TURN as i128) - 4 * p;
    let q = crate::fxp::div_trunc(num, den);
    proof {
        assert(q == num as int / den as int);
        assert(num == 16 * (x as int) * (HALF_TURN - x) * UNIT && den == 5 * HALF_TURN * HALF_TURN
            - 4 * (x as int) * (HALF_TURN - x)) by (nonlinear_arith)
            requires
                p == (x as int) * (HALF_TURN - x),
                num == 16 * (p as int) * (UNIT as int),
                den == 5 * (HALF_TURN as int) * (HALF_TURN as int) - 4 * (p as int),
            ;
        assert(num as int <= den as int * UNIT && num as int / den as int <= UNIT && num as int
            / den as int >= 0) by (nonlinear_arith)
            requires
                num == 16 * (p as int) * (UNIT as int),
                den == 5 * (HALF_TURN as int) * (HALF_TURN as int) - 4 * (p as int),
                0 <= p as int,
                4 * (p as int) <= (HALF_TURN as int) * (HALF_TURN as int),
                UNIT as int == 65536,
                den > 0,
            ;
    }
    q as i64
}

/// The `UNIT`-scaled sine of a turn-unit angle.
pub fn sin_fp(a: i64) -> (r: i64)
    requires
        0 <= a < TURN,
    ensures
        r == sin_spec(a as int),
        iabs(r as int) <= UNIT as int,
{
    if a <= HALF_TURN {
        sin_half(a)
    } else {
        -sin_half(a - HALF_TURN)
    }
}

/// The `UNIT`-scaled cosine of a turn-unit angle.
pub fn cos_fp(a: i64) -> (r: i64)
    requires
        0 <= a < TURN,
    ensures
        r == cos_spec(a as int),
        iabs(r as int) <= UNIT as int,
{
    let shifted = if a + QUARTER_TURN < TURN {
        a + QUARTER_TURN
    } else {
        a + QUARTER_TURN - TURN
    };
    sin_fp(shifted)
}

} // verus!
