//! Rigid bodies and the semi-implicit Euler integrator.
//!
//! A kinematic body has infinite mass: it reports zero inverse mass, is
//! never moved by impulses or integration, and has its velocities and
//! accelerations forcibly zeroed each tick.

use vstd::prelude::*;
use crate::fxp::{iabs, tdiv, MAX_COORD, TURN, UNIT};
use crate::vec2::{bounded, Vec2};

verus! {

/// The fixed simulation step, `UNIT`-scaled: one sixtieth of a second.
pub const TIMESTEP: i64 = 1092;

/// Gravity's downward pull, `UNIT`-scaled units per second squared.
pub const GRAVITY: i64 = 642908;

/// The largest linear speed (per axis) a body may carry, `UNIT`-scaled;
/// velocity updates clamp to it.
pub const SPEED_LIMIT: i64 = 0x4000_0000;

/// The largest angular speed a body may carry, in turn units per second:
/// small enough that one step advances the rotation by less than a turn.
pub const ANGULAR_LIMIT: i64 = 0x20_0000;

/// A rigid body: mass, kinematic flag, and the linear and angular
/// velocity and acceleration accumulators.
#[derive(Clone, Copy, PartialEq, Eq, Structural, Debug)]
pub struct RigidBody2d {
    pub mass: i64,
    pub friction: i64,
    pub is_kinematic: bool,
    pub linear_speed: Vec2,
    pub angular_speed: i64,
    pub linear_acceleration: Vec2,
    pub angular_acceleration: i64,
}

/// The `UNIT`-scaled inverse mass a body reports: zero when kinematic.
pub open spec fn inv_mass_spec(body: RigidBody2d) -> int {
    if body.is_kinematic {
        0
    } else {
        (UNIT * UNIT) / (body.mass as int)
    }
}

impl RigidBody2d {
    /// Positive mass and bounded velocities and accelerations.
    pub open spec fn valid(self) -> bool {
        &&& 0 < self.mass <= MAX_COORD
        &&& bounded(self.linear_speed, SPEED_LIMIT as int)
        &&& iabs(self.angular_speed as int) <= ANGULAR_LIMIT as int
        &&& bounded(self.linear_acceleration, SPEED_LIMIT as int)
        &&& iabs(self.angular_acceleration as int) <= ANGULAR_LIMIT as int
    }

    /// The body's effective mass: its own for a dynamic body, the largest
    /// representable mass for a kinematic (immovable) one.
    pub fn get_mass(&self) -> (r: i64)
        ensures
            self.is_kinematic ==> r == i64::MAX,
            !self.is_kinematic ==> r == self.mass,
    {
        if self.is_kinematic {
            return i64::MAX;
        }
        self.mass
    }

    /// The body's inverse mass, `UNIT`-scaled: zero for a kinematic body,
    /// `UNIT * UNIT / mass` for a dynamic one.
    pub fn get_inv_mass(&self) -> (r: i64)
        requires
            self.valid(),
        ensures
            r == inv_mass_spec(*self),
            self.is_kinematic ==> r == 0,
            0 <= r <= UNIT * UNIT,
    {
        if self.is_kinematic {
            return 0;
        }
        let q = (UNIT as i128) * (UNIT as i128) / (self.mass as i128);
        proof {
            assert((UNIT as int) * (UNIT as int) / (self.mass as int) <= (UNIT as int) * (
            UNIT as int) && (UNIT as int) * (UNIT as int) / (self.mass as int) >= 0)
                by (nonlinear_arith)
                requires
                    0 < self.mass as int,
                    UNIT as int == 65536,
                ;
        }
        q as i64
    }
}

impl Default for RigidBody2d {
    /// A dynamic body of mass ten at rest.
    fn default() -> (r: RigidBody2d)
        ensures
            r.mass == 10 * UNIT,
            r.friction == 58982,
            !r.is_kinematic,
            r.linear_speed == (Vec2 { x: 0i64, y: 0i64 }),
            r.angular_speed == 0,
            r.linear_acceleration == (Vec2 { x: 0i64, y: 0i64 }),
            r.angular_acceleration == 0,
            r.valid(),
    {
        RigidBody2d {
            mass: 10 * UNIT,
            friction: 58982,
            is_kinematic: false,
            linear_speed: Vec2 { x: 0, y: 0 },
            angular_speed: 0,
            linear_acceleration: Vec2 { x: 0, y: 0 },
            angular_acceleration: 0,
        }
    }
}

/// One fixed-point integration term: `value * TIMESTEP / UNIT`.
pub open spec fn step_term(v: int) -> int {
    tdiv(v * TIMESTEP, UNIT as int)
}

/// The integrator's full step relation between a body and placement
/// before and after one fixed step: a kinematic body keeps its placement
/// and has every velocity and acceleration accumulator zeroed; a dynamic
/// body accumulates gravity (when enabled) into its acceleration, clamps
/// velocity += acceleration * step into the speed limit, advances
/// position by the new velocity and rotation by the angular speed.
pub open spec fn integrated(
    b0: RigidBody2d,
    t0: crate::transform2d::Transform2d,
    gravity_enabled: bool,
    b1: RigidBody2d,
    t1: crate::transform2d::Transform2d,
) -> bool {
    &&& b1.mass == b0.mass
    &&& b1.friction == b0.friction
    &&& b1.is_kinematic == b0.is_kinematic
    &&& t1.scale == t0.scale
    &&& if b0.is_kinematic {
        &&& t1 == t0
        &&& b1.linear_speed == (Vec2 { x: 0i64, y: 0i64 })
        &&& b1.angular_speed == 0
        &&& b1.linear_acceleration == (Vec2 { x: 0i64, y: 0i64 })
        &&& b1.angular_acceleration == 0
    } else {
        let ay = b0.linear_acceleration.y - (if gravity_enabled {
            GRAVITY as int
        } else {
            0int
        });
        &&& b1.linear_acceleration == b0.linear_acceleration
        &&& b1.angular_acceleration == b0.angular_acceleration
        &&& b1.angular_speed == b0.angular_speed
        &&& b1.linear_speed.x == clamp_speed(
            b0.linear_speed.x + step_term(b0.linear_acceleration.x as int),
        )
        &&& b1.linear_speed.y == clamp_speed(b0.linear_speed.y + step_term(ay))
        &&& t1.translation.x == clamp_coord(t0.translation.x + step_term(b1.linear_speed.x as int))
        &&& t1.translation.y == clamp_coord(t0.translation.y + step_term(b1.linear_speed.y as int))
        &&& t1.rotation == wrap_turn(t0.rotation + step_term(b0.angular_speed as int))
    }
}

/// Integrate one body over one fixed step.
///
/// A dynamic body accumulates gravity (when enabled) into its
/// acceleration, then velocity += acceleration * step (clamped to the
/// speed limit), position += velocity * step, rotation += angular
/// velocity * step (wrapped into one turn). A kinematic body is left in
/// place with all velocities and accelerations zeroed.
pub fn update_rigidbody(
    body: &mut RigidBody2d,
    transform: &mut crate::transform2d::Transform2d,
    gravity_enabled: bool,
) -> (moved: bool)
    requires
        old(body).valid(),
        old(transform).valid(),
    ensures
        final(body).valid(),
        final(transform).valid(),
        integrated(
            *old(body),
            *old(transform),
            gravity_enabled,
            *final(body),
            *final(transform),
        ),
        final(body).mass == old(body).mass,
        final(body).friction == old(body).friction,
        final(body).is_kinematic == old(body).is_kinematic,
        final(transform).scale == old(transform).scale,
        old(body).is_kinematic ==> {
            &&& *final(transform) == *old(transform)
            &&& final(body).linear_speed == (Vec2 { x: 0i64, y: 0i64 })
            &&& final(body).angular_speed == 0
            &&& final(body).linear_acceleration == (Vec2 { x: 0i64, y: 0i64 })
            &&& final(body).angular_acceleration == 0
        },
        !old(body).is_kinematic ==> {
            let acc = (Vec2 {
                x: old(body).linear_acceleration.x,
                y: (old(body).linear_acceleration.y - if gravity_enabled {
                    GRAVITY as int
                } else {
                    0int
                }) as i64,
            });
            &&& final(body).linear_acceleration == old(body).linear_acceleration
            &&& final(body).linear_speed.x == clamp_speed(
                old(body).linear_speed.x + step_term(acc.x as int),
            )
            &&& final(body).linear_speed.y == clamp_speed(
                old(body).linear_speed.y + step_term(acc.y as int),
            )
            &&& final(body).angular_speed == old(body).angular_speed
            &&& final(body).angular_acceleration == old(body).angular_acceleration
            &&& final(transform).translation.x == clamp_coord(
                old(transform).translation.x + step_term(final(body).linear_speed.x as int),
            )
            &&& final(transform).translation.y == clamp_coord(
                old(transform).translation.y + step_term(final(body).linear_speed.y as int),
            )
            &&& final(transform).rotation == wrap_turn(
                old(transform).rotation + step_term(old(body).angular_speed as int),
            )
        },
        old(body).is_kinematic ==> !moved,
        !old(body).is_kinematic ==> moved == (*final(transform) != *old(transform)),
{
    if body.is_kinematic {
        body.linear_speed = Vec2 { x: 0, y: 0 };
        body.linear_acceleration = Vec2 { x: 0, y: 0 };
        body.angular_speed = 0;
        body.angular_acceleration = 0;
        return false;
    }
    let mut acc = body.linear_acceleration;
    if gravity_enabled {
        acc.y = acc.y - GRAVITY;
    }
    let vx = clamp_speed_exec(add_step(body.linear_speed.x, acc.x));
    let vy = clamp_speed_exec(add_step(body.linear_speed.y, acc.y));
    body.linear_speed = Vec2 { x: vx, y: vy };
    let px = clamp_coord_exec(add_step(transform.translation.x, vx));
    let py = clamp_coord_exec(add_step(transform.translation.y, vy));
    let rot = wrap_turn_exec(add_step(transform.rotation, body.angular_speed));
    let moved = px != transform.translation.x || py != transform.translation.y || rot
        != transform.rotation;
    transform.translation = Vec2 { x: px, y: py };
    transform.rotation = rot;
    moved
}

/// A value clamped into the speed limit.
pub open spec fn clamp_speed(v: int) -> int {
    if v > SPEED_LIMIT {
        SPEED_LIMIT as int
    } else if v < -SPEED_LIMIT {
        -SPEED_LIMIT as int
    } else {
        v
    }
}

/// A value clamped into the coordinate bound.
pub open spec fn clamp_coord(v: int) -> int {
    if v > MAX_COORD {
        MAX_COORD as int
    } else if v < -MAX_COORD {
        -MAX_COORD as int
    } else {
        v
    }
}

/// An angle wrapped into `[0, TURN)`, for drifts of less than one turn.
pub open spec fn wrap_turn(v: int) -> int {
    if v >= TURN {
        v - TURN
    } else if v < 0 {
        v + TURN
    } else {
        v
    }
}

/// `base + value * TIMESTEP / UNIT`, exact.
fn add_step(base: i64, v: i64) -> (r: i64)
    requires
        iabs(base as int) <= 0x8000_0000_0000,
        iabs(v as int) <= 0x8000_0000_0000,
    ensures
        r == base + step_term(v as int),
{
    proof {
        crate::vec2::lemma_mul_bound(v as int, TIMESTEP as int, 0x8000_0000_0000, 1092);
        crate::vec2::lemma_tdiv_scaled_bound(v * TIMESTEP, UNIT as int);
    }
    let dt = crate::fxp::div_trunc((v as i128) * (TIMESTEP as i128), UNIT as i128);
    proof {
        assert(iabs(tdiv(v * TIMESTEP, UNIT as int)) <= 0x8000_0000_0000) by (nonlinear_arith)
            requires
                iabs(tdiv(v * TIMESTEP, UNIT as int)) * (UNIT as int) <= iabs((v * TIMESTEP) as int),
                iabs((v * TIMESTEP) as int) <= 0x8000_0000_0000 * 1092,
                UNIT as int == 65536,
            ;
    }
    base + (dt as i64)
}

fn clamp_speed_exec(v: i64) -> (r: i64)
    ensures
        r == clamp_speed(v as int),
        iabs(r as int) <= SPEED_LIMIT as int,
{
    if v > SPEED_LIMIT {
        SPEED_LIMIT
    } else if v < -SPEED_LIMIT {
        -SPEED_LIMIT
    } else {
        v
    }
}

fn clamp_coord_exec(v: i64) -> (r: i64)
    ensures
        r == clamp_coord(v as int),
        iabs(r as int) <= MAX_COORD as int,
{
    if v > MAX_COORD {
        MAX_COORD
    } else if v < -MAX_COORD {
        -MAX_COORD
    } else {
        v
    }
}

fn wrap_turn_exec(v: i64) -> (r: i64)
    requires
        -TURN <= v < 2 * TURN,
    ensures
        r == wrap_turn(v as int),
        0 <= r < TURN,
{
    if v >= TURN {
        v - TURN
    } else if v < 0 {
        v + TURN
    } else {
        v
    }
}

} // verus!
