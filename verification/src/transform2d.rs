//! A placement: translation, rotation and uniform scale, applied to local
//! points as scale, then rotate, then translate — all in exact fixed point.

use vstd::prelude::*;
use crate::fxp::{iabs, tdiv, MAX_COORD, MAX_SCALE, TURN, UNIT, WORLD_LIMIT};
use crate::trig::{cos_fp, cos_spec, sin_fp, sin_spec};
use crate::vec2::{bounded, Vec2};

verus! {

/// Translation, rotation (turn units in `[0, TURN)`) and uniform scale
/// (`UNIT`-scaled, in `(0, MAX_SCALE]`).
#[derive(Clone, Copy, PartialEq, Eq, Structural, Debug)]
pub struct Transform2d {
    pub translation: Vec2,
    pub rotation: i64,
    pub scale: i64,
}

impl Transform2d {
    /// The bounds every placement must keep so that transformed points fit
    /// within `WORLD_LIMIT`.
    pub open spec fn valid(self) -> bool {
        &&& bounded(self.translation, MAX_COORD as int)
        &&& 0 <= self.rotation < TURN
        &&& 0 < self.scale <= MAX_SCALE
    }
}

/// x after applying the placement's uniform scale.
pub open spec fn scaled_x(t: Transform2d, p: Vec2) -> int {
    tdiv(p.x * t.scale, UNIT as int)
}

/// y after applying the placement's uniform scale.
pub open spec fn scaled_y(t: Transform2d, p: Vec2) -> int {
    tdiv(p.y * t.scale, UNIT as int)
}

/// x after scale and rotation (world space before translation).
pub open spec fn placed_x(t: Transform2d, p: Vec2) -> int {
    tdiv(
        cos_spec(t.rotation as int) * scaled_x(t, p) - sin_spec(t.rotation as int) * scaled_y(t, p),
        UNIT as int,
    )
}

/// y after scale and rotation (world space before translation).
pub open spec fn placed_y(t: Transform2d, p: Vec2) -> int {
    tdiv(
        sin_spec(t.rotation as int) * scaled_x(t, p) + cos_spec(t.rotation as int) * scaled_y(t, p),
        UNIT as int,
    )
}

/// x of the fully transformed (world space) point.
pub open spec fn world_x(t: Transform2d, p: Vec2) -> int {
    placed_x(t, p) + t.translation.x
}

/// y of the fully transformed (world space) point.
pub open spec fn world_y(t: Transform2d, p: Vec2) -> int {
    placed_y(t, p) + t.translation.y
}

/// x after rotation alone (no scale, no translation).
pub open spec fn rot_only_x(t: Transform2d, p: Vec2) -> int {
    tdiv(cos_spec(t.rotation as int) * p.x - sin_spec(t.rotation as int) * p.y, UNIT as int)
}

/// y after rotation alone (no scale, no translation).
pub open spec fn rot_only_y(t: Transform2d, p: Vec2) -> int {
    tdiv(sin_spec(t.rotation as int) * p.x + cos_spec(t.rotation as int) * p.y, UNIT as int)
}

/// `r` is exactly `pts` carried to world space by `t`.
pub open spec fn is_world_points(t: Transform2d, pts: Seq<Vec2>, r: Seq<Vec2>) -> bool {
    &&& r.len() == pts.len()
    &&& forall|i: int|
        0 <= i < pts.len() ==> (#[trigger] r[i]).x == world_x(t, pts[i]) && r[i].y == world_y(
            t,
            pts[i],
        )
}

/// The world-space image of `pts` under `t`, as a sequence.
pub open spec fn world_seq(t: Transform2d, pts: Seq<Vec2>) -> Seq<Vec2> {
    Seq::new(
        pts.len(),
        |i: int| Vec2 { x: world_x(t, pts[i]) as i64, y: world_y(t, pts[i]) as i64 },
    )
}

impl Transform2d {
    /// Scale, rotate, then translate a local point into world space.
    #[inline]
    pub fn transform_point(&self, point: Vec2) -> (r: Vec2)
        requires
            self.valid(),
            bounded(point, MAX_COORD as int),
        ensures
            r.x == world_x(*self, point),
            r.y == world_y(*self, point),
            bounded(r, WORLD_LIMIT as int),
    {
        let c = cos_fp(self.rotation);
        let s = sin_fp(self.rotation);
        let scaled = point.scale_fp(self.scale);
        let rotated = scaled.rotate_by(c, s);
        rotated.add(self.translation)
    }

    /// Scale and rotate a local point, without translating: the world-space
    /// direction of the point relative to the body's position.
    #[inline]
    pub fn place_point(&self, point: Vec2) -> (r: Vec2)
        requires
            self.valid(),
            bounded(point, MAX_COORD as int),
        ensures
            r.x == placed_x(*self, point),
            r.y == placed_y(*self, point),
            bounded(r, 0x10_0000_0000),
    {
        let c = cos_fp(self.rotation);
        let s = sin_fp(self.rotation);
        point.scale_fp(self.scale).rotate_by(c, s)
    }

    /// Undo translation, then undo rotation (the scale is left in place, as
    /// the pipeline only ever inverts unscaled placements).
    #[inline]
    pub fn inv_transform_point(&self, point: Vec2) -> (r: Vec2)
        requires
            self.valid(),
            bounded(point, WORLD_LIMIT as int),
        ensures
            r.x == tdiv(
                cos_spec(self.rotation as int) * (point.x - self.translation.x) + sin_spec(
                    self.rotation as int,
                ) * (point.y - self.translation.y),
                UNIT as int,
            ),
            r.y == tdiv(
                cos_spec(self.rotation as int) * (point.y - self.translation.y) - sin_spec(
                    self.rotation as int,
                ) * (point.x - self.translation.x),
                UNIT as int,
            ),
    {
        self.inv_rotate(self.inv_translate(point))
    }

    /// Rotate a point by the placement's rotation alone.
    #[inline]
    pub fn rotate(&self, point: Vec2) -> (r: Vec2)
        requires
            self.valid(),
            bounded(point, MAX_COORD as int),
        ensures
            r.x == rot_only_x(*self, point),
            r.y == rot_only_y(*self, point),
            bounded(r, 2 * MAX_COORD as int),
    {
        let c = cos_fp(self.rotation);
        let s = sin_fp(self.rotation);
        point.rotate_by(c, s)
    }

    /// Rotate a point by the opposite of the placement's rotation.
    #[inline]
    pub fn inv_rotate(&self, point: Vec2) -> (r: Vec2)
        requires
            self.valid(),
            bounded(point, 0x100_0000_0000 - MAX_COORD as int),
        ensures
            r.x == tdiv(
                cos_spec(self.rotation as int) * point.x + sin_spec(self.rotation as int) * point.y,
                UNIT as int,
            ),
            r.y == tdiv(
                cos_spec(self.rotation as int) * point.y - sin_spec(self.rotation as int) * point.x,
                UNIT as int,
            ),
    {
        let c = cos_fp(self.rotation);
        let s = sin_fp(self.rotation);
        let r = point.rotate_by(c, -s);
        proof {
            assert((-(s as int)) * point.x == -((s as int) * point.x) && (-(s as int)) * point.y
                == -((s as int) * point.y)) by (nonlinear_arith);
        }
        r
    }

    /// Move a point by the placement's translation.
    #[inline]
    pub fn translate(&self, point: Vec2) -> (r: Vec2)
        requires
            self.valid(),
            bounded(point, WORLD_LIMIT as int),
        ensures
            r.x == point.x + self.translation.x,
            r.y == point.y + self.translation.y,
    {
        point.add(self.translation)
    }

    /// Move a point back by the placement's translation.
    #[inline]
    pub fn inv_translate(&self, point: Vec2) -> (r: Vec2)
        requires
            self.valid(),
            bounded(point, WORLD_LIMIT as int),
        ensures
            r.x == point.x - self.translation.x,
            r.y == point.y - self.translation.y,
    {
        point.sub(self.translation)
    }
}

} // verus!
