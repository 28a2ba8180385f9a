//! Axis-aligned bounding boxes: built once from a shape's placed points,
//! translated on the fly when two boxes are compared.

use vstd::prelude::*;
use crate::fxp::WORLD_LIMIT;
use crate::transform2d::Transform2d;
use crate::vec2::{bounded, Vec2};

verus! {

/// Min/max corners of an axis-aligned box, in world space before the
/// owning body's translation.
#[derive(Clone, Copy, PartialEq, Eq, Structural, Debug)]
pub struct AABB {
    pub min: Vec2,
    pub max: Vec2,
}

impl AABB {
    /// Ordered corners within the world coordinate bound.
    pub open spec fn wf(self) -> bool {
        &&& bounded(self.min, WORLD_LIMIT as int)
        &&& bounded(self.max, WORLD_LIMIT as int)
        &&& self.min.x <= self.max.x
        &&& self.min.y <= self.max.y
    }

    /// The smallest box enclosing all the given points: start at the first
    /// point and widen each bound independently per axis.
    pub fn from(points: &Vec<Vec2>) -> (r: AABB)
        requires
            points@.len() >= 1,
            forall|i: int| 0 <= i < points@.len() ==> bounded(#[trigger] points@[i], WORLD_LIMIT as int),
        ensures
            r.wf(),
            forall|i: int|
                0 <= i < points@.len() ==> r.min.x <= (#[trigger] points@[i]).x <= r.max.x
                    && r.min.y <= points@[i].y <= r.max.y,
            exists|i: int| 0 <= i < points@.len() && (#[trigger] points@[i]).x == r.min.x,
            exists|i: int| 0 <= i < points@.len() && (#[trigger] points@[i]).x == r.max.x,
            exists|i: int| 0 <= i < points@.len() && (#[trigger] points@[i]).y == r.min.y,
            exists|i: int| 0 <= i < points@.len() && (#[trigger] points@[i]).y == r.max.y,
    {
        let first = points[0];
        let mut bounding_box = AABB { min: first, max: first };
        let n = points.len();
        for k in 1..n
            invariant
                n == points@.len(),
                1 <= k <= n,
                forall|i: int|
                    0 <= i < points@.len() ==> bounded(#[trigger] points@[i], WORLD_LIMIT as int),
                bounding_box.wf(),
                forall|i: int|
                    0 <= i < k ==> bounding_box.min.x <= (#[trigger] points@[i]).x
                        <= bounding_box.max.x && bounding_box.min.y <= points@[i].y
                        <= bounding_box.max.y,
                exists|i: int| 0 <= i < k && (#[trigger] points@[i]).x == bounding_box.min.x,
                exists|i: int| 0 <= i < k && (#[trigger] points@[i]).x == bounding_box.max.x,
                exists|i: int| 0 <= i < k && (#[trigger] points@[i]).y == bounding_box.min.y,
                exists|i: int| 0 <= i < k && (#[trigger] points@[i]).y == bounding_box.max.y,
        {
            let point = points[k];
            if point.x > bounding_box.max.x {
                bounding_box.max.x = point.x;
            } else if point.x < bounding_box.min.x {
                bounding_box.min.x = point.x;
            }
            if point.y > bounding_box.max.y {
                bounding_box.max.y = point.y;
            } else if point.y < bounding_box.min.y {
                bounding_box.min.y = point.y;
            }
        }
        bounding_box
    }

    /// Whether a world-space point falls within the box once the box is
    /// carried to world space by the placement's translation.
    pub fn is_point_inside(&self, point: Vec2, transform: &Transform2d) -> (r: bool)
        requires
            self.wf(),
            transform.valid(),
            bounded(point, WORLD_LIMIT as int),
        ensures
            r == (self.min.x <= point.x - transform.translation.x <= self.max.x && self.min.y
                <= point.y - transform.translation.y <= self.max.y),
    {
        let local = Vec2 {
            x: point.x - transform.translation.x,
            y: point.y - transform.translation.y,
        };
        local.x <= self.max.x && local.x >= self.min.x && local.y <= self.max.y && local.y
            >= self.min.y
    }

    /// The box's outline as a closed strip of five world-space corners.
    pub fn get_points(&self, t: &Transform2d) -> (r: Vec<Vec2>)
        requires
            self.wf(),
            t.valid(),
        ensures
            r@.len() == 5,
            r@[0].x == self.min.x + t.translation.x && r@[0].y == self.min.y + t.translation.y,
            r@[1].x == self.max.x + t.translation.x && r@[1].y == self.min.y + t.translation.y,
            r@[2].x == self.max.x + t.translation.x && r@[2].y == self.max.y + t.translation.y,
            r@[3].x == self.min.x + t.translation.x && r@[3].y == self.max.y + t.translation.y,
            r@[4] == r@[0],
    {
        let min = t.translate(self.min);
        let max = t.translate(self.max);
        let mut out: Vec<Vec2> = Vec::new();
        out.push(min);
        out.push(Vec2 { x: max.x, y: min.y });
        out.push(max);
        out.push(Vec2 { x: min.x, y: max.y });
        out.push(min);
        out
    }
}

impl Default for AABB {
    /// The degenerate box at the origin.
    fn default() -> (r: AABB)
        ensures
            r.min == (Vec2 { x: 0i64, y: 0i64 }),
            r.max == (Vec2 { x: 0i64, y: 0i64 }),
    {
        AABB { min: Vec2 { x: 0, y: 0 }, max: Vec2 { x: 0, y: 0 } }
    }
}

/// Two translated boxes overlap when their intervals meet on both axes,
/// boundaries included.
pub open spec fn aabb_overlap(a1: AABB, tr1: Vec2, a2: AABB, tr2: Vec2) -> bool {
    &&& a1.min.x + tr1.x <= a2.max.x + tr2.x
    &&& a1.max.x + tr1.x >= a2.min.x + tr2.x
    &&& a1.min.y + tr1.y <= a2.max.y + tr2.y
    &&& a1.max.y + tr1.y >= a2.min.y + tr2.y
}

/// The broad-phase box test: carry both boxes to world space and compare
/// their intervals on each axis.
pub fn check_collision(a1: &AABB, t1: &Transform2d, a2: &AABB, t2: &Transform2d) -> (r: bool)
    requires
        a1.wf(),
        a2.wf(),
        t1.valid(),
        t2.valid(),
    ensures
        r == aabb_overlap(*a1, t1.translation, *a2, t2.translation),
{
    let a1_min = t1.translate(a1.min);
    let a1_max = t1.translate(a1.max);
    let a2_min = t2.translate(a2.min);
    let a2_max = t2.translate(a2.max);
    a1_min.x <= a2_max.x && a1_max.x >= a2_min.x && a1_min.y <= a2_max.y && a1_max.y >= a2_min.y
}

} // verus!
