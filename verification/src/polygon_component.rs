//! A polygon shape: an ordered, counter-clockwise convex ring of local
//! points, carried to world space by a placement.

use vstd::prelude::*;
use crate::fxp::{MAX_COORD, WORLD_LIMIT};
use crate::transform2d::{
    is_world_points, rot_only_x, rot_only_y, placed_x, placed_y, world_seq, world_x, world_y,
    Transform2d,
};
use crate::vec2::{bounded, cross_spec, Vec2};

verus! {

/// A polygon in local space, plus the narrow phase's "collided this tick"
/// mark.
pub struct PolygonComponent {
    pub points: Vec<Vec2>,
    pub collided: bool,
}

/// The cross product the containment scan computes for edge `i` of the
/// world-space ring `w`: `(q - w[i]) x (w[i+1] - w[i])`.
pub open spec fn edge_cross(w: Seq<Vec2>, q: Vec2, i: int) -> int {
    cross_spec(
        Vec2 { x: (q.x - w[i].x) as i64, y: (q.y - w[i].y) as i64 },
        Vec2 {
            x: (w[(i + 1) % w.len() as int].x - w[i].x) as i64,
            y: (w[(i + 1) % w.len() as int].y - w[i].y) as i64,
        },
    )
}

/// A query point is inside a convex ring when it coincides with a vertex,
/// or when the edge cross products do not carry both strict signs.
pub open spec fn inside_spec(w: Seq<Vec2>, q: Vec2) -> bool {
    ||| exists|i: int| 0 <= i < w.len() && w[i] == q
    ||| !((exists|i: int| 0 <= i < w.len() && #[trigger] edge_cross(w, q, i) > 0) && (exists|i: int|
        0 <= i < w.len() && #[trigger] edge_cross(w, q, i) < 0))
}

impl PolygonComponent {
    /// Every vertex within the local coordinate bound, and at least one
    /// vertex, as the box maintainer requires.
    pub open spec fn valid(self) -> bool {
        &&& self.points@.len() >= 1
        &&& forall|i: int|
            0 <= i < self.points@.len() ==> bounded(#[trigger] self.points@[i], MAX_COORD as int)
    }

    pub fn new(points: Vec<Vec2>) -> (r: PolygonComponent)
        requires
            points@.len() >= 1,
            forall|i: int| 0 <= i < points@.len() ==> bounded(#[trigger] points@[i], MAX_COORD as int),
        ensures
            r.points@ == points@,
            !r.collided,
            r.valid(),
    {
        PolygonComponent { points, collided: false }
    }

    /// All vertices carried to world space: scale, rotate, translate.
    pub fn get_transformed_points(&self, transform: &Transform2d) -> (r: Vec<Vec2>)
        requires
            self.valid(),
            transform.valid(),
        ensures
            is_world_points(*transform, self.points@, r@),
            r@ == world_seq(*transform, self.points@),
            forall|i: int| 0 <= i < r@.len() ==> bounded(#[trigger] r@[i], WORLD_LIMIT as int),
    {
        let mut out: Vec<Vec2> = Vec::new();
        let n = self.points.len();
        for k in 0..n
            invariant
                n == self.points@.len(),
                self.valid(),
                transform.valid(),
                out@.len() == k,
                forall|i: int|
                    0 <= i < k ==> (#[trigger] out@[i]).x == world_x(*transform, self.points@[i])
                        && out@[i].y == world_y(*transform, self.points@[i]),
                forall|i: int| 0 <= i < k ==> bounded(#[trigger] out@[i], WORLD_LIMIT as int),
        {
            let w = transform.transform_point(self.points[k]);
            out.push(w);
        }
        proof {
            assert(out@ =~= world_seq(*transform, self.points@));
        }
        out
    }

    /// All vertices moved by the placement's translation alone.
    pub fn get_translated_points(&self, transform: &Transform2d) -> (r: Vec<Vec2>)
        requires
            self.valid(),
            transform.valid(),
        ensures
            r@.len() == self.points@.len(),
            forall|i: int|
                0 <= i < r@.len() ==> (#[trigger] r@[i]).x == self.points@[i].x
                    + transform.translation.x && r@[i].y == self.points@[i].y
                    + transform.translation.y,
    {
        let mut out: Vec<Vec2> = Vec::new();
        let n = self.points.len();
        for k in 0..n
            invariant
                n == self.points@.len(),
                self.valid(),
                transform.valid(),
                out@.len() == k,
                forall|i: int|
                    0 <= i < k ==> (#[trigger] out@[i]).x == self.points@[i].x
                        + transform.translation.x && out@[i].y == self.points@[i].y
                        + transform.translation.y,
        {
            let w = transform.translate(self.points[k]);
            out.push(w);
        }
        out
    }

    /// All vertices rotated by the placement's rotation alone.
    pub fn get_rotated_points(&self, transform: &Transform2d) -> (r: Vec<Vec2>)
        requires
            self.valid(),
            transform.valid(),
        ensures
            r@.len() == self.points@.len(),
            forall|i: int|
                0 <= i < r@.len() ==> (#[trigger] r@[i]).x == rot_only_x(*transform, self.points@[i])
                    && r@[i].y == rot_only_y(*transform, self.points@[i]),
            forall|i: int| 0 <= i < r@.len() ==> bounded(#[trigger] r@[i], 2 * MAX_COORD as int),
    {
        let mut out: Vec<Vec2> = Vec::new();
        let n = self.points.len();
        for k in 0..n
            invariant
                n == self.points@.len(),
                self.valid(),
                transform.valid(),
                out@.len() == k,
                forall|i: int|
                    0 <= i < k ==> (#[trigger] out@[i]).x == rot_only_x(*transform, self.points@[i])
                        && out@[i].y == rot_only_y(*transform, self.points@[i]),
                forall|i: int| 0 <= i < k ==> bounded(#[trigger] out@[i], 2 * MAX_COORD as int),
        {
            let w = transform.rotate(self.points[k]);
            out.push(w);
        }
        out
    }

    /// All vertices scaled and rotated, not yet translated: the shape's
    /// world-space footprint around its position, which the box maintainer
    /// encloses.
    pub fn get_placed_points(&self, transform: &Transform2d) -> (r: Vec<Vec2>)
        requires
            self.valid(),
            transform.valid(),
        ensures
            r@.len() == self.points@.len(),
            forall|i: int|
                0 <= i < r@.len() ==> (#[trigger] r@[i]).x == placed_x(*transform, self.points@[i])
                    && r@[i].y == placed_y(*transform, self.points@[i]),
            forall|i: int| 0 <= i < r@.len() ==> bounded(#[trigger] r@[i], 0x10_0000_0000),
    {
        let mut out: Vec<Vec2> = Vec::new();
        let n = self.points.len();
        for k in 0..n
            invariant
                n == self.points@.len(),
                self.valid(),
                transform.valid(),
                out@.len() == k,
                forall|i: int|
                    0 <= i < k ==> (#[trigger] out@[i]).x == placed_x(*transform, self.points@[i])
                        && out@[i].y == placed_y(*transform, self.points@[i]),
                forall|i: int| 0 <= i < k ==> bounded(#[trigger] out@[i], 0x10_0000_0000),
        {
            let w = transform.place_point(self.points[k]);
            out.push(w);
        }
        out
    }

    /// Whether a world-space point lies inside the placed polygon: the edge
    /// cross products may not carry both strict signs.
    pub fn is_point_inside(&self, transform: &Transform2d, test_point: &Vec2) -> (r: bool)
        requires
            self.valid(),
            transform.valid(),
            bounded(*test_point, WORLD_LIMIT as int),
        ensures
            r == inside_spec(world_seq(*transform, self.points@), *test_point),
    {
        let t_points = self.get_transformed_points(transform);
        let ghost w = world_seq(*transform, self.points@);
        let n = t_points.len();
        let mut pos = false;
        let mut neg = false;
        let mut on_vertex = false;
        for i in 0..n
            invariant
                n == t_points@.len(),
                t_points@ == w,
                w.len() == self.points@.len() >= 1,
                bounded(*test_point, WORLD_LIMIT as int),
                forall|j: int| 0 <= j < n ==> bounded(#[trigger] t_points@[j], WORLD_LIMIT as int),
                pos == exists|j: int| 0 <= j < i && #[trigger] edge_cross(w, *test_point, j) > 0,
                neg == exists|j: int| 0 <= j < i && #[trigger] edge_cross(w, *test_point, j) < 0,
                on_vertex == exists|j: int| 0 <= j < i && w[j] == *test_point,
        {
            let p1 = t_points[i];
            let p2 = t_points[if i + 1 == n { 0 } else { i + 1 }];
            if p1.x == test_point.x && p1.y == test_point.y {
                on_vertex = true;
                proof {
                    assert(w[i as int] == *test_point);
                }
            }
            let a = test_point.sub(p1);
            let b = p2.sub(p1);
            let d = a.cross(b);
            proof {
                if i + 1 < n {
                    vstd::arithmetic::div_mod::lemma_small_mod((i + 1) as nat, w.len());
                } else {
                    vstd::arithmetic::div_mod::lemma_mod_self_0(w.len() as int);
                }
                assert((if i + 1 == n { 0int } else { i + 1 }) == (i + 1) % w.len() as int);
                assert(d == edge_cross(w, *test_point, i as int));
            }
            if d > 0 {
                pos = true;
            } else if d < 0 {
                neg = true;
            }
        }
        on_vertex || !(pos && neg)
    }
}

} // verus!
