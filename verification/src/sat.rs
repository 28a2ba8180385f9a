//! The separating-axis test: two placed convex polygons intersect exactly
//! when no outward edge normal of either polygon separates their
//! projection intervals.

use vstd::prelude::*;
use crate::fxp::WORLD_LIMIT;
use crate::helpers::{get_projection, overlaps};
use crate::polygon_component::PolygonComponent;
use crate::transform2d::{world_seq, Transform2d};
use crate::vec2::{bounded, dot_spec, Vec2};

verus! {

/// The candidate separating axis from edge `i` of the world-space ring
/// `w`: the perpendicular of the edge from vertex `i + 1` to vertex `i`.
pub open spec fn sat_axis(w: Seq<Vec2>, i: int) -> Vec2 {
    Vec2 {
        x: (-(w[i].y - w[(i + 1) % w.len() as int].y)) as i64,
        y: (w[i].x - w[(i + 1) % w.len() as int].x) as i64,
    }
}

/// The projection intervals of two point sets on an axis overlap strictly:
/// some point of `w1` projects above some point of `w2`, and some point of
/// `w1` projects below some point of `w2`.
pub open spec fn overlaps_on(w1: Seq<Vec2>, w2: Seq<Vec2>, axis: Vec2) -> bool {
    &&& exists|i: int, j: int|
        0 <= i < w1.len() && 0 <= j < w2.len() && dot_spec(#[trigger] w1[i], axis) > dot_spec(
            #[trigger] w2[j],
            axis,
        )
    &&& exists|i: int, j: int|
        0 <= i < w1.len() && 0 <= j < w2.len() && dot_spec(#[trigger] w1[i], axis) < dot_spec(
            #[trigger] w2[j],
            axis,
        )
}

/// The separating-axis answer: every edge normal of either ring leaves
/// the projection intervals overlapping.
pub open spec fn sat_collides(w1: Seq<Vec2>, w2: Seq<Vec2>) -> bool {
    &&& forall|i: int| 0 <= i < w1.len() ==> overlaps_on(w1, w2, #[trigger] sat_axis(w1, i))
    &&& forall|i: int| 0 <= i < w2.len() ==> overlaps_on(w1, w2, #[trigger] sat_axis(w2, i))
}

/// Projection overlap does not depend on which ring is named first.
proof fn lemma_overlaps_on_symmetric(w1: Seq<Vec2>, w2: Seq<Vec2>, axis: Vec2)
    ensures
        overlaps_on(w1, w2, axis) == overlaps_on(w2, w1, axis),
{
}

/// Symmetry of the separating-axis answer: testing A against B and B
/// against A are the same question, as both quantify over the union of
/// the two edge-normal sets with a symmetric overlap test.
pub proof fn lemma_sat_symmetric(w1: Seq<Vec2>, w2: Seq<Vec2>)
    ensures
        sat_collides(w1, w2) == sat_collides(w2, w1),
{
    assert forall|axis: Vec2| #[trigger] overlaps_on(w1, w2, axis) == overlaps_on(w2, w1, axis) by {
        lemma_overlaps_on_symmetric(w1, w2, axis);
    }
}

/// The world-space candidate axes of a placed polygon: the perpendicular
/// of each edge of its ring, wrap-around edge included.
pub fn get_sat_axes_to_test(polygon: &PolygonComponent, transform: &Transform2d) -> (r: Vec<Vec2>)
    requires
        polygon.valid(),
        transform.valid(),
    ensures
        r@.len() == polygon.points@.len(),
        forall|i: int|
            0 <= i < r@.len() ==> #[trigger] r@[i] == sat_axis(
                world_seq(*transform, polygon.points@),
                i,
            ),
        forall|i: int| 0 <= i < r@.len() ==> bounded(#[trigger] r@[i], 2 * WORLD_LIMIT as int),
{
    let points = polygon.get_transformed_points(transform);
    let ghost w = world_seq(*transform, polygon.points@);
    let n = points.len();
    let mut axes: Vec<Vec2> = Vec::new();
    for k in 0..n
        invariant
            n == points@.len(),
            points@ == w,
            w.len() == polygon.points@.len() >= 1,
            forall|i: int| 0 <= i < n ==> bounded(#[trigger] points@[i], WORLD_LIMIT as int),
            axes@.len() == k,
            forall|i: int| 0 <= i < k ==> #[trigger] axes@[i] == sat_axis(w, i),
            forall|i: int| 0 <= i < k ==> bounded(#[trigger] axes@[i], 2 * WORLD_LIMIT as int),
    {
        let p1 = points[k];
        let p2 = points[if k + 1 == n { 0 } else { k + 1 }];
        let edge = p1.sub(p2);
        let axis = edge.perp();
        proof {
            if k + 1 < n {
                vstd::arithmetic::div_mod::lemma_small_mod((k + 1) as nat, w.len());
            } else {
                vstd::arithmetic::div_mod::lemma_mod_self_0(w.len() as int);
            }
            assert(axis == sat_axis(w, k as int));
        }
        axes.push(axis);
    }
    axes
}

/// The separating-axis test: project both polygons onto every candidate
/// axis of each polygon and report intersection exactly when no axis
/// separates the projection intervals.
pub fn check_collision(
    p1: &PolygonComponent,
    t1: &Transform2d,
    p2: &PolygonComponent,
    t2: &Transform2d,
) -> (r: bool)
    requires
        p1.valid(),
        t1.valid(),
        p2.valid(),
        t2.valid(),
    ensures
        r == sat_collides(world_seq(*t1, p1.points@), world_seq(*t2, p2.points@)),
{
    let ghost w1 = world_seq(*t1, p1.points@);
    let ghost w2 = world_seq(*t2, p2.points@);
    let axes_p1 = get_sat_axes_to_test(p1, t1);
    let n1 = axes_p1.len();
    for k in 0..n1
        invariant
            n1 == axes_p1@.len(),
            n1 == w1.len(),
            p1.valid(),
            t1.valid(),
            p2.valid(),
            t2.valid(),
            w1 == world_seq(*t1, p1.points@),
            w2 == world_seq(*t2, p2.points@),
            forall|i: int| 0 <= i < n1 ==> #[trigger] axes_p1@[i] == sat_axis(w1, i),
            forall|i: int| 0 <= i < n1 ==> bounded(#[trigger] axes_p1@[i], 2 * WORLD_LIMIT as int),
            forall|i: int| 0 <= i < k ==> overlaps_on(w1, w2, #[trigger] sat_axis(w1, i)),
    {
        let axis = axes_p1[k];
        let proj1 = get_projection(p1, t1, axis);
        let proj2 = get_projection(p2, t2, axis);
        if !overlaps(proj1, proj2) {
            proof {
                assert(!overlaps_on(w1, w2, sat_axis(w1, k as int)));
            }
            return false;
        }
        proof {
            assert(overlaps_on(w1, w2, sat_axis(w1, k as int)));
        }
    }
    let axes_p2 = get_sat_axes_to_test(p2, t2);
    let n2 = axes_p2.len();
    for k in 0..n2
        invariant
            n2 == axes_p2@.len(),
            n2 == w2.len(),
            p1.valid(),
            t1.valid(),
            p2.valid(),
            t2.valid(),
            w1 == world_seq(*t1, p1.points@),
            w2 == world_seq(*t2, p2.points@),
            forall|i: int| 0 <= i < n2 ==> #[trigger] axes_p2@[i] == sat_axis(w2, i),
            forall|i: int| 0 <= i < n2 ==> bounded(#[trigger] axes_p2@[i], 2 * WORLD_LIMIT as int),
            forall|i: int| 0 <= i < w1.len() ==> overlaps_on(w1, w2, #[trigger] sat_axis(w1, i)),
            forall|i: int| 0 <= i < k ==> overlaps_on(w1, w2, #[trigger] sat_axis(w2, i)),
    {
        let axis = axes_p2[k];
        let proj1 = get_projection(p1, t1, axis);
        let proj2 = get_projection(p2, t2, axis);
        if !overlaps(proj1, proj2) {
            proof {
                assert(!overlaps_on(w1, w2, sat_axis(w2, k as int)));
            }
            return false;
        }
        proof {
            assert(overlaps_on(w1, w2, sat_axis(w2, k as int)));
        }
    }
    true
}

} // verus!
