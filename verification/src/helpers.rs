//! Narrow-phase helpers: projections of a placed polygon onto an axis,
//! interval overlap, support (furthest) points, and the vector triple
//! product the GJK simplex update is built from.

use vstd::prelude::*;
use crate::fxp::iabs;
use crate::polygon_component::PolygonComponent;
use crate::transform2d::{world_seq, Transform2d};
use crate::vec2::{bounded, cross_spec, dot_spec, lemma_mul_bound, Vec2};

verus! {

/// A polygon's projection interval on an axis: the least and greatest dot
/// product of its world points with the axis.
#[derive(Clone, Copy, PartialEq, Eq, Structural, Debug)]
pub struct Projection {
    pub min: i128,
    pub max: i128,
}

/// Project the placed polygon onto an axis: the interval of dot products
/// of its world points with the axis.
pub fn get_projection(polygon: &PolygonComponent, transform: &Transform2d, axis: Vec2) -> (r:
    Projection)
    requires
        polygon.valid(),
        transform.valid(),
        axis.x > i64::MIN,
        axis.y > i64::MIN,
    ensures
        r.min <= r.max,
        forall|i: int|
            0 <= i < polygon.points@.len() ==> r.min <= dot_spec(
                #[trigger] world_seq(*transform, polygon.points@)[i],
                axis,
            ) <= r.max,
        exists|i: int|
            0 <= i < polygon.points@.len() && dot_spec(
                #[trigger] world_seq(*transform, polygon.points@)[i],
                axis,
            ) == r.min,
        exists|i: int|
            0 <= i < polygon.points@.len() && dot_spec(
                #[trigger] world_seq(*transform, polygon.points@)[i],
                axis,
            ) == r.max,
{
    let points = polygon.get_transformed_points(transform);
    let ghost w = world_seq(*transform, polygon.points@);
    let n = points.len();
    let first = points[0].dot(axis);
    let mut min = first;
    let mut max = first;
    for k in 1..n
        invariant
            n == points@.len(),
            points@ == w,
            w.len() == polygon.points@.len() >= 1,
            axis.x > i64::MIN,
            axis.y > i64::MIN,
            forall|i: int| 0 <= i < n ==> (#[trigger] points@[i]).x > i64::MIN && points@[i].y > i64::MIN,
            min <= max,
            forall|i: int| 0 <= i < k ==> min <= dot_spec(#[trigger] w[i], axis) <= max,
            exists|i: int| 0 <= i < k && dot_spec(#[trigger] w[i], axis) == min,
            exists|i: int| 0 <= i < k && dot_spec(#[trigger] w[i], axis) == max,
    {
        let d = points[k].dot(axis);
        if d < min {
            min = d;
        }
        if d > max {
            max = d;
        }
    }
    Projection { min, max }
}

/// Strict interval overlap, as the separating-axis scan uses it: touching
/// intervals do not count as overlapping.
pub fn overlaps(lhs: Projection, rhs: Projection) -> (r: bool)
    ensures
        r == (lhs.max > rhs.min && lhs.min < rhs.max),
{
    lhs.max > rhs.min && lhs.min < rhs.max
}

/// The triple product `(a x b) x c`, which in the plane is
/// `cross(a, b) * perp(c)`: the component of `c`'s perpendicular that
/// points back toward the side `b` lies on.
pub fn triple_product(a: &Vec2, b: &Vec2, c: &Vec2) -> (r: (i128, i128))
    requires
        a.x > i64::MIN,
        a.y > i64::MIN,
        bounded(*a, 0x20_0000_0000),
        bounded(*b, 0x20_0000_0000),
        bounded(*c, 0x20_0000_0000),
    ensures
        r.0 == -(cross_spec(*a, *b) * c.y),
        r.1 == cross_spec(*a, *b) * c.x,
{
    let k = a.cross(*b);
    proof {
        lemma_mul_bound(a.x as int, b.y as int, 0x20_0000_0000, 0x20_0000_0000);
        lemma_mul_bound(a.y as int, b.x as int, 0x20_0000_0000, 0x20_0000_0000);
        lemma_mul_bound(k as int, c.y as int, 0x800_0000_0000_0000_0000, 0x20_0000_0000);
        lemma_mul_bound(k as int, c.x as int, 0x800_0000_0000_0000_0000, 0x20_0000_0000);
    }
    (-(k * (c.y as i128)), k * (c.x as i128))
}

/// The furthest of the first `k` points along `d`; on ties the later
/// point wins, as the scan keeps the last maximum it sees.
pub open spec fn furthest_upto(w: Seq<Vec2>, d: Vec2, k: int) -> Vec2
    decreases k,
{
    if k <= 1 {
        w[0]
    } else {
        let prev = furthest_upto(w, d, k - 1);
        if dot_spec(w[k - 1], d) >= dot_spec(prev, d) {
            w[k - 1]
        } else {
            prev
        }
    }
}

/// The point of `w` furthest along `d` (ties resolved toward the later
/// point).
pub open spec fn furthest_of(w: Seq<Vec2>, d: Vec2) -> Vec2 {
    furthest_upto(w, d, w.len() as int)
}

/// The world point of the placed polygon furthest along a direction: a
/// support point of the shape. The result is pinned exactly, tie-break
/// included.
pub fn find_furthest_point(polygon: &PolygonComponent, transform: &Transform2d, direction: Vec2)
    -> (r: Vec2)
    requires
        polygon.valid(),
        transform.valid(),
        direction.x > i64::MIN,
        direction.y > i64::MIN,
    ensures
        r == furthest_of(world_seq(*transform, polygon.points@), direction),
        exists|i: int|
            0 <= i < polygon.points@.len() && #[trigger] world_seq(*transform, polygon.points@)[i]
                == r,
        forall|i: int|
            0 <= i < polygon.points@.len() ==> dot_spec(
                #[trigger] world_seq(*transform, polygon.points@)[i],
                direction,
            ) <= dot_spec(r, direction),
        bounded(r, crate::fxp::WORLD_LIMIT as int),
{
    let points = polygon.get_transformed_points(transform);
    let ghost w = world_seq(*transform, polygon.points@);
    let n = points.len();
    let mut best = points[0];
    let mut best_dot = points[0].dot(direction);
    for k in 1..n
        invariant
            n == points@.len(),
            points@ == w,
            w.len() == polygon.points@.len() >= 1,
            direction.x > i64::MIN,
            direction.y > i64::MIN,
            forall|i: int| 0 <= i < n ==> (#[trigger] points@[i]).x > i64::MIN && points@[i].y > i64::MIN,
            best_dot == dot_spec(best, direction),
            best == furthest_upto(w, direction, k as int),
            bounded(best, crate::fxp::WORLD_LIMIT as int),
            forall|i: int| 0 <= i < n ==> bounded(#[trigger] points@[i], crate::fxp::WORLD_LIMIT as int),
            exists|i: int| 0 <= i < k && #[trigger] w[i] == best,
            forall|i: int| 0 <= i < k ==> dot_spec(#[trigger] w[i], direction) <= best_dot,
    {
        let d = points[k].dot(direction);
        if d >= best_dot {
            best = points[k];
            best_dot = d;
        }
    }
    best
}

/// The `n` world points of the placed polygon furthest along a
/// direction, in descending order of their projections: the first is a
/// support point of the shape, and no returned point projects below a
/// later one.
pub fn find_n_furthest_point(
    n: usize,
    polygon: &PolygonComponent,
    transform: &Transform2d,
    direction: Vec2,
) -> (r: Vec<Vec2>)
    requires
        polygon.valid(),
        transform.valid(),
        direction.x > i64::MIN,
        direction.y > i64::MIN,
        n <= polygon.points@.len(),
    ensures
        r@.len() == n,
        forall|i: int|
            0 <= i < r@.len() ==> world_seq(*transform, polygon.points@).contains(#[trigger] r@[i]),
        forall|i: int, j: int|
            0 <= i < j < r@.len() ==> dot_spec(#[trigger] r@[i], direction) >= dot_spec(
                #[trigger] r@[j],
                direction,
            ),
        n >= 1 ==> forall|k: int|
            0 <= k < polygon.points@.len() ==> dot_spec(
                #[trigger] world_seq(*transform, polygon.points@)[k],
                direction,
            ) <= dot_spec(r@[0], direction),
{
    let ghost w = world_seq(*transform, polygon.points@);
    let mut pool = polygon.get_transformed_points(transform);
    let ghost total = pool@.len();
    let mut out: Vec<Vec2> = Vec::new();
    while out.len() < n
        invariant
            w == world_seq(*transform, polygon.points@),
            total == w.len(),
            n <= total,
            direction.x > i64::MIN,
            direction.y > i64::MIN,
            pool@.len() + out@.len() == total,
            out@.len() <= n,
            forall|i: int| 0 <= i < pool@.len() ==> (#[trigger] pool@[i]).x > i64::MIN && pool@[i].y > i64::MIN,
            forall|i: int| 0 <= i < pool@.len() ==> w.contains(#[trigger] pool@[i]),
            forall|i: int| 0 <= i < out@.len() ==> w.contains(#[trigger] out@[i]),
            out@.len() == 0 ==> pool@ == w,
            forall|oi: int, pi: int|
                0 <= oi < out@.len() && 0 <= pi < pool@.len() ==> dot_spec(
                    #[trigger] pool@[pi],
                    direction,
                ) <= dot_spec(#[trigger] out@[oi], direction),
            forall|i: int, j: int|
                0 <= i < j < out@.len() ==> dot_spec(#[trigger] out@[i], direction) >= dot_spec(
                    #[trigger] out@[j],
                    direction,
                ),
            out@.len() >= 1 ==> forall|k: int|
                0 <= k < w.len() ==> dot_spec(#[trigger] w[k], direction) <= dot_spec(
                    out@[0],
                    direction,
                ),
        decreases n - out@.len(),
    {
        let pn = pool.len();
        let mut m: usize = 0;
        let mut best_dot = pool[0].dot(direction);
        for k in 1..pn
            invariant
                pn == pool@.len(),
                pn >= 1,
                m < pn,
                direction.x > i64::MIN,
                direction.y > i64::MIN,
                forall|i: int|
                    0 <= i < pool@.len() ==> (#[trigger] pool@[i]).x > i64::MIN && pool@[i].y
                        > i64::MIN,
                best_dot == dot_spec(pool@[m as int], direction),
                forall|i: int| 0 <= i < k ==> dot_spec(#[trigger] pool@[i], direction) <= best_dot,
        {
            let d = pool[k].dot(direction);
            if d > best_dot {
                m = k;
                best_dot = d;
            }
        }
        let chosen = pool[m];
        let ghost pool_before = pool@;
        let ghost out_before = out@;
        out.push(chosen);
        pool.remove(m);
        proof {
            pool_before.remove_ensures(m as int);
            assert(pool@ == pool_before.remove(m as int));
            assert forall|i: int| 0 <= i < pool@.len() implies w.contains(#[trigger] pool@[i]) && (
            pool@[i]).x > i64::MIN && pool@[i].y > i64::MIN by {
                if i < m {
                    assert(pool@[i] == pool_before[i]);
                } else {
                    assert(pool@[i] == pool_before[i + 1]);
                }
            }
            assert forall|oi: int, pi: int|
                0 <= oi < out@.len() && 0 <= pi < pool@.len() implies dot_spec(
                #[trigger] pool@[pi],
                direction,
            ) <= dot_spec(#[trigger] out@[oi], direction) by {
                let prev = if pi < m {
                    pool_before[pi]
                } else {
                    pool_before[pi + 1]
                };
                assert(pool@[pi] == prev);
                assert(dot_spec(prev, direction) <= dot_spec(chosen, direction));
                if oi < out_before.len() {
                    assert(out@[oi] == out_before[oi]);
                    assert(dot_spec(prev, direction) <= dot_spec(out_before[oi], direction));
                } else {
                    assert(out@[oi] == chosen);
                }
            }
            if out_before.len() == 0 {
                assert forall|k2: int| 0 <= k2 < w.len() implies dot_spec(#[trigger] w[k2], direction)
                    <= dot_spec(out@[0], direction) by {
                    assert(w[k2] == pool_before[k2]);
                }
            }
        }
    }
    out
}

} // verus!
