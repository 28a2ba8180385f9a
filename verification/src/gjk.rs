//! GJK: decide whether two placed convex polygons intersect by searching
//! the Minkowski difference for a simplex that encloses the origin.
//!
//! The search direction is kept as a sign-scaled perpendicular: in the
//! plane the triple product `(u x v) x u` equals `cross(u, v) * perp(u)`,
//! and every decision GJK makes — which support point is furthest, and on
//! which side of a line the origin lies — is unchanged when the direction
//! is scaled by a positive factor. Storing `perp(u)` with the sign of
//! `cross(u, v)` therefore reproduces the exact-arithmetic algorithm while
//! keeping every coordinate within `i64`.
//!
//! The test's outcome is pinned completely: the returned flag and simplex
//! equal `gjk_spec`, the specification-level run of the same bounded
//! search. A reported collision is moreover proved sound on its own
//! terms: the three simplex points are support differences of the two
//! polygons and the origin lies within their closed triangle.

use vstd::prelude::*;
use crate::data_structs::CollisionInfo;
use crate::fxp::{iabs, tdiv, UNIT, WORLD_LIMIT};
use crate::helpers::find_furthest_point;
use crate::polygon_component::PolygonComponent;
use crate::transform2d::{world_seq, Transform2d};
use crate::vec2::{bounded, cross_spec, dot_spec, Vec2};

verus! {

/// `v` is a difference of one vertex of `w1` and one vertex of `w2`: a
/// vertex of the Minkowski difference.
pub open spec fn is_support_pair(w1: Seq<Vec2>, w2: Seq<Vec2>, v: Vec2) -> bool {
    exists|i: int, j: int|
        0 <= i < w1.len() && 0 <= j < w2.len() && v.x == (#[trigger] w1[i]).x - (#[trigger] w2[j]).x
            && v.y == w1[i].y - w2[j].y
}

/// The orientation of point `(px, py)` relative to the directed line from
/// `u` to `v`: the cross product `(v - u) x (p - u)`.
pub open spec fn orient(u: Vec2, v: Vec2, px: int, py: int) -> int {
    (v.x - u.x) * (py - u.y) - (v.y - u.y) * (px - u.x)
}

/// The origin lies weakly on the same side of the line through `u`, `v`
/// as the point `w` does.
pub open spec fn origin_same_side_as(u: Vec2, v: Vec2, w: Vec2) -> bool {
    orient(u, v, 0, 0) * orient(u, v, w.x as int, w.y as int) >= 0
}

/// The origin lies in the closed triangle `(a, b, c)`: for each edge it is
/// weakly on the same side as the opposite vertex.
pub open spec fn origin_in_simplex(a: Vec2, b: Vec2, c: Vec2) -> bool {
    &&& origin_same_side_as(b, c, a)
    &&& origin_same_side_as(a, c, b)
    &&& origin_same_side_as(a, b, c)
}

/// The support point of the Minkowski difference along `direction`: the
/// furthest point of shape 1 along it, minus the furthest point of shape 2
/// against it.
pub fn get_support(
    p1: &PolygonComponent,
    t1: &Transform2d,
    p2: &PolygonComponent,
    t2: &Transform2d,
    direction: Vec2,
) -> (r: Vec2)
    requires
        p1.valid(),
        t1.valid(),
        p2.valid(),
        t2.valid(),
        bounded(direction, 0x7fff_ffff_ffff_fffe),
    ensures
        r == support_of(world_seq(*t1, p1.points@), world_seq(*t2, p2.points@), direction),
        is_support_pair(world_seq(*t1, p1.points@), world_seq(*t2, p2.points@), r),
        bounded(r, 2 * WORLD_LIMIT as int),
        forall|v: Vec2|
            is_support_pair(world_seq(*t1, p1.points@), world_seq(*t2, p2.points@), v)
                ==> dot_spec(v, direction) <= dot_spec(r, direction),
{
    let ghost w1 = world_seq(*t1, p1.points@);
    let ghost w2 = world_seq(*t2, p2.points@);
    let f1 = find_furthest_point(p1, t1, direction);
    let nd = direction.neg();
    let f2 = find_furthest_point(p2, t2, nd);
    let r = f1.sub(f2);
    proof {
        assert(nd == neg_of(direction));
        assert(r == diff_of(f1, f2));
        assert(r == support_of(w1, w2, direction));
        let i = choose|i: int| 0 <= i < w1.len() && w1[i] == f1;
        let j = choose|j: int| 0 <= j < w2.len() && w2[j] == f2;
        assert(r.x == w1[i].x - w2[j].x && r.y == w1[i].y - w2[j].y);
        assert forall|v: Vec2| is_support_pair(w1, w2, v) implies dot_spec(v, direction)
            <= dot_spec(r, direction) by {
            let (vi, vj): (int, int) = choose|vi: int, vj: int|
                0 <= vi < w1.len() && 0 <= vj < w2.len() && v.x == (#[trigger] w1[vi]).x - (
                #[trigger] w2[vj]).x && v.y == w1[vi].y - w2[vj].y;
            assert(dot_spec(w1[vi], direction) <= dot_spec(f1, direction));
            assert(dot_spec(w2[vj], nd) <= dot_spec(f2, nd));
            assert(dot_spec(v, direction) == dot_spec(w1[vi], direction) - dot_spec(
                w2[vj],
                direction,
            )) by (nonlinear_arith)
                requires
                    v.x == w1[vi].x - w2[vj].x,
                    v.y == w1[vi].y - w2[vj].y,
            ;
            assert(dot_spec(w2[vj], nd) == -dot_spec(w2[vj], direction)) by (nonlinear_arith)
                requires
                    nd.x == -direction.x,
                    nd.y == -direction.y,
            ;
            assert(dot_spec(f2, nd) == -dot_spec(f2, direction)) by (nonlinear_arith)
                requires
                    nd.x == -direction.x,
                    nd.y == -direction.y,
            ;
            assert(dot_spec(r, direction) == dot_spec(f1, direction) - dot_spec(f2, direction))
                by (nonlinear_arith)
                requires
                    r.x == f1.x - f2.x,
                    r.y == f1.y - f2.y,
            ;
        }
    }
    r
}

/// The terminal simplex of a successful GJK run: three vertices of the
/// Minkowski difference whose closed triangle holds the origin.
#[derive(Clone, Copy, PartialEq, Eq, Structural, Debug)]
pub struct Simplex {
    pub p0: Vec2,
    pub p1: Vec2,
    pub p2: Vec2,
}

/// Componentwise negation, at the specification level.
pub open spec fn neg_of(v: Vec2) -> Vec2 {
    Vec2 { x: (-v.x) as i64, y: (-v.y) as i64 }
}

/// The counter-clockwise perpendicular, at the specification level.
pub open spec fn perp_of(v: Vec2) -> Vec2 {
    Vec2 { x: (-v.y) as i64, y: v.x }
}

/// The componentwise difference `a - b`, at the specification level.
pub open spec fn diff_of(a: Vec2, b: Vec2) -> Vec2 {
    Vec2 { x: (a.x - b.x) as i64, y: (a.y - b.y) as i64 }
}

/// The Minkowski-difference support point along `d`: the furthest point
/// of the first ring along `d` minus the furthest point of the second
/// ring against it, tie-breaks included.
pub open spec fn support_of(w1: Seq<Vec2>, w2: Seq<Vec2>, d: Vec2) -> Vec2 {
    diff_of(
        crate::helpers::furthest_of(w1, d),
        crate::helpers::furthest_of(w2, neg_of(d)),
    )
}

/// The rest of the GJK search from a line simplex `(s0, s1)` and a
/// search direction, with `31 - iter` refinements left: each step takes
/// the support point along the direction, gives up when it fails to pass
/// the origin or the budget runs out, reports a collision when the
/// origin falls between both new edges, and otherwise drops one simplex
/// point and turns the direction by the sign-scaled triple-product rule.
pub open spec fn gjk_loop(
    w1: Seq<Vec2>,
    w2: Seq<Vec2>,
    s0: Vec2,
    s1: Vec2,
    dir: Vec2,
    iter: int,
) -> (bool, Simplex)
    decreases 31 - iter,
{
    let miss = Simplex {
        p0: Vec2 { x: 0i64, y: 0i64 },
        p1: Vec2 { x: 0i64, y: 0i64 },
        p2: Vec2 { x: 0i64, y: 0i64 },
    };
    if iter >= 31 {
        (false, miss)
    } else {
        let a = support_of(w1, w2, dir);
        if dot_spec(a, dir) <= 0 {
            (false, miss)
        } else {
            let b = s1;
            let c = s0;
            let ab = diff_of(b, a);
            let ac = diff_of(c, a);
            let ao = neg_of(a);
            let k1 = cross_spec(ab, ac);
            let d1 = cross_spec(ac, ao);
            if (k1 >= 0 && d1 >= 0) || (k1 <= 0 && d1 <= 0) {
                let ndir = if k1 > 0 {
                    perp_of(ac)
                } else if k1 < 0 {
                    neg_of(perp_of(ac))
                } else {
                    Vec2 { x: 0i64, y: 0i64 }
                };
                gjk_loop(w1, w2, c, a, ndir, iter + 1)
            } else {
                let d2 = cross_spec(ab, ao);
                if (k1 > 0 && d2 > 0) || (k1 < 0 && d2 < 0) {
                    (true, Simplex { p0: c, p1: b, p2: a })
                } else {
                    let ndir = if k1 > 0 {
                        neg_of(perp_of(ab))
                    } else if k1 < 0 {
                        perp_of(ab)
                    } else {
                        Vec2 { x: 0i64, y: 0i64 }
                    };
                    gjk_loop(w1, w2, b, a, ndir, iter + 1)
                }
            }
        }
    }
}

/// The whole GJK run on two world-space rings: the first support along
/// the x axis, a second against it, then the bounded refinement loop.
/// This pins the test's result completely.
pub open spec fn gjk_spec(w1: Seq<Vec2>, w2: Seq<Vec2>) -> (bool, Simplex) {
    let miss = Simplex {
        p0: Vec2 { x: 0i64, y: 0i64 },
        p1: Vec2 { x: 0i64, y: 0i64 },
        p2: Vec2 { x: 0i64, y: 0i64 },
    };
    let a0 = support_of(w1, w2, Vec2 { x: 1i64, y: 0i64 });
    let fd = neg_of(a0);
    let a1 = support_of(w1, w2, fd);
    if dot_spec(a1, fd) <= 0 {
        (false, miss)
    } else {
        let ab = diff_of(a0, a1);
        let ao = neg_of(a1);
        let k0 = cross_spec(ab, ao);
        let dir0 = if k0 < 0 {
            neg_of(perp_of(ab))
        } else {
            perp_of(ab)
        };
        gjk_loop(w1, w2, a0, a1, dir0, 0)
    }
}

/// The GJK intersection test. Build a simplex from Minkowski-difference
/// support points, walking the search direction by the triple-product
/// construction (held as a sign-scaled perpendicular); report a collision
/// once a three-point simplex encloses the origin, and no collision when a
/// support point fails to pass the origin or the iteration budget (one
/// initial support plus 32 refinements) runs out.
///
/// A `true` answer is sound: the returned simplex points are support
/// differences of the two placed polygons, and the origin lies within
/// their closed triangle.
pub fn check_collision(
    p1: &PolygonComponent,
    t1: &Transform2d,
    p2: &PolygonComponent,
    t2: &Transform2d,
) -> (r: (bool, Simplex))
    requires
        p1.valid(),
        t1.valid(),
        p2.valid(),
        t2.valid(),
    ensures
        r == gjk_spec(world_seq(*t1, p1.points@), world_seq(*t2, p2.points@)),
        !r.0 ==> r.1 == (Simplex {
            p0: Vec2 { x: 0i64, y: 0i64 },
            p1: Vec2 { x: 0i64, y: 0i64 },
            p2: Vec2 { x: 0i64, y: 0i64 },
        }),
        r.0 ==> is_support_pair(world_seq(*t1, p1.points@), world_seq(*t2, p2.points@), r.1.p0)
            && is_support_pair(world_seq(*t1, p1.points@), world_seq(*t2, p2.points@), r.1.p1)
            && is_support_pair(world_seq(*t1, p1.points@), world_seq(*t2, p2.points@), r.1.p2),
        r.0 ==> origin_in_simplex(r.1.p2, r.1.p1, r.1.p0),
        r.0 ==> orient(r.1.p2, r.1.p1, r.1.p0.x as int, r.1.p0.y as int) != 0,
        r.0 ==> bounded(r.1.p0, 2 * WORLD_LIMIT as int) && bounded(r.1.p1, 2 * WORLD_LIMIT as int)
            && bounded(r.1.p2, 2 * WORLD_LIMIT as int),
{
    let ghost w1 = world_seq(*t1, p1.points@);
    let ghost w2 = world_seq(*t2, p2.points@);
    let zero = Vec2::zero();
    let empty = Simplex { p0: zero, p1: zero, p2: zero };

    let a0 = get_support(p1, t1, p2, t2, Vec2 { x: 1, y: 0 });
    let first_dir = a0.neg();
    let a1 = get_support(p1, t1, p2, t2, first_dir);
    proof {
        assert(a0 == support_of(w1, w2, Vec2 { x: 1i64, y: 0i64 }));
        assert(first_dir == neg_of(a0));
        assert(a1 == support_of(w1, w2, first_dir));
    }
    if a1.dot(first_dir) <= 0 {
        proof {
            assert(gjk_spec(w1, w2) == (false, empty));
        }
        return (false, empty);
    }
    // The simplex is a line: aim the search perpendicular to it, toward
    // the origin (the triple product (ab x ao) x ab, sign-scaled).
    let ab0 = a0.sub(a1);
    let ao0 = a1.neg();
    let k0 = ab0.cross(ao0);
    let perp0 = ab0.perp();
    let mut s0 = a0;
    let mut s1 = a1;
    let mut dir: Vec2;
    let ghost mut sigma: int = 0;
    if k0 < 0 {
        dir = perp0.neg();
        proof {
            sigma = 1;
        }
    } else {
        dir = perp0;
        proof {
            sigma = -1;
        }
    }
    proof {
        assert(dot_spec(dir, s1) <= 0) by (nonlinear_arith)
            requires
                k0 == cross_spec(ab0, ao0),
                ab0.x == s0.x - s1.x,
                ab0.y == s0.y - s1.y,
                ao0.x == -s1.x,
                ao0.y == -s1.y,
                perp0.x == -ab0.y,
                perp0.y == ab0.x,
                k0 < 0 ==> dir.x == -perp0.x && dir.y == -perp0.y,
                k0 >= 0 ==> dir.x == perp0.x && dir.y == perp0.y,
        ;
        assert(dir.x == sigma * (s0.y - s1.y) && dir.y == sigma * (s1.x - s0.x));
        assert(ab0 == diff_of(a0, a1));
        assert(ao0 == neg_of(a1));
        assert(perp0 == perp_of(ab0));
        if k0 < 0 {
            assert(dir == neg_of(perp_of(ab0)));
        } else {
            assert(dir == perp_of(ab0));
        }
        assert(gjk_loop(w1, w2, s0, s1, dir, 0) == gjk_spec(w1, w2));
    }

    let mut iter: usize = 0;
    while iter < 31
        invariant
            p1.valid(),
            t1.valid(),
            p2.valid(),
            t2.valid(),
            w1 == world_seq(*t1, p1.points@),
            w2 == world_seq(*t2, p2.points@),
            is_support_pair(w1, w2, s0),
            is_support_pair(w1, w2, s1),
            bounded(s0, 2 * WORLD_LIMIT as int),
            bounded(s1, 2 * WORLD_LIMIT as int),
            bounded(dir, 4 * WORLD_LIMIT as int),
            (dir.x == 0 && dir.y == 0) || ((sigma == 1 || sigma == -1) && dir.x == sigma * (s0.y
                - s1.y) && dir.y == sigma * (s1.x - s0.x) && dot_spec(dir, s1) <= 0),
            iter <= 31,
            empty == (Simplex {
                p0: Vec2 { x: 0i64, y: 0i64 },
                p1: Vec2 { x: 0i64, y: 0i64 },
                p2: Vec2 { x: 0i64, y: 0i64 },
            }),
            gjk_loop(w1, w2, s0, s1, dir, iter as int) == gjk_spec(w1, w2),
        decreases 31 - iter,
    {
        let ghost lpre = gjk_loop(w1, w2, s0, s1, dir, iter as int);
        let a = get_support(p1, t1, p2, t2, dir);
        proof {
            assert(a == support_of(w1, w2, dir));
        }
        if a.dot(dir) <= 0 {
            proof {
                assert(lpre == (false, empty));
            }
            return (false, empty);
        }
        proof {
            assert(!(dir.x == 0 && dir.y == 0));
        }
        let ao = a.neg();
        let b = s1;
        let c = s0;
        let ab = b.sub(a);
        let ac = c.sub(a);
        let k1 = ab.cross(ac);
        let d1 = ac.cross(ao);
        proof {
            assert(ab == diff_of(b, a));
            assert(ac == diff_of(c, a));
            assert(ao == neg_of(a));
        }
        if (k1 >= 0 && d1 >= 0) || (k1 <= 0 && d1 <= 0) {
            // The origin is past the ac edge: drop b, search along the
            // sign-scaled perpendicular of ac.
            let pac = ac.perp();
            if k1 > 0 {
                dir = pac;
                proof {
                    sigma = -1;
                }
            } else if k1 < 0 {
                dir = pac.neg();
                proof {
                    sigma = 1;
                }
            } else {
                dir = Vec2::zero();
            }
            proof {
                if k1 != 0 {
                    assert(dir.x == sigma * (c.y - a.y) && dir.y == sigma * (a.x - c.x))
                        by (nonlinear_arith)
                        requires
                            ac.x == c.x - a.x,
                            ac.y == c.y - a.y,
                            pac.x == -ac.y,
                            pac.y == ac.x,
                            k1 > 0 ==> sigma == -1 && dir.x == pac.x && dir.y == pac.y,
                            k1 < 0 ==> sigma == 1 && dir.x == -pac.x && dir.y == -pac.y,
                            k1 != 0,
                    ;
                    assert(dot_spec(dir, a) <= 0) by (nonlinear_arith)
                        requires
                            d1 == cross_spec(ac, ao),
                            ac.x == c.x - a.x,
                            ac.y == c.y - a.y,
                            ao.x == -a.x,
                            ao.y == -a.y,
                            pac.x == -ac.y,
                            pac.y == ac.x,
                            k1 > 0 ==> d1 >= 0 && dir.x == pac.x && dir.y == pac.y,
                            k1 < 0 ==> d1 <= 0 && dir.x == -pac.x && dir.y == -pac.y,
                            k1 != 0,
                    ;
                }
            }
            proof {
                if k1 > 0 {
                    assert(dir == perp_of(ac));
                } else if k1 < 0 {
                    assert(dir == neg_of(perp_of(ac)));
                }
                assert(gjk_loop(w1, w2, c, a, dir, iter as int + 1) == lpre);
            }
            s1 = a;
        } else {
            let d2 = ab.cross(ao);
            if (k1 > 0 && d2 > 0) || (k1 < 0 && d2 < 0) {
                // The origin is on the inner side of both new edges, and
                // of the old edge by the search-direction invariant: the
                // simplex encloses it.
                proof {
                    assert(orient(a, b, 0, 0) * orient(a, b, c.x as int, c.y as int) > 0)
                        by (nonlinear_arith)
                        requires
                            k1 == cross_spec(ab, ac),
                            d2 == cross_spec(ab, ao),
                            ab.x == b.x - a.x,
                            ab.y == b.y - a.y,
                            ac.x == c.x - a.x,
                            ac.y == c.y - a.y,
                            ao.x == -a.x,
                            ao.y == -a.y,
                            (k1 > 0 && d2 > 0) || (k1 < 0 && d2 < 0),
                    ;
                    assert(orient(a, c, 0, 0) * orient(a, c, b.x as int, b.y as int) > 0)
                        by (nonlinear_arith)
                        requires
                            k1 == cross_spec(ab, ac),
                            d1 == cross_spec(ac, ao),
                            ab.x == b.x - a.x,
                            ab.y == b.y - a.y,
                            ac.x == c.x - a.x,
                            ac.y == c.y - a.y,
                            ao.x == -a.x,
                            ao.y == -a.y,
                            !((k1 >= 0 && d1 >= 0) || (k1 <= 0 && d1 <= 0)),
                    ;
                    assert(orient(b, c, 0, 0) * orient(b, c, a.x as int, a.y as int) >= 0)
                        by (nonlinear_arith)
                        requires
                            sigma == 1 || sigma == -1,
                            dir.x == sigma * (c.y - b.y),
                            dir.y == sigma * (b.x - c.x),
                            dot_spec(dir, b) <= 0,
                            dot_spec(a, dir) > 0,
                    ;
                }
                proof {
                    assert(lpre == (true, Simplex { p0: c, p1: b, p2: a }));
                    assert(orient(a, b, c.x as int, c.y as int) != 0) by (nonlinear_arith)
                        requires
                            orient(a, b, 0, 0) * orient(a, b, c.x as int, c.y as int) > 0,
                    ;
                }
                return (true, Simplex { p0: c, p1: b, p2: a });
            }
            // The origin is past the ab edge: drop c, search along the
            // sign-scaled perpendicular of ab.
            let pab = ab.perp();
            if k1 > 0 {
                dir = pab.neg();
                proof {
                    sigma = 1;
                }
            } else if k1 < 0 {
                dir = pab;
                proof {
                    sigma = -1;
                }
            } else {
                dir = Vec2::zero();
            }
            proof {
                if k1 != 0 {
                    assert(dir.x == sigma * (b.y - a.y) && dir.y == sigma * (a.x - b.x))
                        by (nonlinear_arith)
                        requires
                            ab.x == b.x - a.x,
                            ab.y == b.y - a.y,
                            pab.x == -ab.y,
                            pab.y == ab.x,
                            k1 > 0 ==> sigma == 1 && dir.x == -pab.x && dir.y == -pab.y,
                            k1 < 0 ==> sigma == -1 && dir.x == pab.x && dir.y == pab.y,
                            k1 != 0,
                    ;
                    assert(dot_spec(dir, a) <= 0) by (nonlinear_arith)
                        requires
                            d2 == cross_spec(ab, ao),
                            ab.x == b.x - a.x,
                            ab.y == b.y - a.y,
                            ao.x == -a.x,
                            ao.y == -a.y,
                            pab.x == -ab.y,
                            pab.y == ab.x,
                            k1 > 0 ==> d2 <= 0 && dir.x == -pab.x && dir.y == -pab.y,
                            k1 < 0 ==> d2 >= 0 && dir.x == pab.x && dir.y == pab.y,
                            k1 != 0,
                    ;
                }
            }
            proof {
                if k1 > 0 {
                    assert(dir == neg_of(perp_of(ab)));
                } else if k1 < 0 {
                    assert(dir == perp_of(ab));
                }
                assert(gjk_loop(w1, w2, b, a, dir, iter as int + 1) == lpre);
            }
            s0 = b;
            s1 = a;
        }
        iter += 1;
    }
    proof {
        assert(gjk_loop(w1, w2, s0, s1, dir, 31) == (false, empty));
    }
    (false, empty)
}

/// Convergence tolerance of the polytope expansion, in fixed-point
/// length units.
pub const EPA_TOLERANCE: i64 = 66;

/// The vertex cap of the expanding polytope.
pub const MAX_POLYTOPE_VERTICES: usize = 256;

/// `p` is a point of `w` that no point of `w` exceeds along `n`.
pub open spec fn extreme_along(w: Seq<Vec2>, n: Vec2, p: Vec2) -> bool {
    &&& exists|i: int| 0 <= i < w.len() && #[trigger] w[i] == p
    &&& forall|i: int| 0 <= i < w.len() ==> dot_spec(#[trigger] w[i], n) <= dot_spec(p, n)
}

/// `p` is a point of `w` that no point of `w` falls below along `n`.
pub open spec fn extreme_against(w: Seq<Vec2>, n: Vec2, p: Vec2) -> bool {
    &&& exists|i: int| 0 <= i < w.len() && #[trigger] w[i] == p
    &&& forall|i: int| 0 <= i < w.len() ==> dot_spec(#[trigger] w[i], n) >= dot_spec(p, n)
}

/// The `UNIT`-scaled unit normal of the polytope edge from `pi` to `pj`
/// (the right-hand perpendicular, as the expansion scans it), or no
/// normal when the edge is degenerate.
fn edge_normal(pi: Vec2, pj: Vec2) -> (r: (bool, Vec2))
    requires
        bounded(pi, 2 * WORLD_LIMIT as int),
        bounded(pj, 2 * WORLD_LIMIT as int),
    ensures
        bounded(r.1, UNIT as int),
        r.0 ==> iabs(r.1.x as int) + iabs(r.1.y as int) >= UNIT - 2,
{
    let e = pj.sub(pi);
    let n0 = Vec2 { x: e.y, y: -e.x };
    proof {
        crate::vec2::lemma_mul_bound(n0.x as int, n0.x as int, 0x40_0000_0000, 0x40_0000_0000);
        crate::vec2::lemma_mul_bound(n0.y as int, n0.y as int, 0x40_0000_0000, 0x40_0000_0000);
        assert((n0.x as int) * (n0.x as int) >= 0 && (n0.y as int) * (n0.y as int) >= 0)
            by (nonlinear_arith);
    }
    let len2: i128 = (n0.x as i128) * (n0.x as i128) + (n0.y as i128) * (n0.y as i128);
    if len2 == 0 {
        return (false, Vec2::zero());
    }
    let l = crate::fxp::isqrt_u128(len2 as u128);
    proof {
        assert(l >= 1) by (nonlinear_arith)
            requires
                l * l <= len2 as u128,
                (len2 as u128) < (l + 1) * (l + 1),
                len2 >= 1,
            ;
        assert(iabs(n0.x as int) <= l as int && iabs(n0.y as int) <= l as int)
            by (nonlinear_arith)
            requires
                (len2 as u128) < (l + 1) * (l + 1),
                len2 == (n0.x as int) * (n0.x as int) + (n0.y as int) * (n0.y as int),
                (n0.x as int) * (n0.x as int) >= 0,
                (n0.y as int) * (n0.y as int) >= 0,
            ;
    }
    let nx = crate::fxp::div_trunc((n0.x as i128) * (UNIT as i128), l as i128);
    let ny = crate::fxp::div_trunc((n0.y as i128) * (UNIT as i128), l as i128);
    proof {
        crate::vec2::lemma_tdiv_scaled_bound(n0.x * UNIT, l as int);
        crate::vec2::lemma_tdiv_scaled_bound(n0.y * UNIT, l as int);
        assert(iabs(tdiv(n0.x * UNIT, l as int)) <= UNIT && iabs(tdiv(n0.y * UNIT, l as int))
            <= UNIT) by (nonlinear_arith)
            requires
                iabs(tdiv(n0.x * UNIT, l as int)) * (l as int) <= iabs((n0.x * UNIT) as int),
                iabs(tdiv(n0.y * UNIT, l as int)) * (l as int) <= iabs((n0.y * UNIT) as int),
                iabs(n0.x as int) <= l as int,
                iabs(n0.y as int) <= l as int,
                l >= 1,
                UNIT as int > 0,
        ;
        assert(iabs((n0.x * UNIT) as int) == iabs(n0.x as int) * (UNIT as int))
            by (nonlinear_arith)
            requires
                UNIT as int > 0,
        ;
        assert(iabs((n0.y * UNIT) as int) == iabs(n0.y as int) * (UNIT as int))
            by (nonlinear_arith)
            requires
                UNIT as int > 0,
        ;
        // The 1-norm of the scaled normal cannot collapse: the 1-norm of
        // the raw edge normal is at least its 2-norm, so at least `l`.
        assert(iabs(n0.x as int) + iabs(n0.y as int) >= l as int) by (nonlinear_arith)
            requires
                (l as int) * (l as int) <= len2 as int,
                len2 == (n0.x as int) * (n0.x as int) + (n0.y as int) * (n0.y as int),
                l >= 1,
        ;
        crate::vec2::lemma_tdiv_lower(n0.x * UNIT, l as int);
        crate::vec2::lemma_tdiv_lower(n0.y * UNIT, l as int);
        assert(iabs(tdiv(n0.x * UNIT, l as int)) + iabs(tdiv(n0.y * UNIT, l as int)) >= UNIT - 2)
            by (nonlinear_arith)
            requires
                iabs(tdiv(n0.x * UNIT, l as int)) * (l as int) >= iabs((n0.x * UNIT) as int) - (
                l as int) + 1,
                iabs(tdiv(n0.y * UNIT, l as int)) * (l as int) >= iabs((n0.y * UNIT) as int) - (
                l as int) + 1,
                iabs((n0.x * UNIT) as int) == iabs(n0.x as int) * (UNIT as int),
                iabs((n0.y * UNIT) as int) == iabs(n0.y as int) * (UNIT as int),
                iabs(n0.x as int) + iabs(n0.y as int) >= l as int,
                l >= 1,
                UNIT as int == 65536,
        ;
        assert(iabs(nx as int) + iabs(ny as int) >= UNIT - 2);
    }
    (true, Vec2 { x: nx as i64, y: ny as i64 })
}

/// The fixed-point distance of a bounded point along a `UNIT`-scaled
/// normal: `dot(n, v) / UNIT`, truncated.
fn dot_dist(n: Vec2, v: Vec2) -> (r: i64)
    requires
        bounded(n, UNIT as int),
        bounded(v, 2 * WORLD_LIMIT as int),
    ensures
        r == tdiv(dot_spec(n, v), UNIT as int),
        iabs(r as int) <= 0x40_0000_0000,
{
    let d = n.dot(v);
    proof {
        crate::vec2::lemma_mul_bound(n.x as int, v.x as int, 0x1_0000, 0x20_0000_0000);
        crate::vec2::lemma_mul_bound(n.y as int, v.y as int, 0x1_0000, 0x20_0000_0000);
        crate::vec2::lemma_tdiv_scaled_bound(dot_spec(n, v), UNIT as int);
        assert(iabs(tdiv(dot_spec(n, v), UNIT as int)) <= 0x40_0000_0000) by (nonlinear_arith)
            requires
                iabs(tdiv(dot_spec(n, v), UNIT as int)) * (UNIT as int) <= iabs(dot_spec(n, v)),
                iabs(dot_spec(n, v)) <= 0x40_0000_0000_0000,
                UNIT as int == 65536,
            ;
    }
    let q = crate::fxp::div_trunc(d, UNIT as i128);
    q as i64
}

/// EPA-style penetration refinement: grow a polytope from the terminal
/// GJK simplex by repeatedly splitting its edge closest to the origin
/// with a new support point, until the advance falls within
/// `EPA_TOLERANCE` or the vertex cap is reached. The closest edge's
/// distance, inflated by twice the tolerance, becomes the penetration
/// depth; the contact normal is that edge's inward normal, pointing from
/// body B toward body A; the contact location is the support point of
/// shape 1 along the penetration direction, validated to lie inside
/// shape 2, else shape 2's support point against it.
pub fn get_info_collisions(
    p1: &PolygonComponent,
    t1: &Transform2d,
    p2: &PolygonComponent,
    t2: &Transform2d,
    simplex: Simplex,
) -> (r: CollisionInfo)
    requires
        p1.valid(),
        t1.valid(),
        p2.valid(),
        t2.valid(),
        bounded(simplex.p0, 2 * WORLD_LIMIT as int),
        bounded(simplex.p1, 2 * WORLD_LIMIT as int),
        bounded(simplex.p2, 2 * WORLD_LIMIT as int),
    ensures
        r.collision_pair is None,
        r.wf(),
        r.location@.len() == 1,
        r.distance >= 2 * EPA_TOLERANCE,
        iabs(r.normal.x as int) + iabs(r.normal.y as int) >= UNIT - 2,
        extreme_against(world_seq(*t1, p1.points@), r.normal, r.location@[0]) || extreme_along(
            world_seq(*t2, p2.points@),
            r.normal,
            r.location@[0],
        ),
        r.location@[0] == (if crate::polygon_component::inside_spec(
            world_seq(*t2, p2.points@),
            crate::helpers::furthest_of(world_seq(*t1, p1.points@), neg_of(r.normal)),
        ) {
            crate::helpers::furthest_of(world_seq(*t1, p1.points@), neg_of(r.normal))
        } else {
            crate::helpers::furthest_of(world_seq(*t2, p2.points@), r.normal)
        }),
{
    let ghost w1 = world_seq(*t1, p1.points@);
    let ghost w2 = world_seq(*t2, p2.points@);
    let mut polytope: Vec<Vec2> = Vec::new();
    polytope.push(simplex.p0);
    polytope.push(simplex.p1);
    polytope.push(simplex.p2);

    let mut min_index: usize = 0;
    let mut min_dist: i64 = 0;
    // The penetration direction starts as the x axis: even on a fully
    // degenerate polytope the reported normal keeps unit length.
    let mut min_normal = Vec2 { x: UNIT, y: 0 };
    let mut have = false;
    let mut round: usize = 0;
    while round < MAX_POLYTOPE_VERTICES
        invariant
            p1.valid(),
            t1.valid(),
            p2.valid(),
            t2.valid(),
            w1 == world_seq(*t1, p1.points@),
            w2 == world_seq(*t2, p2.points@),
            3 <= polytope@.len() <= MAX_POLYTOPE_VERTICES + 2,
            forall|i: int|
                0 <= i < polytope@.len() ==> bounded(#[trigger] polytope@[i], 2 * WORLD_LIMIT as int),
            bounded(min_normal, UNIT as int),
            iabs(min_normal.x as int) + iabs(min_normal.y as int) >= UNIT - 2,
            0 <= min_dist <= 0x40_0000_0000,
        decreases MAX_POLYTOPE_VERTICES - round,
    {
        have = false;
        min_index = 0;
        min_dist = 0;
        min_normal = Vec2 { x: UNIT, y: 0 };
        let n = polytope.len();
        for i in 0..n
            invariant
                n == polytope@.len(),
                3 <= n <= MAX_POLYTOPE_VERTICES + 2,
                forall|k: int|
                    0 <= k < polytope@.len() ==> bounded(
                        #[trigger] polytope@[k],
                        2 * WORLD_LIMIT as int,
                    ),
                bounded(min_normal, UNIT as int),
                iabs(min_normal.x as int) + iabs(min_normal.y as int) >= UNIT - 2,
                0 <= min_dist <= 0x40_0000_0000,
                min_index < n,
        {
            let j = if i + 1 == n {
                0
            } else {
                i + 1
            };
            let (ok, normal) = edge_normal(polytope[i], polytope[j]);
            if ok {
                let mut dist = dot_dist(normal, polytope[i]);
                let mut nrm = normal;
                if dist < 0 {
                    dist = -dist;
                    nrm = nrm.neg();
                }
                if !have || dist < min_dist {
                    proof {
                        assert(iabs(nrm.x as int) + iabs(nrm.y as int) >= UNIT - 2);
                    }
                    have = true;
                    min_dist = dist;
                    min_normal = nrm;
                    min_index = j;
                }
            }
        }
        if !have {
            break ;
        }
        let support = get_support(p1, t1, p2, t2, min_normal);
        let sdist = dot_dist(min_normal, support);
        if polytope.len() > MAX_POLYTOPE_VERTICES {
            break ;
        }
        let diff = if sdist >= min_dist {
            sdist - min_dist
        } else {
            min_dist - sdist
        };
        if diff > EPA_TOLERANCE {
            polytope.insert(min_index, support);
            round += 1;
        } else {
            break ;
        }
    }

    // The reported normal points from body B toward body A: the
    // penetration direction is the expansion's outward edge normal, and
    // body A must back out against it.
    let location1 = find_furthest_point(p1, t1, min_normal);
    let nneg = min_normal.neg();
    let location2 = find_furthest_point(p2, t2, nneg);
    let inside = p2.is_point_inside(t2, &location1);
    let location = if inside {
        location1
    } else {
        location2
    };
    proof {
        assert(min_normal == neg_of(nneg));
        assert(iabs(nneg.x as int) + iabs(nneg.y as int) >= UNIT - 2);
        if inside {
            assert forall|i: int| 0 <= i < w1.len() implies dot_spec(#[trigger] w1[i], nneg)
                >= dot_spec(location1, nneg) by {
                assert(dot_spec(w1[i], min_normal) <= dot_spec(location1, min_normal));
                assert(dot_spec(w1[i], nneg) == -dot_spec(w1[i], min_normal) && dot_spec(
                    location1,
                    nneg,
                ) == -dot_spec(location1, min_normal)) by (nonlinear_arith)
                    requires
                        nneg.x == -min_normal.x,
                        nneg.y == -min_normal.y,
                ;
            }
        }
    }
    let mut locs: Vec<Vec2> = Vec::new();
    locs.push(location);
    CollisionInfo {
        collision_pair: None,
        location: locs,
        normal: nneg,
        distance: min_dist + 2 * EPA_TOLERANCE,
    }
}

} // verus!
