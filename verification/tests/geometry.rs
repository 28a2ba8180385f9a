//! Geometry primitives: fixed-point arithmetic, trigonometry, transforms,
//! bounding boxes and point containment.

use rusted_physics::aabb::{check_collision, AABB};
use rusted_physics::fxp::{div_trunc, isqrt_u128, UNIT};
use rusted_physics::polygon_component::PolygonComponent;
use rusted_physics::transform2d::Transform2d;
use rusted_physics::trig::{cos_fp, sin_fp, HALF_TURN, QUARTER_TURN};
use rusted_physics::vec2::Vec2;

const U: i64 = UNIT;

fn square_points(half: i64) -> Vec<Vec2> {
    vec![
        Vec2 { x: -half, y: -half },
        Vec2 { x: half, y: -half },
        Vec2 { x: half, y: half },
        Vec2 { x: -half, y: half },
    ]
}

fn identity_at(x: i64, y: i64) -> Transform2d {
    Transform2d { translation: Vec2 { x, y }, rotation: 0, scale: U }
}

#[test]
fn div_trunc_rounds_toward_zero() {
    assert_eq!(div_trunc(7, 2), 3);
    assert_eq!(div_trunc(-7, 2), -3);
    assert_eq!(div_trunc(0, 5), 0);
}

#[test]
fn isqrt_exact_values() {
    assert_eq!(isqrt_u128(0), 0);
    assert_eq!(isqrt_u128(15), 3);
    assert_eq!(isqrt_u128(16), 4);
    assert_eq!(isqrt_u128(1 << 40), 1 << 20);
}

#[test]
fn sine_and_cosine_at_cardinal_angles() {
    assert_eq!(sin_fp(0), 0);
    assert_eq!(sin_fp(QUARTER_TURN), U);
    assert_eq!(sin_fp(HALF_TURN), 0);
    assert_eq!(sin_fp(HALF_TURN + QUARTER_TURN), -U);
    assert_eq!(cos_fp(0), U);
    assert_eq!(cos_fp(QUARTER_TURN), 0);
    assert_eq!(cos_fp(HALF_TURN), -U);
}

#[test]
fn sine_stays_within_unit() {
    let mut a: i64 = 0;
    while a < 65536 {
        let s = sin_fp(a);
        let c = cos_fp(a);
        assert!(-U <= s && s <= U);
        assert!(-U <= c && c <= U);
        a += 1311;
    }
}

#[test]
fn vector_products() {
    let a = Vec2 { x: 3, y: 4 };
    let b = Vec2 { x: -2, y: 5 };
    assert_eq!(a.dot(b), 14);
    assert_eq!(a.cross(b), 23);
    assert_eq!(a.cross_vec(b), 23);
    let p = a.perp();
    assert_eq!(p.x, -4);
    assert_eq!(p.y, 3);
    let cf = Vec2 { x: U, y: 2 * U }.cross_float(U);
    assert_eq!(cf.x, 2 * U);
    assert_eq!(cf.y, -U);
}

#[test]
fn transform_identity_translates() {
    let t = identity_at(5 * U, -3 * U);
    let w = t.transform_point(Vec2 { x: U, y: 2 * U });
    assert_eq!(w.x, 6 * U);
    assert_eq!(w.y, -U);
}

#[test]
fn transform_quarter_turn_rotates_exactly() {
    let t = Transform2d { translation: Vec2 { x: 0, y: 0 }, rotation: QUARTER_TURN, scale: U };
    let w = t.transform_point(Vec2 { x: U, y: 0 });
    assert_eq!(w.x, 0);
    assert_eq!(w.y, U);
    let r = t.rotate(Vec2 { x: 0, y: U });
    assert_eq!(r.x, -U);
    assert_eq!(r.y, 0);
}

#[test]
fn rotate_then_inv_rotate_round_trips() {
    let t = Transform2d { translation: Vec2 { x: 0, y: 0 }, rotation: QUARTER_TURN, scale: U };
    let p = Vec2 { x: 7 * U, y: -2 * U };
    let back = t.inv_rotate(t.rotate(p));
    assert_eq!(back.x, p.x);
    assert_eq!(back.y, p.y);
}

#[test]
fn translate_inverse_round_trips() {
    let t = identity_at(9 * U, 4 * U);
    let p = Vec2 { x: U, y: U };
    let back = t.inv_translate(t.translate(p));
    assert_eq!(back.x, p.x);
    assert_eq!(back.y, p.y);
}

#[test]
fn aabb_from_encloses_all_points() {
    let pts = vec![
        Vec2 { x: 0, y: 0 },
        Vec2 { x: 2 * U, y: U },
        Vec2 { x: -U, y: 3 * U },
    ];
    let bb = AABB::from(&pts);
    assert_eq!(bb.min.x, -U);
    assert_eq!(bb.min.y, 0);
    assert_eq!(bb.max.x, 2 * U);
    assert_eq!(bb.max.y, 3 * U);
    for p in &pts {
        assert!(bb.min.x <= p.x && p.x <= bb.max.x);
        assert!(bb.min.y <= p.y && p.y <= bb.max.y);
    }
}

#[test]
fn aabb_overlap_inclusive_and_disjoint() {
    let a = AABB { min: Vec2 { x: -U, y: -U }, max: Vec2 { x: U, y: U } };
    let b = AABB { min: Vec2 { x: -U, y: -U }, max: Vec2 { x: U, y: U } };
    let at = identity_at(0, 0);
    // Touching edge to edge counts as a broad-phase hit.
    let touching = identity_at(2 * U, 0);
    assert!(check_collision(&a, &at, &b, &touching));
    let apart = identity_at(12 * U, 0);
    assert!(!check_collision(&a, &at, &b, &apart));
    let diag = identity_at(U, U);
    assert!(check_collision(&a, &at, &b, &diag));
}

#[test]
fn aabb_point_test_uses_translation() {
    let a = AABB { min: Vec2 { x: -U, y: -U }, max: Vec2 { x: U, y: U } };
    let t = identity_at(10 * U, 0);
    assert!(a.is_point_inside(Vec2 { x: 10 * U, y: 0 }, &t));
    assert!(!a.is_point_inside(Vec2 { x: 0, y: 0 }, &t));
}

#[test]
fn aabb_outline_has_five_corners() {
    let a = AABB { min: Vec2 { x: -U, y: -U }, max: Vec2 { x: U, y: U } };
    let t = identity_at(U, U);
    let pts = a.get_points(&t);
    assert_eq!(pts.len(), 5);
    assert_eq!(pts[0].x, 0);
    assert_eq!(pts[0].y, 0);
    assert_eq!(pts[2].x, 2 * U);
    assert_eq!(pts[2].y, 2 * U);
    assert_eq!(pts[4].x, pts[0].x);
    assert_eq!(pts[4].y, pts[0].y);
}

#[test]
fn point_inside_square() {
    let poly = PolygonComponent::new(square_points(U));
    let t = identity_at(0, 0);
    assert!(poly.is_point_inside(&t, &Vec2 { x: 0, y: 0 }));
    assert!(poly.is_point_inside(&t, &Vec2 { x: U, y: U }));
    assert!(!poly.is_point_inside(&t, &Vec2 { x: 3 * U, y: 0 }));
    let moved = identity_at(5 * U, 0);
    assert!(poly.is_point_inside(&moved, &Vec2 { x: 5 * U, y: 0 }));
    assert!(!poly.is_point_inside(&moved, &Vec2 { x: 0, y: 0 }));
}
