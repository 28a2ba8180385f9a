//! Broad phase, narrow phase and the response formulas on concrete
//! shapes: sweep-and-prune against all-pairs, SAT against GJK, both ways
//! around, and the impulse arithmetic on a head-on contact.

use rusted_physics::aabb::AABB;
use rusted_physics::broad_phase::{
    compute_collision_pairs_rough, compute_collision_pairs_sap, BroadEntry,
};
use rusted_physics::data_structs::CollisionInfo;
use rusted_physics::fxp::UNIT;
use rusted_physics::gjk;
use rusted_physics::helpers::{find_furthest_point, find_n_furthest_point};
use rusted_physics::polygon_component::PolygonComponent;
use rusted_physics::random_poly::{create_random_poly, RandomPolyConfig};
use rusted_physics::response::{
    apply_friction, apply_position_correction, compute_collision_impulse,
};
use rusted_physics::rigidbody::RigidBody2d;
use rusted_physics::sat;
use rusted_physics::transform2d::Transform2d;
use rusted_physics::vec2::Vec2;

const U: i64 = UNIT;

fn square(half: i64) -> PolygonComponent {
    PolygonComponent::new(vec![
        Vec2 { x: -half, y: -half },
        Vec2 { x: -half, y: half },
        Vec2 { x: half, y: half },
        Vec2 { x: half, y: -half },
    ])
}

fn at(x: i64, y: i64) -> Transform2d {
    Transform2d { translation: Vec2 { x, y }, rotation: 0, scale: U }
}

fn unit_box() -> AABB {
    AABB { min: Vec2 { x: -U, y: -U }, max: Vec2 { x: U, y: U } }
}

fn entry(entity: usize, x: i64) -> BroadEntry {
    BroadEntry { entity, aabb: unit_box(), transform: at(x, 0) }
}

fn pentagon(x: i64, y: i64) -> (PolygonComponent, Transform2d) {
    let config = RandomPolyConfig::default();
    let (poly, transform, _, _) = create_random_poly(
        &config,
        10 * U,
        5,
        Vec2 { x, y },
        0,
        Vec2 { x: 0, y: 0 },
        0,
    );
    (poly, transform)
}

#[test]
fn sweep_and_prune_matches_all_pairs() {
    // Sorted by box lower x bound; boxes of half width one unit.
    let entries = vec![
        entry(0, 0),
        entry(1, 3 * U / 2),
        entry(2, 3 * U),
        entry(3, 20 * U),
    ];
    let rough = compute_collision_pairs_rough(&entries);
    let sap = compute_collision_pairs_sap(&entries);
    assert_eq!(rough.len(), sap.len());
    for k in 0..rough.len() {
        assert_eq!(rough[k].entity_a, sap[k].entity_a);
        assert_eq!(rough[k].entity_b, sap[k].entity_b);
    }
    // 0-1 and 1-2 overlap; 0-2 have a gap, and 3 is far away.
    assert_eq!(rough.len(), 2);
}

#[test]
fn broad_phase_emits_no_self_pairs() {
    let entries = vec![entry(4, 0), entry(7, U / 2), entry(9, U)];
    let rough = compute_collision_pairs_rough(&entries);
    assert!(rough.len() > 0);
    for p in &rough {
        assert_ne!(p.entity_a, p.entity_b);
    }
    let sap = compute_collision_pairs_sap(&entries);
    for p in &sap {
        assert_ne!(p.entity_a, p.entity_b);
    }
}

#[test]
fn sat_and_gjk_agree_on_overlapping_squares() {
    let a = square(U);
    let b = square(U);
    let ta = at(0, 0);
    let tb = at(3 * U / 2, 0);
    assert!(sat::check_collision(&a, &ta, &b, &tb));
    assert!(gjk::check_collision(&a, &ta, &b, &tb).0);
}

#[test]
fn sat_and_gjk_agree_on_separated_squares() {
    let a = square(U);
    let b = square(U);
    let ta = at(0, 0);
    let tb = at(12 * U, 0);
    assert!(!sat::check_collision(&a, &ta, &b, &tb));
    assert!(!gjk::check_collision(&a, &ta, &b, &tb).0);
}

#[test]
fn sat_and_gjk_agree_on_touching_squares() {
    // Exactly touching shapes count as no collision in the narrow phase.
    let a = square(U);
    let b = square(U);
    let ta = at(0, 0);
    let tb = at(2 * U, 0);
    assert!(!sat::check_collision(&a, &ta, &b, &tb));
    assert!(!gjk::check_collision(&a, &ta, &b, &tb).0);
}

#[test]
fn sat_and_gjk_agree_on_polygons() {
    let (p1, t1) = pentagon(0, 0);
    let square5 = square(5 * U);
    let cases = vec![
        at(8 * U, 0),
        at(14 * U, 2 * U),
        at(40 * U, 0),
        at(0, 12 * U),
        at(-9 * U, -9 * U),
    ];
    for tb in cases {
        let s = sat::check_collision(&p1, &t1, &square5, &tb);
        let g = gjk::check_collision(&p1, &t1, &square5, &tb).0;
        assert_eq!(s, g);
    }
}

#[test]
fn narrow_phase_tests_are_symmetric() {
    let (p1, t1) = pentagon(0, 0);
    let b = square(5 * U);
    let placements = vec![at(8 * U, 0), at(40 * U, 0), at(2 * U, 11 * U)];
    for tb in placements {
        assert_eq!(
            sat::check_collision(&p1, &t1, &b, &tb),
            sat::check_collision(&b, &tb, &p1, &t1)
        );
        assert_eq!(
            gjk::check_collision(&p1, &t1, &b, &tb).0,
            gjk::check_collision(&b, &tb, &p1, &t1).0
        );
    }
}

#[test]
fn support_points_are_extreme() {
    let poly = square(U);
    let t = at(0, 0);
    let right = find_furthest_point(&poly, &t, Vec2 { x: U, y: 0 });
    assert_eq!(right.x, U);
    let top2 = find_n_furthest_point(2, &poly, &t, Vec2 { x: 0, y: U });
    assert_eq!(top2.len(), 2);
    assert_eq!(top2[0].y, U);
    assert_eq!(top2[1].y, U);
}

#[test]
fn epa_reports_axis_normal_and_depth() {
    let a = square(U);
    let b = square(U);
    let ta = at(0, 0);
    let tb = at(3 * U / 2, 0);
    let (hit, simplex) = gjk::check_collision(&a, &ta, &b, &tb);
    assert!(hit);
    let info = gjk::get_info_collisions(&a, &ta, &b, &tb, simplex);
    assert_eq!(info.location.len(), 1);
    // The shallowest direction out is along x; penetration is half a unit
    // plus twice the expansion tolerance.
    assert_eq!(info.normal.y, 0);
    assert_eq!(info.normal.x.abs(), U);
    assert!(info.distance >= U / 2);
    assert!(info.distance <= U / 2 + 4 * gjk::EPA_TOLERANCE);
}

fn head_on_contact() -> (CollisionInfo, Transform2d, RigidBody2d, Transform2d, RigidBody2d) {
    // Body A at the origin drives right into body B; the contact normal
    // points from B toward A, so their closing speed along it is negative.
    let info = CollisionInfo {
        collision_pair: Some(rusted_physics::broad_phase::CollisionPair {
            entity_a: 0,
            entity_b: 1,
        }),
        location: vec![Vec2 { x: U, y: 0 }],
        normal: Vec2 { x: -U, y: 0 },
        distance: U / 2,
    };
    let t1 = at(0, 0);
    let t2 = at(3 * U / 2, 0);
    let mut rb1 = RigidBody2d::default();
    rb1.mass = U;
    rb1.linear_speed = Vec2 { x: U, y: 0 };
    let mut rb2 = RigidBody2d::default();
    rb2.mass = U;
    rb2.linear_speed = Vec2 { x: -U, y: 0 };
    (info, t1, rb1, t2, rb2)
}

#[test]
fn head_on_equal_masses_exchange_velocities() {
    // Full restitution, equal unit masses, contact at the common height:
    // one impulse pass swaps the two normal velocities exactly.
    let (info, t1, rb1, t2, rb2) = head_on_contact();
    let result = compute_collision_impulse(&info, &t1, &rb1, &t2, &rb2, U);
    let (ia, ib) = result.expect("approaching bodies must get an impulse");
    assert_eq!(ia.linear_impulse.x, -2 * U);
    assert_eq!(ia.linear_impulse.y, 0);
    assert_eq!(ia.angular_impulse, 0);
    assert_eq!(ib.linear_impulse.x, 2 * U);
    assert_eq!(ib.linear_impulse.y, 0);
    assert_eq!(ib.angular_impulse, 0);
    assert_eq!(rb1.linear_speed.x + ia.linear_impulse.x, -U);
    assert_eq!(rb2.linear_speed.x + ib.linear_impulse.x, U);
}

#[test]
fn separating_bodies_get_no_impulse() {
    let (info, t1, mut rb1, t2, mut rb2) = head_on_contact();
    rb1.linear_speed = Vec2 { x: -U, y: 0 };
    rb2.linear_speed = Vec2 { x: U, y: 0 };
    let result = compute_collision_impulse(&info, &t1, &rb1, &t2, &rb2, U);
    assert!(result.is_none());
}

#[test]
fn kinematic_body_gets_zero_impulse() {
    let (info, t1, mut rb1, t2, rb2) = head_on_contact();
    rb1.is_kinematic = true;
    let result = compute_collision_impulse(&info, &t1, &rb1, &t2, &rb2, U);
    let (ia, ib) = result.expect("the dynamic body still approaches");
    assert_eq!(ia.linear_impulse.x, 0);
    assert_eq!(ia.linear_impulse.y, 0);
    assert_eq!(ia.angular_impulse, 0);
    assert_ne!(ib.linear_impulse.x, 0);
}

#[test]
fn friction_is_no_op_without_tangential_motion() {
    let (info, _t1, mut rb1, _t2, mut rb2) = head_on_contact();
    let before1 = rb1.linear_speed;
    let before2 = rb2.linear_speed;
    apply_friction(&info, &mut rb1, &mut rb2, 13107, 13107);
    assert_eq!(rb1.linear_speed.x, before1.x);
    assert_eq!(rb1.linear_speed.y, before1.y);
    assert_eq!(rb2.linear_speed.x, before2.x);
    assert_eq!(rb2.linear_speed.y, before2.y);
}

#[test]
fn position_correction_separates_bodies() {
    let (info, mut t1, rb1, mut t2, rb2) = head_on_contact();
    let x1 = t1.translation.x;
    let x2 = t2.translation.x;
    apply_position_correction(&info, &mut t1, &rb1, &mut t2, &rb2, 13107);
    // The normal points from B toward A (here along -x), so body A backs
    // off and body B advances: the gap between them grows.
    assert!(t1.translation.x < x1);
    assert!(t2.translation.x > x2);
    assert_eq!(x1 - t1.translation.x, t2.translation.x - x2);
}

#[test]
fn position_correction_skips_kinematic_bodies() {
    let (info, mut t1, mut rb1, mut t2, rb2) = head_on_contact();
    rb1.is_kinematic = true;
    let x1 = t1.translation.x;
    apply_position_correction(&info, &mut t1, &rb1, &mut t2, &rb2, 13107);
    assert_eq!(t1.translation.x, x1);
    assert!(t2.translation.x > 3 * U / 2);
}

#[test]
fn gjk_miss_returns_zeroed_simplex() {
    let a = square(U);
    let b = square(U);
    let (hit, simplex) = gjk::check_collision(&a, &at(0, 0), &b, &at(12 * U, 0));
    assert!(!hit);
    assert_eq!(simplex.p0, Vec2 { x: 0, y: 0 });
    assert_eq!(simplex.p1, Vec2 { x: 0, y: 0 });
    assert_eq!(simplex.p2, Vec2 { x: 0, y: 0 });
}

#[test]
fn epa_normal_is_never_degenerate() {
    // Across several overlaps the reported normal keeps unit scale: its
    // 1-norm stays within [UNIT - 2, 2 * UNIT].
    let a = square(U);
    let cases = vec![at(3 * U / 2, 0), at(0, 3 * U / 2), at(U, U), at(-U, U / 2)];
    for tb in cases {
        let b = square(U);
        let (hit, simplex) = gjk::check_collision(&a, &at(0, 0), &b, &tb);
        assert!(hit);
        let info = gjk::get_info_collisions(&a, &at(0, 0), &b, &tb, simplex);
        let one_norm = info.normal.x.abs() + info.normal.y.abs();
        assert!(one_norm >= U - 2);
        assert!(one_norm <= 2 * U);
        assert!(info.distance >= 2 * gjk::EPA_TOLERANCE);
    }
}
