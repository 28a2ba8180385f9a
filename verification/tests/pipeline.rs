//! Whole-pipeline scenarios on a small world: candidate pairs, contacts,
//! response, integration, activity tracking and the statistics counters.

use rusted_physics::config::{BroadPhaseType, CollisionConfig, NarrowPhaseType};
use rusted_physics::data_structs::{BroadPhaseData, NarrowPhaseData};
use rusted_physics::fxp::UNIT;
use rusted_physics::random_poly::create_square;
use rusted_physics::rigidbody::{RigidBody2d, GRAVITY, TIMESTEP};
use rusted_physics::vec2::Vec2;
use rusted_physics::world::World;

const U: i64 = UNIT;

fn spawn_square(
    world: &mut World,
    x: i64,
    y: i64,
    vx: i64,
    vy: i64,
    kinematic: bool,
) -> usize {
    let (poly, transform, _aabb, mut body) = create_square(U, U, Vec2 { x, y }, 0, kinematic);
    body.linear_speed = Vec2 { x: vx, y: vy };
    world.spawn(poly.points, transform, body)
}

fn fresh() -> (World, BroadPhaseData, NarrowPhaseData, CollisionConfig) {
    (World::new(), BroadPhaseData::new(), NarrowPhaseData::new(), CollisionConfig::default())
}

#[test]
fn approaching_squares_collide_and_slow_down() {
    // Two squares of half-width one unit at x = 0 and x = 1.5, driving
    // into each other at one unit per second each.
    let (mut world, mut bpd, mut npd, mut config) = fresh();
    let a = spawn_square(&mut world, 0, 0, U, 0, false);
    let b = spawn_square(&mut world, 3 * U / 2, 0, -U, 0, false);

    world.update_bounding_boxes();
    world.refresh_entities(&mut bpd, &npd, &config);

    // The broad phase must report the pair, in either mode.
    config.phase_config.broad_phase_type = BroadPhaseType::Rough;
    world.broad_phase(&mut bpd, &config);
    assert_eq!(bpd.collision_pairs.len(), 1);
    assert_eq!(bpd.collision_pairs[0].entity_a, a);
    assert_eq!(bpd.collision_pairs[0].entity_b, b);
    config.phase_config.broad_phase_type = BroadPhaseType::SAP;
    world.broad_phase(&mut bpd, &config);
    assert_eq!(bpd.collision_pairs.len(), 1);

    // The narrow phase must confirm it, with either algorithm.
    config.phase_config.narrow_phase_type = NarrowPhaseType::SAT;
    world.narrow_phase(&bpd, &mut npd, &config);
    assert_eq!(npd.collision_infos.len(), 1);
    config.phase_config.narrow_phase_type = NarrowPhaseType::GJK;
    world.narrow_phase(&bpd, &mut npd, &config);
    assert_eq!(npd.collision_infos.len(), 1);
    let depth_before = npd.collision_infos[0].distance;
    assert!(depth_before > 0);

    // The response must reduce the closing velocity.
    let closing_before = world.bodies[a].linear_speed.x - world.bodies[b].linear_speed.x;
    world.collision_response(&npd, &config);
    let closing_after = world.bodies[a].linear_speed.x - world.bodies[b].linear_speed.x;
    assert!(closing_after < closing_before);
    world.update_rigidbodies(&config);

    // Next tick, the penetration must not have grown.
    world.update_bounding_boxes();
    world.refresh_entities(&mut bpd, &npd, &config);
    world.broad_phase(&mut bpd, &config);
    world.narrow_phase(&bpd, &mut npd, &config);
    if npd.collision_infos.len() == 1 {
        assert!(npd.collision_infos[0].distance <= depth_before);
    }
}

#[test]
fn distant_squares_produce_no_work() {
    // Ten units of clearance: the broad phase must stay silent in both
    // modes, and the narrow phase has nothing to test.
    let (mut world, mut bpd, mut npd, mut config) = fresh();
    spawn_square(&mut world, 0, 0, 0, 0, false);
    spawn_square(&mut world, 12 * U, 0, 0, 0, false);
    world.update_bounding_boxes();
    world.refresh_entities(&mut bpd, &npd, &config);
    config.phase_config.broad_phase_type = BroadPhaseType::Rough;
    world.broad_phase(&mut bpd, &config);
    assert_eq!(bpd.collision_pairs.len(), 0);
    config.phase_config.broad_phase_type = BroadPhaseType::SAP;
    world.broad_phase(&mut bpd, &config);
    assert_eq!(bpd.collision_pairs.len(), 0);
    world.narrow_phase(&bpd, &mut npd, &config);
    assert_eq!(npd.collision_infos.len(), 0);
    assert_eq!(npd.collided_entities.len(), 0);
}

#[test]
fn kinematic_body_never_moves() {
    let (mut world, mut bpd, mut npd, mut config) = fresh();
    let anvil = spawn_square(&mut world, 0, 0, 0, 0, true);
    let ball = spawn_square(&mut world, 3 * U / 2, 0, -U, 0, false);
    let anvil_transform = world.transforms[anvil];
    for _ in 0..3 {
        world.tick(&mut bpd, &mut npd, &mut config);
    }
    assert_eq!(world.transforms[anvil].translation.x, anvil_transform.translation.x);
    assert_eq!(world.transforms[anvil].translation.y, anvil_transform.translation.y);
    assert_eq!(world.transforms[anvil].rotation, anvil_transform.rotation);
    assert_eq!(world.bodies[anvil].linear_speed.x, 0);
    assert_eq!(world.bodies[anvil].linear_speed.y, 0);
    assert_eq!(world.bodies[anvil].angular_speed, 0);
    // Sanity: the dynamic body did move.
    assert_ne!(world.transforms[ball].translation.x, 3 * U / 2);
}

#[test]
fn integrator_advances_by_velocity_times_step() {
    let (mut world, _bpd, _npd, config) = fresh();
    let id = spawn_square(&mut world, 0, 0, U, 0, false);
    world.update_rigidbodies(&config);
    // One sixtieth of a second at one unit per second.
    assert_eq!(world.transforms[id].translation.x, TIMESTEP);
    assert_eq!(world.transforms[id].translation.y, 0);
}

#[test]
fn gravity_accelerates_downward_when_enabled() {
    let (mut world, _bpd, _npd, mut config) = fresh();
    config.system_params.gravity_enabled = true;
    let id = spawn_square(&mut world, 0, 0, 0, 0, false);
    world.update_rigidbodies(&config);
    let expected = -((GRAVITY as i128 * TIMESTEP as i128 / U as i128) as i64);
    assert_eq!(world.bodies[id].linear_speed.y, expected);
    assert!(world.bodies[id].linear_speed.y < 0);
}

#[test]
fn active_list_is_sorted_and_deduplicated() {
    let (mut world, mut bpd, npd, config) = fresh();
    let a = spawn_square(&mut world, 5 * U, 0, 0, 0, false);
    let b = spawn_square(&mut world, U, 0, 0, 0, false);
    let c = spawn_square(&mut world, 3 * U, 0, 0, 0, false);
    world.update_bounding_boxes();
    world.refresh_entities(&mut bpd, &npd, &config);
    assert_eq!(bpd.sorted_entities, vec![b, c, a]);
    // Refreshing again must not duplicate anyone.
    world.refresh_entities(&mut bpd, &npd, &config);
    assert_eq!(bpd.sorted_entities, vec![b, c, a]);
    // A despawned entity leaves the list.
    world.despawn(c);
    world.refresh_entities(&mut bpd, &npd, &config);
    assert_eq!(bpd.sorted_entities, vec![b, a]);
}

#[test]
fn sleep_policy_rests_and_wakes() {
    // With the policy on, entities with no contact fall off the active
    // list after a tick; a placement change wakes them again.
    let (mut world, mut bpd, mut npd, mut config) = fresh();
    config.put_non_colliding_asleep = true;
    let a = spawn_square(&mut world, 0, 0, 0, 0, false);
    let b = spawn_square(&mut world, 12 * U, 0, 0, 0, false);
    world.tick(&mut bpd, &mut npd, &mut config);
    // Both were listed and had no contact: the next refresh rests them.
    world.tick(&mut bpd, &mut npd, &mut config);
    assert_eq!(bpd.sorted_entities.len(), 0);
    assert!(!world.awake[a]);
    assert!(!world.awake[b]);
    // Move one body: it wakes and returns to the list on the next tick.
    world.transforms[a].translation.x = U;
    world.changed[a] = true;
    world.tick(&mut bpd, &mut npd, &mut config);
    assert!(world.awake[a]);
    assert_eq!(bpd.sorted_entities, vec![a]);
}

#[test]
fn statistics_count_entities_pairs_and_active() {
    let (mut world, mut bpd, mut npd, mut config) = fresh();
    spawn_square(&mut world, 0, 0, 0, 0, false);
    spawn_square(&mut world, 3 * U / 2, 0, 0, 0, false);
    spawn_square(&mut world, 30 * U, 0, 0, 0, false);
    world.tick(&mut bpd, &mut npd, &mut config);
    assert_eq!(config.statistics.entity_count, 3);
    assert_eq!(config.statistics.awake_entities_count, 3);
    assert_eq!(config.statistics.collision_pairs_count, 1);
}

#[test]
fn momentum_exchanges_in_head_on_tick() {
    // Equal masses, full restitution: after one tick the bodies no
    // longer drive into each other. The contact lands on a box corner,
    // so part of the exchange goes into equal and opposite spin.
    let (mut world, mut bpd, mut npd, mut config) = fresh();
    config.system_params.restitution = U;
    let a = spawn_square(&mut world, 0, 0, U, 0, false);
    let b = spawn_square(&mut world, 3 * U / 2, 0, -U, 0, false);
    world.tick(&mut bpd, &mut npd, &mut config);
    assert!(world.bodies[a].linear_speed.x <= 0);
    assert!(world.bodies[b].linear_speed.x >= 0);
    assert_eq!(
        world.bodies[a].linear_speed.x + world.bodies[b].linear_speed.x,
        0
    );
    assert_eq!(
        world.bodies[a].angular_speed + world.bodies[b].angular_speed,
        0
    );
}

#[test]
fn disabled_phases_produce_nothing() {
    let (mut world, mut bpd, mut npd, mut config) = fresh();
    spawn_square(&mut world, 0, 0, 0, 0, false);
    spawn_square(&mut world, 3 * U / 2, 0, 0, 0, false);
    world.update_bounding_boxes();
    world.refresh_entities(&mut bpd, &npd, &config);
    config.phase_config.broad_phase_type = BroadPhaseType::Disabled;
    world.broad_phase(&mut bpd, &config);
    assert_eq!(bpd.collision_pairs.len(), 0);
    config.phase_config.broad_phase_type = BroadPhaseType::SAP;
    world.broad_phase(&mut bpd, &config);
    config.phase_config.narrow_phase_type = NarrowPhaseType::Disabled;
    world.narrow_phase(&bpd, &mut npd, &config);
    assert_eq!(npd.collision_infos.len(), 0);
}

#[test]
fn squares_are_counter_clockwise_with_area_mass() {
    // A unit square (half-extent one half): counter-clockwise ring and
    // mass equal to its area, one quarter.
    let (poly, _t, _bb, body) = create_square(U / 2, U / 2, Vec2 { x: 0, y: 0 }, 0, false);
    assert_eq!(poly.points.len(), 4);
    assert_eq!(poly.points[0], Vec2 { x: -U / 2, y: -U / 2 });
    assert_eq!(poly.points[1], Vec2 { x: U / 2, y: -U / 2 });
    assert_eq!(poly.points[2], Vec2 { x: U / 2, y: U / 2 });
    assert_eq!(poly.points[3], Vec2 { x: -U / 2, y: U / 2 });
    // The ring turns left at the first corner.
    let e1 = Vec2 { x: poly.points[1].x - poly.points[0].x, y: poly.points[1].y - poly.points[0].y };
    let e2 = Vec2 { x: poly.points[2].x - poly.points[1].x, y: poly.points[2].y - poly.points[1].y };
    assert!(e1.cross(e2) > 0);
    assert_eq!(body.mass, U / 4);
    // A sliver still gets a positive mass.
    let (_p, _t2, _bb2, tiny) = create_square(100, 100, Vec2 { x: 0, y: 0 }, 0, false);
    assert_eq!(tiny.mass, 1);
}
