//! Scene building: regular random polygons and axis-aligned boxes, ready
//! to spawn. The random draws themselves (radius, side count, placement,
//! speeds) are made by the caller and handed in as plain values, checked
//! here against the configured ranges.

use vstd::prelude::*;
use crate::aabb::AABB;
use crate::fxp::{iabs, tdiv, MAX_COORD, TURN, UNIT};
use crate::polygon_component::PolygonComponent;
use crate::rigidbody::{RigidBody2d, ANGULAR_LIMIT, SPEED_LIMIT};
use crate::transform2d::Transform2d;
use crate::trig::{cos_fp, sin_fp};
use crate::vec2::{bounded, lemma_mul_bound, lemma_tdiv_scaled_bound, Vec2};
use crate::world::box_encloses;

verus! {

/// The ranges the caller's random draws must fall in.
pub struct RandomPolyConfig {
    pub min_points: usize,
    pub max_points: usize,
    pub min_radius: i64,
    pub max_radius: i64,
    pub min_rotation: i64,
    pub max_rotation: i64,
    pub min_linear_speed: Vec2,
    pub max_linear_speed: Vec2,
    pub min_angular_speed: i64,
    pub max_angular_speed: i64,
    pub min_bounds: Vec2,
    pub max_bounds: Vec2,
}

impl RandomPolyConfig {
    /// Ranges that keep every drawn value within the world's limits.
    pub open spec fn valid(self) -> bool {
        &&& 3 <= self.min_points <= self.max_points
        &&& self.max_points <= 64
        &&& 0 < self.min_radius <= self.max_radius
        &&& self.max_radius <= MAX_COORD
        &&& 0 <= self.min_rotation <= self.max_rotation
        &&& self.max_rotation < TURN
        &&& iabs(self.min_linear_speed.x as int) <= SPEED_LIMIT as int
        &&& iabs(self.min_linear_speed.y as int) <= SPEED_LIMIT as int
        &&& iabs(self.max_linear_speed.x as int) <= SPEED_LIMIT as int
        &&& iabs(self.max_linear_speed.y as int) <= SPEED_LIMIT as int
        &&& iabs(self.min_angular_speed as int) <= ANGULAR_LIMIT as int
        &&& iabs(self.max_angular_speed as int) <= ANGULAR_LIMIT as int
        &&& bounded(self.min_bounds, MAX_COORD as int)
        &&& bounded(self.max_bounds, MAX_COORD as int)
    }
}

impl Default for RandomPolyConfig {
    /// Polygons of three to twelve sides, ten to twenty units across,
    /// anywhere in a 1600 x 800 unit arena, drifting up to a hundred
    /// units per second and spinning up to about ten radians per second.
    fn default() -> (r: RandomPolyConfig)
        ensures
            r.valid(),
            r.min_points == 3,
            r.max_points == 12,
            r.min_radius == 10 * UNIT,
            r.max_radius == 20 * UNIT,
    {
        RandomPolyConfig {
            min_points: 3,
            max_points: 12,
            min_radius: 10 * UNIT,
            max_radius: 20 * UNIT,
            min_rotation: 0,
            max_rotation: TURN - 1,
            min_linear_speed: Vec2 { x: -100 * UNIT, y: -100 * UNIT },
            max_linear_speed: Vec2 { x: 100 * UNIT, y: 100 * UNIT },
            min_angular_speed: -104348,
            max_angular_speed: 104348,
            min_bounds: Vec2 { x: -800 * UNIT, y: -400 * UNIT },
            max_bounds: Vec2 { x: 800 * UNIT, y: 400 * UNIT },
        }
    }
}

/// Build one regular polygon entity from the caller's draws: `sides`
/// vertices on a circle of the given radius, placed and moving as drawn.
/// The body's mass is the radius.
pub fn create_random_poly(
    config: &RandomPolyConfig,
    radius: i64,
    sides: usize,
    position: Vec2,
    rotation: i64,
    linear_speed: Vec2,
    angular_speed: i64,
) -> (r: (PolygonComponent, Transform2d, AABB, RigidBody2d))
    requires
        config.valid(),
        config.min_radius <= radius <= config.max_radius,
        config.min_points <= sides <= config.max_points,
        config.min_bounds.x <= position.x <= config.max_bounds.x,
        config.min_bounds.y <= position.y <= config.max_bounds.y,
        config.min_rotation <= rotation <= config.max_rotation,
        config.min_linear_speed.x <= linear_speed.x <= config.max_linear_speed.x,
        config.min_linear_speed.y <= linear_speed.y <= config.max_linear_speed.y,
        config.min_angular_speed <= angular_speed <= config.max_angular_speed,
    ensures
        r.0.valid(),
        r.0.points@.len() == sides,
        forall|k: int|
            0 <= k < sides ==> #[trigger] r.0.points@[k] == (Vec2 {
                x: tdiv(
                    crate::trig::cos_spec((k * (TURN as int)) / (sides as int)) * radius,
                    UNIT as int,
                ) as i64,
                y: tdiv(
                    crate::trig::sin_spec((k * (TURN as int)) / (sides as int)) * radius,
                    UNIT as int,
                ) as i64,
            }),
        r.1.translation == position,
        r.1.rotation == rotation,
        r.1.scale == UNIT,
        r.1.valid(),
        box_encloses(r.2, r.1, r.0),
        r.3.mass == radius,
        !r.3.is_kinematic,
        r.3.linear_speed == linear_speed,
        r.3.angular_speed == angular_speed,
        r.3.valid(),
{
    let mut points: Vec<Vec2> = Vec::new();
    for i in 0..sides
        invariant
            3 <= sides <= 64,
            0 < radius <= MAX_COORD,
            points@.len() == i,
            forall|k: int| 0 <= k < i ==> bounded(#[trigger] points@[k], MAX_COORD as int),
            forall|k: int|
                0 <= k < i ==> #[trigger] points@[k] == (Vec2 {
                    x: tdiv(
                        crate::trig::cos_spec((k * (TURN as int)) / (sides as int)) * radius,
                        UNIT as int,
                    ) as i64,
                    y: tdiv(
                        crate::trig::sin_spec((k * (TURN as int)) / (sides as int)) * radius,
                        UNIT as int,
                    ) as i64,
                }),
    {
        let angle: i64 = (((i as u64) * (TURN as u64)) / (sides as u64)) as i64;
        proof {
            assert((i as int) * (TURN as int) < (sides as int) * (TURN as int))
                by (nonlinear_arith)
                requires
                    0 <= i as int,
                    (i as int) < (sides as int),
                    TURN as int > 0,
            ;
            assert((i as int) * (TURN as int) / (sides as int) < TURN as int)
                by (nonlinear_arith)
                requires
                    (i as int) * (TURN as int) < (sides as int) * (TURN as int),
                    0 <= (i as int) * (TURN as int),
                    sides as int > 0,
            ;
        }
        let c = cos_fp(angle);
        let s = sin_fp(angle);
        proof {
            lemma_mul_bound(c as int, radius as int, UNIT as int, MAX_COORD as int);
            lemma_mul_bound(s as int, radius as int, UNIT as int, MAX_COORD as int);
            lemma_tdiv_scaled_bound(c * radius, UNIT as int);
            lemma_tdiv_scaled_bound(s * radius, UNIT as int);
            assert(iabs(tdiv(c * radius, UNIT as int)) <= MAX_COORD as int) by (nonlinear_arith)
                requires
                    iabs(tdiv(c * radius, UNIT as int)) * (UNIT as int) <= iabs((c * radius) as int),
                    iabs((c * radius) as int) <= (UNIT as int) * (MAX_COORD as int),
                    UNIT as int > 0,
            ;
            assert(iabs(tdiv(s * radius, UNIT as int)) <= MAX_COORD as int) by (nonlinear_arith)
                requires
                    iabs(tdiv(s * radius, UNIT as int)) * (UNIT as int) <= iabs((s * radius) as int),
                    iabs((s * radius) as int) <= (UNIT as int) * (MAX_COORD as int),
                    UNIT as int > 0,
            ;
        }
        let px = crate::fxp::div_trunc((c as i128) * (radius as i128), UNIT as i128);
        let py = crate::fxp::div_trunc((s as i128) * (radius as i128), UNIT as i128);
        proof {
            assert(angle as int == ((i as int) * (TURN as int)) / (sides as int));
            assert(c == crate::trig::cos_spec(angle as int));
            assert(s == crate::trig::sin_spec(angle as int));
        }
        points.push(Vec2 { x: px as i64, y: py as i64 });
    }
    let polygon = PolygonComponent::new(points);
    let transform = Transform2d { translation: position, rotation, scale: UNIT };
    let placed = polygon.get_placed_points(&transform);
    let bb = AABB::from(&placed);
    proof {
        assert forall|k: int| 0 <= k < polygon.points@.len() implies bb.min.x
            <= crate::transform2d::placed_x(transform, #[trigger] polygon.points@[k]) <= bb.max.x
            && bb.min.y <= crate::transform2d::placed_y(transform, polygon.points@[k])
            <= bb.max.y by {
            assert(placed@[k].x == crate::transform2d::placed_x(transform, polygon.points@[k]));
            assert(bb.min.x <= placed@[k].x <= bb.max.x);
            assert(bb.min.y <= placed@[k].y <= bb.max.y);
        }
    }
    let body = RigidBody2d {
        mass: radius,
        friction: 58982,
        is_kinematic: false,
        linear_speed,
        angular_speed,
        linear_acceleration: Vec2 { x: 0, y: 0 },
        angular_acceleration: 0,
    };
    (polygon, transform, bb, body)
}

/// Build one box entity: four corners at `(±length, ±height)`, placed as
/// given; the body's mass is the box area `length * height / UNIT`.
pub fn create_square(
    length: i64,
    height: i64,
    position: Vec2,
    rotation: i64,
    kinematic: bool,
) -> (r: (PolygonComponent, Transform2d, AABB, RigidBody2d))
    requires
        0 < length <= MAX_COORD,
        0 < height <= MAX_COORD,
        length * height <= (MAX_COORD as int) * (UNIT as int),
        bounded(position, MAX_COORD as int),
        0 <= rotation < TURN,
    ensures
        r.0.valid(),
        r.0.points@.len() == 4,
        r.0.points@[0] == (Vec2 { x: (-length) as i64, y: (-height) as i64 }),
        r.0.points@[1] == (Vec2 { x: length, y: (-height) as i64 }),
        r.0.points@[2] == (Vec2 { x: length, y: height }),
        r.0.points@[3] == (Vec2 { x: (-length) as i64, y: height }),
        r.1.translation == position,
        r.1.rotation == rotation,
        r.1.scale == UNIT,
        r.1.valid(),
        box_encloses(r.2, r.1, r.0),
        r.3.mass == (if tdiv(length * height, UNIT as int) >= 1 {
            tdiv(length * height, UNIT as int)
        } else {
            1int
        }),
        r.3.is_kinematic == kinematic,
        r.3.linear_speed == (Vec2 { x: 0i64, y: 0i64 }),
        r.3.angular_speed == 0,
        r.3.valid(),
{
    // The ring is counter-clockwise, as shapes are defined.
    let mut points: Vec<Vec2> = Vec::new();
    points.push(Vec2 { x: -length, y: -height });
    points.push(Vec2 { x: length, y: -height });
    points.push(Vec2 { x: length, y: height });
    points.push(Vec2 { x: -length, y: height });
    let polygon = PolygonComponent::new(points);
    let transform = Transform2d { translation: position, rotation, scale: UNIT };
    let placed = polygon.get_placed_points(&transform);
    let bb = AABB::from(&placed);
    proof {
        assert forall|k: int| 0 <= k < polygon.points@.len() implies bb.min.x
            <= crate::transform2d::placed_x(transform, #[trigger] polygon.points@[k]) <= bb.max.x
            && bb.min.y <= crate::transform2d::placed_y(transform, polygon.points@[k])
            <= bb.max.y by {
            assert(placed@[k].x == crate::transform2d::placed_x(transform, polygon.points@[k]));
            assert(bb.min.x <= placed@[k].x <= bb.max.x);
            assert(bb.min.y <= placed@[k].y <= bb.max.y);
        }
    }
    proof {
        assert(0 <= length * height) by (nonlinear_arith)
            requires
                length > 0,
                height > 0,
        ;
        lemma_mul_bound(length as int, height as int, MAX_COORD as int, MAX_COORD as int);
        lemma_tdiv_scaled_bound(length * height, UNIT as int);
        assert(tdiv(length * height, UNIT as int) >= 0 && tdiv(length * height, UNIT as int)
            <= MAX_COORD) by (nonlinear_arith)
            requires
                0 <= length * height,
                length * height <= (MAX_COORD as int) * (UNIT as int),
                tdiv(length * height, UNIT as int) == (length * height) / (UNIT as int),
                iabs(tdiv(length * height, UNIT as int)) * (UNIT as int) <= iabs(
                    (length * height) as int,
                ),
                UNIT as int == 65536,
                MAX_COORD as int == 0x4000_0000,
        ;
    }
    let area = crate::fxp::div_trunc((length as i128) * (height as i128), UNIT as i128) as i64;
    // Mass is the box area, floored at the smallest representable mass
    // so that very small boxes keep a positive mass.
    let mass = if area >= 1 {
        area
    } else {
        1
    };
    let mut body = RigidBody2d::default();
    body.is_kinematic = kinematic;
    body.mass = mass;
    (polygon, transform, bb, body)
}

} // verus!
