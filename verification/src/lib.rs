//! A real-time 2D rigid-body collision pipeline over fixed-point
//! coordinates.
//!
//! Each simulation tick runs, in order: bounding-box maintenance, activity
//! tracking, a broad phase (all-pairs or sweep-and-prune) that collects
//! candidate pairs by box overlap, a narrow phase (separating-axis test, or
//! GJK with polytope expansion for contact details) that keeps truly
//! intersecting pairs, an impulse-based collision response with friction and
//! positional correction, and a semi-implicit Euler integrator.
//!
//! All quantities are fixed-point: an `i64` counts units of `1 / UNIT`
//! (see [`fxp::UNIT`]), and angles count fractions of a full turn, so that
//! every stage is exact integer arithmetic.

pub mod aabb;
pub mod broad_phase;
pub mod config;
pub mod data_structs;
pub mod fxp;
pub mod gjk;
pub mod helpers;
pub mod polygon_component;
pub mod random_poly;
pub mod response;
pub mod rigidbody;
pub mod sat;
pub mod transform2d;
pub mod trig;
pub mod vec2;
pub mod world;
