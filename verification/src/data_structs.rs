//! The per-tick pipeline records: contacts and the scratch state each
//! stage leaves for the next.

use vstd::prelude::*;
use crate::broad_phase::CollisionPair;
use crate::fxp::UNIT;
use crate::vec2::{bounded, Vec2};

verus! {

/// A contact: the colliding pair, one or more world-space contact
/// locations, a `UNIT`-scaled unit normal pointing from body B toward
/// body A, and a non-negative penetration depth.
pub struct CollisionInfo {
    pub collision_pair: Option<CollisionPair>,
    pub location: Vec<Vec2>,
    pub normal: Vec2,
    pub distance: i64,
}

impl CollisionInfo {
    /// The bounds the response stage relies on: a `UNIT`-scaled normal,
    /// a non-negative bounded depth, and world-bounded contact locations.
    pub open spec fn wf(self) -> bool {
        &&& bounded(self.normal, UNIT as int)
        &&& 0 <= self.distance <= 0x100_0000_0000
        &&& forall|i: int|
            0 <= i < self.location@.len() ==> bounded(
                #[trigger] self.location@[i],
                2 * crate::fxp::WORLD_LIMIT as int,
            )
    }

    /// A contact for a pair with no detail computed yet.
    pub fn new(collision_pair: &CollisionPair) -> (r: CollisionInfo)
        ensures
            r.collision_pair == Some(*collision_pair),
            r.location@.len() == 0,
            r.normal == (Vec2 { x: 0i64, y: 0i64 }),
            r.distance == 0,
            r.wf(),
    {
        CollisionInfo {
            collision_pair: Some(*collision_pair),
            location: Vec::new(),
            normal: Vec2 { x: 0, y: 0 },
            distance: 0,
        }
    }
}

/// What the broad phase leaves for the narrow phase: the candidate pairs,
/// and the x-sorted active entities it scanned.
pub struct BroadPhaseData {
    pub collision_pairs: Vec<CollisionPair>,
    pub sorted_entities: Vec<usize>,
}

impl BroadPhaseData {
    pub fn new() -> (r: BroadPhaseData)
        ensures
            r.collision_pairs@.len() == 0,
            r.sorted_entities@.len() == 0,
    {
        BroadPhaseData { collision_pairs: Vec::new(), sorted_entities: Vec::new() }
    }
}

/// What the narrow phase leaves for the response stage: the confirmed
/// contacts, and the entities appearing in any of them.
pub struct NarrowPhaseData {
    pub collision_infos: Vec<CollisionInfo>,
    pub collided_entities: Vec<usize>,
}

impl NarrowPhaseData {
    pub fn new() -> (r: NarrowPhaseData)
        ensures
            r.collision_infos@.len() == 0,
            r.collided_entities@.len() == 0,
    {
        NarrowPhaseData { collision_infos: Vec::new(), collided_entities: Vec::new() }
    }
}

} // verus!
