//! Pipeline configuration: which broad- and narrow-phase algorithms run,
//! the solver's scalar parameters, and the per-tick statistics counters.

use vstd::prelude::*;
use crate::fxp::UNIT;

verus! {

/// How candidate pairs are generated.
#[derive(Clone, Copy, PartialEq, Eq, Structural, Debug)]
pub enum BroadPhaseType {
    Disabled,
    Rough,
    SAP,
}

/// How candidate pairs are confirmed.
#[derive(Clone, Copy, PartialEq, Eq, Structural, Debug)]
pub enum NarrowPhaseType {
    Disabled,
    SAT,
    GJK,
}

/// Which algorithm each phase runs, and whether contact details
/// (normal, location, depth) are computed for confirmed collisions.
///
/// The multithread flags tell a host whether it may fan a phase's
/// per-pair work out to workers; the pipeline computes the same result
/// either way, and this library always runs each stage sequentially.
/// The response stage in particular must never run with concurrent
/// writes to one body's velocities.
#[derive(Clone, Copy, PartialEq, Eq, Structural, Debug)]
pub struct PhaseConfig {
    pub broad_phase_type: BroadPhaseType,
    pub narrow_phase_type: NarrowPhaseType,
    pub compute_info_collision: bool,
    pub multithread_broad_phase: bool,
    pub multithread_narrow_phase: bool,
    pub multithread_response_phase: bool,
}

impl Default for PhaseConfig {
    /// Sweep-and-prune, GJK, with contact details.
    fn default() -> (r: PhaseConfig)
        ensures
            r.broad_phase_type == BroadPhaseType::SAP,
            r.narrow_phase_type == NarrowPhaseType::GJK,
            r.compute_info_collision,
            !r.multithread_response_phase,
    {
        PhaseConfig {
            broad_phase_type: BroadPhaseType::SAP,
            narrow_phase_type: NarrowPhaseType::GJK,
            compute_info_collision: true,
            multithread_broad_phase: true,
            multithread_narrow_phase: true,
            multithread_response_phase: false,
        }
    }
}

/// The solver's scalar parameters, `UNIT`-scaled and in `(0, 1]`.
#[derive(Clone, Copy, PartialEq, Eq, Structural, Debug)]
pub struct SystemParams {
    pub damping: i64,
    pub restitution: i64,
    pub friction: i64,
    pub gravity_enabled: bool,
}

impl SystemParams {
    pub open spec fn valid(self) -> bool {
        &&& 0 < self.damping <= UNIT
        &&& 0 < self.restitution <= UNIT
        &&& 0 < self.friction <= UNIT
    }
}

impl Default for SystemParams {
    /// Damping 0.2, restitution 0.6, friction 0.2, gravity off.
    fn default() -> (r: SystemParams)
        ensures
            r.damping == 13107,
            r.restitution == 39322,
            r.friction == 13107,
            !r.gravity_enabled,
            r.valid(),
    {
        SystemParams { damping: 13107, restitution: 39322, friction: 13107, gravity_enabled: false }
    }
}

/// Per-tick counters a statistics display reads.
#[derive(Clone, Copy, PartialEq, Eq, Structural, Debug)]
pub struct Statistics {
    pub entity_count: usize,
    pub collision_pairs_count: usize,
    pub awake_entities_count: usize,
}

impl Default for Statistics {
    fn default() -> (r: Statistics)
        ensures
            r.entity_count == 0,
            r.collision_pairs_count == 0,
            r.awake_entities_count == 0,
    {
        Statistics { entity_count: 0, collision_pairs_count: 0, awake_entities_count: 0 }
    }
}

/// Everything the pipeline consults while it runs a tick.
///
/// When `put_non_colliding_asleep` is set, the activity tracker drops
/// every listed entity the narrow phase did not report in contact, and
/// an entity whose placement changes is woken and relisted. A sleeping
/// entity is not woken by an approaching neighbor — only by its own
/// placement change — so resting contacts can be missed after sleep;
/// the policy is off by default.
#[derive(Clone, Copy, PartialEq, Eq, Structural, Debug)]
pub struct CollisionConfig {
    pub phase_config: PhaseConfig,
    pub system_params: SystemParams,
    pub statistics: Statistics,
    pub put_non_colliding_asleep: bool,
}

impl Default for CollisionConfig {
    fn default() -> (r: CollisionConfig)
        ensures
            r.phase_config.broad_phase_type == BroadPhaseType::SAP,
            r.phase_config.narrow_phase_type == NarrowPhaseType::GJK,
            r.phase_config.compute_info_collision,
            r.system_params == (SystemParams {
                damping: 13107i64,
                restitution: 39322i64,
                friction: 13107i64,
                gravity_enabled: false,
            }),
            r.statistics == (Statistics {
                entity_count: 0usize,
                collision_pairs_count: 0usize,
                awake_entities_count: 0usize,
            }),
            r.system_params.valid(),
            !r.put_non_colliding_asleep,
    {
        CollisionConfig {
            phase_config: Default::default(),
            system_params: Default::default(),
            statistics: Default::default(),
            put_non_colliding_asleep: false,
        }
    }
}

} // verus!
