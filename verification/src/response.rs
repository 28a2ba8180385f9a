//! Collision response: sequential impulses along the contact normal,
//! Coulomb-style friction along the tangent, and a positional correction
//! that separates overlapping bodies.
//!
//! Every formula is fixed-point and stated exactly by spec functions, so
//! that the momentum-exchange and kinematic-immovability laws are proved
//! from the same arithmetic the solver runs.

use vstd::prelude::*;
use crate::data_structs::CollisionInfo;
use crate::fxp::{iabs, tdiv, UNIT};
use crate::rigidbody::{RigidBody2d, ANGULAR_LIMIT, SPEED_LIMIT};
use crate::transform2d::Transform2d;
use crate::vec2::{bounded, Vec2};

verus! {

/// One full turn in radians, `UNIT`-scaled: angular speeds count turns,
/// and the solver converts them to radians for tangential velocities.
pub const TWO_PI: i64 = 411775;

/// The largest linear impulse (per axis) a single contact may accumulate.
pub const IMPULSE_LIMIT: i64 = 0x4000_0000;

/// The velocity changes one contact asks of its two bodies.
pub struct ImpulseResult {
    pub entity: Option<usize>,
    pub linear_impulse: Vec2,
    pub angular_impulse: i64,
}

impl ImpulseResult {
    pub fn new_for(entity: usize) -> (r: ImpulseResult)
        ensures
            r.entity == Some(entity),
            r.linear_impulse == (Vec2 { x: 0i64, y: 0i64 }),
            r.angular_impulse == 0,
    {
        ImpulseResult {
            entity: Some(entity),
            linear_impulse: Vec2 { x: 0, y: 0 },
            angular_impulse: 0,
        }
    }
}

/// Fixed-point product: `a * b / UNIT`, truncated.
pub open spec fn fpmul(a: int, b: int) -> int {
    tdiv(a * b, UNIT as int)
}

/// A value clamped into `[-lim, lim]`.
pub open spec fn clampi(v: int, lim: int) -> int {
    if v > lim {
        lim
    } else if v < -lim {
        -lim
    } else {
        v
    }
}

/// An angular speed in turns converted to `UNIT`-scaled radians.
pub open spec fn omega_rad(ang: int) -> int {
    fpmul(ang, TWO_PI as int)
}

/// The lever arm of a contact location about a body's position.
pub open spec fn lever(loc: Vec2, tr: Vec2) -> (int, int) {
    (loc.x - tr.x, loc.y - tr.y)
}

/// The cross product of a lever arm with the contact normal, `UNIT`-scaled.
pub open spec fn cross_rn(r: (int, int), n: Vec2) -> int {
    tdiv(r.0 * n.y - r.1 * n.x, UNIT as int)
}

/// The angular momentum factor of a contact for one body.
pub open spec fn momentum_of(r: (int, int), n: Vec2, inv: int) -> int {
    fpmul(cross_rn(r, n), inv)
}

/// The rotational weight a lever arm adds to the impulse denominator.
pub open spec fn wrot_of(r: (int, int), n: Vec2, inv: int) -> int {
    fpmul(momentum_of(r, n, inv), cross_rn(r, n))
}

/// The angular-speed change an impulse asks for, converted from radians
/// to the turn units angular speeds are stored in.
pub open spec fn ang_impulse(j: int, momentum: int) -> int {
    tdiv(fpmul(j, momentum) * UNIT, TWO_PI as int)
}

/// The x velocity of a body's material point at lever `r`, with the
/// impulses accumulated so far.
pub open spec fn point_vel_x(lin: Vec2, acc_lx: int, ang: int, acc_ang: int, r: (int, int)) -> int {
    lin.x + acc_lx - fpmul(omega_rad(ang + acc_ang), r.1)
}

/// The y velocity of a body's material point at lever `r`.
pub open spec fn point_vel_y(lin: Vec2, acc_ly: int, ang: int, acc_ang: int, r: (int, int)) -> int {
    lin.y + acc_ly + fpmul(omega_rad(ang + acc_ang), r.0)
}

/// The accumulated impulse state: body A's linear x and y and angular
/// impulses, body B's, and whether any impulse has been applied.
pub open spec fn response_step(
    loc: Vec2,
    tr1: Vec2,
    tr2: Vec2,
    lin1: Vec2,
    ang1: int,
    lin2: Vec2,
    ang2: int,
    inv1: int,
    inv2: int,
    n: Vec2,
    e: int,
    s: (int, int, int, int, int, int, bool),
) -> (int, int, int, int, int, int, bool) {
    let ra = lever(loc, tr1);
    let rb = lever(loc, tr2);
    let vax = point_vel_x(lin1, s.0, ang1, s.2, ra);
    let vay = point_vel_y(lin1, s.1, ang1, s.2, ra);
    let vbx = point_vel_x(lin2, s.3, ang2, s.5, rb);
    let vby = point_vel_y(lin2, s.4, ang2, s.5, rb);
    let vr = tdiv((vax - vbx) * n.x + (vay - vby) * n.y, UNIT as int);
    let den = inv1 + inv2 + wrot_of(ra, n, inv1) + wrot_of(rb, n, inv2);
    if vr < 0 && den > 0 {
        let num = -fpmul((UNIT as int) + e, vr);
        let j = tdiv(num * UNIT, den);
        (
            clampi(s.0 + fpmul(fpmul(j, inv1), n.x as int), IMPULSE_LIMIT as int),
            clampi(s.1 + fpmul(fpmul(j, inv1), n.y as int), IMPULSE_LIMIT as int),
            clampi(s.2 + ang_impulse(j, momentum_of(ra, n, inv1)), ANGULAR_LIMIT as int),
            clampi(s.3 - fpmul(fpmul(j, inv2), n.x as int), IMPULSE_LIMIT as int),
            clampi(s.4 - fpmul(fpmul(j, inv2), n.y as int), IMPULSE_LIMIT as int),
            clampi(s.5 - ang_impulse(j, momentum_of(rb, n, inv2)), ANGULAR_LIMIT as int),
            true,
        )
    } else {
        s
    }
}

/// The impulse state after the first `k` contact locations.
pub open spec fn response_fold(
    locs: Seq<Vec2>,
    k: int,
    tr1: Vec2,
    tr2: Vec2,
    lin1: Vec2,
    ang1: int,
    lin2: Vec2,
    ang2: int,
    inv1: int,
    inv2: int,
    n: Vec2,
    e: int,
) -> (int, int, int, int, int, int, bool)
    decreases k,
{
    if k <= 0 {
        (0int, 0int, 0int, 0int, 0int, 0int, false)
    } else {
        response_step(
            locs[k - 1],
            tr1,
            tr2,
            lin1,
            ang1,
            lin2,
            ang2,
            inv1,
            inv2,
            n,
            e,
            response_fold(locs, k - 1, tr1, tr2, lin1, ang1, lin2, ang2, inv1, inv2, n, e),
        )
    }
}

/// A body with zero inverse mass accumulates no impulse: its entries of
/// the fold stay zero whatever the contacts are.
pub proof fn lemma_fold_kinematic(
    locs: Seq<Vec2>,
    k: int,
    tr1: Vec2,
    tr2: Vec2,
    lin1: Vec2,
    ang1: int,
    lin2: Vec2,
    ang2: int,
    inv1: int,
    inv2: int,
    n: Vec2,
    e: int,
)
    ensures
        inv1 == 0 ==> {
            let s = response_fold(locs, k, tr1, tr2, lin1, ang1, lin2, ang2, inv1, inv2, n, e);
            s.0 == 0 && s.1 == 0 && s.2 == 0
        },
        inv2 == 0 ==> {
            let s = response_fold(locs, k, tr1, tr2, lin1, ang1, lin2, ang2, inv1, inv2, n, e);
            s.3 == 0 && s.4 == 0 && s.5 == 0
        },
    decreases k,
{
    if k > 0 {
        lemma_fold_kinematic(locs, k - 1, tr1, tr2, lin1, ang1, lin2, ang2, inv1, inv2, n, e);
        let s = response_fold(locs, k - 1, tr1, tr2, lin1, ang1, lin2, ang2, inv1, inv2, n, e);
        let ra = lever(locs[k - 1], tr1);
        let rb = lever(locs[k - 1], tr2);
        if inv1 == 0 {
            assert(fpmul(cross_rn(ra, n), 0) == 0) by (nonlinear_arith);
            let j = response_step_j(locs[k - 1], tr1, tr2, lin1, ang1, lin2, ang2, inv1, inv2, n, e, s);
            assert(fpmul(j, 0) == 0) by (nonlinear_arith);
            assert(fpmul(fpmul(j, 0), n.x as int) == 0) by (nonlinear_arith);
            assert(fpmul(j, momentum_of(ra, n, 0)) == 0) by (nonlinear_arith)
                requires
                    momentum_of(ra, n, 0) == fpmul(cross_rn(ra, n), 0),
                    fpmul(cross_rn(ra, n), 0) == 0,
            ;
            assert(ang_impulse(j, momentum_of(ra, n, 0)) == 0) by (nonlinear_arith)
                requires
                    fpmul(j, momentum_of(ra, n, 0)) == 0,
                    TWO_PI as int > 0,
            ;
        }
        if inv2 == 0 {
            assert(fpmul(cross_rn(rb, n), 0) == 0) by (nonlinear_arith);
            let j = response_step_j(locs[k - 1], tr1, tr2, lin1, ang1, lin2, ang2, inv1, inv2, n, e, s);
            assert(fpmul(j, 0) == 0) by (nonlinear_arith);
            assert(fpmul(fpmul(j, 0), n.x as int) == 0) by (nonlinear_arith);
            assert(fpmul(fpmul(j, 0), n.y as int) == 0) by (nonlinear_arith);
            assert(fpmul(j, momentum_of(rb, n, 0)) == 0) by (nonlinear_arith)
                requires
                    momentum_of(rb, n, 0) == fpmul(cross_rn(rb, n), 0),
                    fpmul(cross_rn(rb, n), 0) == 0,
            ;
            assert(ang_impulse(j, momentum_of(rb, n, 0)) == 0) by (nonlinear_arith)
                requires
                    fpmul(j, momentum_of(rb, n, 0)) == 0,
                    TWO_PI as int > 0,
            ;
        }
    }
}

/// The impulse magnitude a step would compute from state `s`.
pub open spec fn response_step_j(
    loc: Vec2,
    tr1: Vec2,
    tr2: Vec2,
    lin1: Vec2,
    ang1: int,
    lin2: Vec2,
    ang2: int,
    inv1: int,
    inv2: int,
    n: Vec2,
    e: int,
    s: (int, int, int, int, int, int, bool),
) -> int {
    let ra = lever(loc, tr1);
    let rb = lever(loc, tr2);
    let vax = point_vel_x(lin1, s.0, ang1, s.2, ra);
    let vay = point_vel_y(lin1, s.1, ang1, s.2, ra);
    let vbx = point_vel_x(lin2, s.3, ang2, s.5, rb);
    let vby = point_vel_y(lin2, s.4, ang2, s.5, rb);
    let vr = tdiv((vax - vbx) * n.x + (vay - vby) * n.y, UNIT as int);
    let den = inv1 + inv2 + wrot_of(ra, n, inv1) + wrot_of(rb, n, inv2);
    tdiv(-fpmul((UNIT as int) + e, vr) * UNIT, den)
}

/// The magnitude of a fixed-point product stays under `m * n / UNIT`.
pub proof fn lemma_fpmul_bound(a: int, b: int, m: int, n: int)
    requires
        iabs(a) <= m,
        iabs(b) <= n,
    ensures
        iabs(fpmul(a, b)) * (UNIT as int) <= m * n,
{
    crate::vec2::lemma_mul_bound(a, b, m, n);
    crate::vec2::lemma_tdiv_scaled_bound(a * b, UNIT as int);
}

/// `a * b / UNIT` on wide integers; the factor bounds keep the product
/// within `i128`.
fn fpmul_exec(a: i128, b: i128) -> (r: i128)
    requires
        iabs(a as int) <= 0x40_0000_0000_0000_0000,
        iabs(b as int) <= 0x100_0000_0000_0000,
    ensures
        r == fpmul(a as int, b as int),
        iabs(r as int) <= 0x4000_0000_0000_0000_0000_0000_0000,
{
    proof {
        crate::vec2::lemma_mul_bound(a as int, b as int, 0x40_0000_0000_0000_0000, 0x100_0000_0000_0000);
        crate::vec2::lemma_tdiv_scaled_bound((a as int) * (b as int), UNIT as int);
        assert(iabs(tdiv((a as int) * (b as int), UNIT as int)) <= 0x4000_0000_0000_0000_0000_0000_0000)
            by (nonlinear_arith)
            requires
                iabs(tdiv((a as int) * (b as int), UNIT as int)) * (UNIT as int) <= iabs(
                    (a as int) * (b as int),
                ),
                iabs((a as int) * (b as int)) <= 0x40_0000_0000_0000_0000 * 0x100_0000_0000_0000,
                UNIT as int == 65536,
            ;
    }
    crate::fxp::div_trunc(a * b, UNIT as i128)
}

/// `a * b / UNIT` where `b` is a `UNIT`-scaled normal component.
fn fpmul_by_unit(a: i128, b: i128) -> (r: i128)
    requires
        iabs(a as int) <= 0x4000_0000_0000_0000_0000_0000_0000,
        iabs(b as int) <= 0x1_0000,
    ensures
        r == fpmul(a as int, b as int),
        iabs(r as int) <= 0x4000_0000_0000_0000_0000_0000_0000,
{
    proof {
        crate::vec2::lemma_mul_bound(a as int, b as int, 0x4000_0000_0000_0000_0000_0000_0000, 0x1_0000);
        crate::vec2::lemma_tdiv_scaled_bound((a as int) * (b as int), UNIT as int);
        assert(iabs(tdiv((a as int) * (b as int), UNIT as int)) <= 0x4000_0000_0000_0000_0000_0000_0000)
            by (nonlinear_arith)
            requires
                iabs(tdiv((a as int) * (b as int), UNIT as int)) * (UNIT as int) <= iabs(
                    (a as int) * (b as int),
                ),
                iabs((a as int) * (b as int)) <= 0x4000_0000_0000_0000_0000_0000_0000 * 0x1_0000,
                UNIT as int == 65536,
            ;
    }
    crate::fxp::div_trunc(a * b, UNIT as i128)
}

/// A wide value clamped into `[-lim, lim]` and narrowed.
fn clamp_exec(v: i128, lim: i64) -> (r: i64)
    requires
        lim > 0,
    ensures
        r == clampi(v as int, lim as int),
        iabs(r as int) <= lim as int,
{
    if v > lim as i128 {
        lim
    } else if v < -(lim as i128) {
        -lim
    } else {
        v as i64
    }
}

/// Compute the impulse pair a contact asks of its two bodies: for each
/// contact location, if the bodies' material points approach along the
/// normal and some inverse mass is available, an impulse of magnitude
/// `-(1 + restitution) * v_rel / (inv_a + inv_b + rotational weights)` is
/// accumulated for both bodies (body A along the normal, body B against
/// it), clamped to the impulse limits. Returns `None` when no location
/// asked for an impulse. Kinematic bodies accumulate nothing.
#[verifier::rlimit(100)]
pub fn compute_collision_impulse(
    collision_info: &CollisionInfo,
    t1: &Transform2d,
    rb1: &RigidBody2d,
    t2: &Transform2d,
    rb2: &RigidBody2d,
    restitution: i64,
) -> (r: Option<(ImpulseResult, ImpulseResult)>)
    requires
        collision_info.wf(),
        collision_info.collision_pair is Some,
        t1.valid(),
        t2.valid(),
        rb1.valid(),
        rb2.valid(),
        0 < restitution <= UNIT,
    ensures
        ({
            let fin = response_fold(
                collision_info.location@,
                collision_info.location@.len() as int,
                t1.translation,
                t2.translation,
                rb1.linear_speed,
                rb1.angular_speed as int,
                rb2.linear_speed,
                rb2.angular_speed as int,
                crate::rigidbody::inv_mass_spec(*rb1),
                crate::rigidbody::inv_mass_spec(*rb2),
                collision_info.normal,
                restitution as int,
            );
            &&& (r is Some <==> fin.6)
            &&& (r is Some ==> r == Some(
                (
                    ImpulseResult {
                        entity: Some(collision_info.collision_pair->0.entity_a),
                        linear_impulse: Vec2 { x: fin.0 as i64, y: fin.1 as i64 },
                        angular_impulse: fin.2 as i64,
                    },
                    ImpulseResult {
                        entity: Some(collision_info.collision_pair->0.entity_b),
                        linear_impulse: Vec2 { x: fin.3 as i64, y: fin.4 as i64 },
                        angular_impulse: fin.5 as i64,
                    },
                ),
            ))
        }),
        r matches Some(p) ==> {
            &&& bounded(p.0.linear_impulse, IMPULSE_LIMIT as int)
            &&& bounded(p.1.linear_impulse, IMPULSE_LIMIT as int)
            &&& iabs(p.0.angular_impulse as int) <= ANGULAR_LIMIT as int
            &&& iabs(p.1.angular_impulse as int) <= ANGULAR_LIMIT as int
        },
        rb1.is_kinematic ==> (r matches Some(p) ==> p.0.linear_impulse == (Vec2 {
            x: 0i64,
            y: 0i64,
        }) && p.0.angular_impulse == 0),
        rb2.is_kinematic ==> (r matches Some(p) ==> p.1.linear_impulse == (Vec2 {
            x: 0i64,
            y: 0i64,
        }) && p.1.angular_impulse == 0),
{
    let pair = collision_info.collision_pair.unwrap();
    let inv1 = rb1.get_inv_mass();
    let inv2 = rb2.get_inv_mass();
    let n = collision_info.normal;
    let ghost locs = collision_info.location@;
    let ghost tr1g = t1.translation;
    let ghost tr2g = t2.translation;
    let ghost lin1 = rb1.linear_speed;
    let ghost lin2 = rb2.linear_speed;
    let ghost ang1: int = rb1.angular_speed as int;
    let ghost ang2: int = rb2.angular_speed as int;
    let ghost e: int = restitution as int;

    let mut s_alx: i64 = 0;
    let mut s_aly: i64 = 0;
    let mut s_aang: i64 = 0;
    let mut s_blx: i64 = 0;
    let mut s_bly: i64 = 0;
    let mut s_bang: i64 = 0;
    let mut applied = false;

    let count = collision_info.location.len();
    for k in 0..count
        invariant
            count == locs.len(),
            collision_info.location@ == locs,
            collision_info.wf(),
            t1.valid(),
            t2.valid(),
            rb1.valid(),
            rb2.valid(),
            0 < restitution <= UNIT,
            n == collision_info.normal,
            bounded(n, UNIT as int),
            tr1g == t1.translation,
            tr2g == t2.translation,
            lin1 == rb1.linear_speed,
            lin2 == rb2.linear_speed,
            ang1 == rb1.angular_speed as int,
            ang2 == rb2.angular_speed as int,
            e == restitution as int,
            inv1 == crate::rigidbody::inv_mass_spec(*rb1),
            inv2 == crate::rigidbody::inv_mass_spec(*rb2),
            0 <= inv1 <= UNIT * UNIT,
            0 <= inv2 <= UNIT * UNIT,
            iabs(s_alx as int) <= IMPULSE_LIMIT as int,
            iabs(s_aly as int) <= IMPULSE_LIMIT as int,
            iabs(s_aang as int) <= ANGULAR_LIMIT as int,
            iabs(s_blx as int) <= IMPULSE_LIMIT as int,
            iabs(s_bly as int) <= IMPULSE_LIMIT as int,
            iabs(s_bang as int) <= ANGULAR_LIMIT as int,
            ({
                let f = response_fold(
                    locs,
                    k as int,
                    tr1g,
                    tr2g,
                    lin1,
                    ang1,
                    lin2,
                    ang2,
                    inv1 as int,
                    inv2 as int,
                    n,
                    e,
                );
                &&& s_alx == f.0
                &&& s_aly == f.1
                &&& s_aang == f.2
                &&& s_blx == f.3
                &&& s_bly == f.4
                &&& s_bang == f.5
                &&& applied == f.6
            }),
    {
        let loc = collision_info.location[k];
        let ghost s_pre: (int, int, int, int, int, int, bool) = (
            s_alx as int,
            s_aly as int,
            s_aang as int,
            s_blx as int,
            s_bly as int,
            s_bang as int,
            applied,
        );
        let rax: i128 = loc.x as i128 - t1.translation.x as i128;
        let ray: i128 = loc.y as i128 - t1.translation.y as i128;
        let rbx: i128 = loc.x as i128 - t2.translation.x as i128;
        let rby: i128 = loc.y as i128 - t2.translation.y as i128;

        let wrad_a = fpmul_exec(rb1.angular_speed as i128 + s_aang as i128, TWO_PI as i128);
        let wrad_b = fpmul_exec(rb2.angular_speed as i128 + s_bang as i128, TWO_PI as i128);
        proof {
            lemma_fpmul_bound(ang1 + s_pre.2, TWO_PI as int, 0x40_0000, 0x8_0000);
            lemma_fpmul_bound(ang2 + s_pre.5, TWO_PI as int, 0x40_0000, 0x8_0000);
        }
        let wa_y = fpmul_exec(wrad_a, ray);
        let wa_x = fpmul_exec(wrad_a, rax);
        let wb_y = fpmul_exec(wrad_b, rby);
        let wb_x = fpmul_exec(wrad_b, rbx);
        proof {
            lemma_fpmul_bound(wrad_a as int, ray as int, 0x200_0000, 0x80_0000_0000);
            lemma_fpmul_bound(wrad_a as int, rax as int, 0x200_0000, 0x80_0000_0000);
            lemma_fpmul_bound(wrad_b as int, rby as int, 0x200_0000, 0x80_0000_0000);
            lemma_fpmul_bound(wrad_b as int, rbx as int, 0x200_0000, 0x80_0000_0000);
        }
        let vax: i128 = rb1.linear_speed.x as i128 + s_alx as i128 - wa_y;
        let vay: i128 = rb1.linear_speed.y as i128 + s_aly as i128 + wa_x;
        let vbx: i128 = rb2.linear_speed.x as i128 + s_blx as i128 - wb_y;
        let vby: i128 = rb2.linear_speed.y as i128 + s_bly as i128 + wb_x;
        proof {
            crate::vec2::lemma_mul_bound(
                (vax - vbx) as int,
                n.x as int,
                0x4_0000_0000_0000,
                0x1_0000,
            );
            crate::vec2::lemma_mul_bound(
                (vay - vby) as int,
                n.y as int,
                0x4_0000_0000_0000,
                0x1_0000,
            );
        }
        let vr = crate::fxp::div_trunc((vax - vbx) * (n.x as i128) + (vay - vby) * (n.y as i128), UNIT as i128);
        proof {
            crate::vec2::lemma_tdiv_scaled_bound(
                ((vax - vbx) as int) * (n.x as int) + ((vay - vby) as int) * (n.y as int),
                UNIT as int,
            );
        }

        proof {
            crate::vec2::lemma_mul_bound(rax as int, n.y as int, 0x80_0000_0000, 0x1_0000);
            crate::vec2::lemma_mul_bound(ray as int, n.x as int, 0x80_0000_0000, 0x1_0000);
            crate::vec2::lemma_mul_bound(rbx as int, n.y as int, 0x80_0000_0000, 0x1_0000);
            crate::vec2::lemma_mul_bound(rby as int, n.x as int, 0x80_0000_0000, 0x1_0000);
        }
        let cra = crate::fxp::div_trunc(rax * (n.y as i128) - ray * (n.x as i128), UNIT as i128);
        let crb = crate::fxp::div_trunc(rbx * (n.y as i128) - rby * (n.x as i128), UNIT as i128);
        proof {
            crate::vec2::lemma_tdiv_scaled_bound(
                (rax as int) * (n.y as int) - (ray as int) * (n.x as int),
                UNIT as int,
            );
            crate::vec2::lemma_tdiv_scaled_bound(
                (rbx as int) * (n.y as int) - (rby as int) * (n.x as int),
                UNIT as int,
            );
        }
        let mom_a = fpmul_exec(cra, inv1 as i128);
        let mom_b = fpmul_exec(crb, inv2 as i128);
        proof {
            lemma_fpmul_bound(cra as int, inv1 as int, 0x100_0000_0000, 0x1_0000_0000);
            lemma_fpmul_bound(crb as int, inv2 as int, 0x100_0000_0000, 0x1_0000_0000);
        }
        let wrot_a = fpmul_exec(mom_a, cra);
        let wrot_b = fpmul_exec(mom_b, crb);

        let den: i128 = inv1 as i128 + inv2 as i128 + wrot_a + wrot_b;
        if vr < 0 && den > 0 {
            let num = -fpmul_exec(restitution as i128 + UNIT as i128, vr);
            proof {
                lemma_fpmul_bound(
                    (restitution + UNIT) as int,
                    vr as int,
                    0x2_0000,
                    0x8_0000_0000_0000,
                );
            }
            let j = crate::fxp::div_trunc(num * (UNIT as i128), den);
            let ja = fpmul_exec(j, inv1 as i128);
            let jb = fpmul_exec(j, inv2 as i128);
            let da_raw = fpmul_exec(j, mom_a);
            let db_raw = fpmul_exec(j, mom_b);
            let da_ang = crate::fxp::div_trunc(da_raw * (UNIT as i128), TWO_PI as i128);
            let db_ang = crate::fxp::div_trunc(db_raw * (UNIT as i128), TWO_PI as i128);
            let da_x = fpmul_by_unit(ja, n.x as i128);
            let da_y = fpmul_by_unit(ja, n.y as i128);
            let db_x = fpmul_by_unit(jb, n.x as i128);
            let db_y = fpmul_by_unit(jb, n.y as i128);
            s_alx = clamp_exec(s_alx as i128 + da_x, IMPULSE_LIMIT);
            s_aly = clamp_exec(s_aly as i128 + da_y, IMPULSE_LIMIT);
            s_aang = clamp_exec(s_aang as i128 + da_ang, ANGULAR_LIMIT);
            s_blx = clamp_exec(s_blx as i128 - db_x, IMPULSE_LIMIT);
            s_bly = clamp_exec(s_bly as i128 - db_y, IMPULSE_LIMIT);
            s_bang = clamp_exec(s_bang as i128 - db_ang, ANGULAR_LIMIT);
            applied = true;
        }
        proof {
            let f_post = response_step(
                locs[k as int],
                tr1g,
                tr2g,
                lin1,
                ang1,
                lin2,
                ang2,
                inv1 as int,
                inv2 as int,
                n,
                e,
                s_pre,
            );
            assert(s_alx == f_post.0 && s_aly == f_post.1 && s_aang == f_post.2 && s_blx
                == f_post.3 && s_bly == f_post.4 && s_bang == f_post.5 && applied == f_post.6);
        }
    }
    if applied {
        let mut impulse_a = ImpulseResult::new_for(pair.entity_a);
        let mut impulse_b = ImpulseResult::new_for(pair.entity_b);
        impulse_a.linear_impulse = Vec2 { x: s_alx, y: s_aly };
        impulse_a.angular_impulse = s_aang;
        impulse_b.linear_impulse = Vec2 { x: s_blx, y: s_bly };
        impulse_b.angular_impulse = s_bang;
        proof {
            if rb1.is_kinematic || rb2.is_kinematic {
                lemma_fold_kinematic(
                    locs,
                    locs.len() as int,
                    tr1g,
                    tr2g,
                    lin1,
                    ang1,
                    lin2,
                    ang2,
                    inv1 as int,
                    inv2 as int,
                    n,
                    e,
                );
            }
        }
        return Some((impulse_a, impulse_b));
    }
    None
}

/// Exact cancellation: `(a * b) / b == a` in truncating division.
pub proof fn lemma_tdiv_exact(a: int, b: int)
    requires
        b > 0,
    ensures
        tdiv(a * b, b) == a,
{
    if a >= 0 {
        assert(a * b >= 0) by (nonlinear_arith)
            requires
                a >= 0,
                b > 0,
        ;
        vstd::arithmetic::div_mod::lemma_div_by_multiple(a, b);
    } else {
        assert(-(a * b) == (-a) * b) by (nonlinear_arith);
        assert((-a) * b >= 0) by (nonlinear_arith)
            requires
                a < 0,
                b > 0,
        ;
        vstd::arithmetic::div_mod::lemma_div_by_multiple(-a, b);
        assert(a * b < 0) by (nonlinear_arith)
            requires
                a < 0,
                b > 0,
        ;
    }
}

/// Momentum exchange: in a head-on, frictionless contact of two equal
/// unit masses with full restitution, the solver's single impulse pass
/// swaps the two bodies' normal velocities exactly. The contact lies at
/// the bodies' common height, so no angular terms arise.
pub proof fn lemma_head_on_velocity_exchange(
    loc: Vec2,
    tr1: Vec2,
    tr2: Vec2,
    lin1: Vec2,
    lin2: Vec2,
    n: Vec2,
)
    requires
        n == (Vec2 { x: UNIT, y: 0i64 }),
        loc.y == tr1.y,
        loc.y == tr2.y,
        lin1.x < lin2.x,
        iabs(lin1.x as int) <= 0x2000_0000,
        iabs(lin2.x as int) <= 0x2000_0000,
    ensures
        ({
            let fin = response_fold(
                seq![loc],
                1,
                tr1,
                tr2,
                lin1,
                0,
                lin2,
                0,
                UNIT as int,
                UNIT as int,
                n,
                UNIT as int,
            );
            &&& fin.6 == true
            &&& fin.0 == lin2.x - lin1.x
            &&& fin.1 == 0
            &&& fin.2 == 0
            &&& fin.3 == lin1.x - lin2.x
            &&& fin.4 == 0
            &&& fin.5 == 0
        }),
{
    let locs = seq![loc];
    let u = UNIT as int;
    let s0 = (0int, 0int, 0int, 0int, 0int, 0int, false);
    let ra = lever(loc, tr1);
    let rb = lever(loc, tr2);
    assert(ra.1 == 0 && rb.1 == 0);

    // No rotation anywhere: all the angular terms vanish.
    lemma_tdiv_exact(0, u);
    assert(0 * (TWO_PI as int) == 0) by (nonlinear_arith);
    assert(omega_rad(0) == tdiv(0 * (TWO_PI as int), u));
    assert(tdiv(0, u) == 0) by {
        assert(0 * u == 0) by (nonlinear_arith);
        lemma_tdiv_exact(0, u);
    }
    assert(omega_rad(0) == 0);
    assert(fpmul(0, ra.1) == 0 && fpmul(0, ra.0) == 0 && fpmul(0, rb.1) == 0 && fpmul(0, rb.0)
        == 0) by {
        assert(0 * ra.1 == 0 && 0 * ra.0 == 0 && 0 * rb.1 == 0 && 0 * rb.0 == 0)
            by (nonlinear_arith);
    }
    let vax = point_vel_x(lin1, 0, 0, 0, ra);
    let vbx = point_vel_x(lin2, 0, 0, 0, rb);
    assert(vax == lin1.x && vbx == lin2.x);
    assert(point_vel_y(lin1, 0, 0, 0, ra) == lin1.y);
    assert(point_vel_y(lin2, 0, 0, 0, rb) == lin2.y);

    // The normal is the unit x axis, so the relative velocity is the
    // difference of the x velocities, exactly.
    let d = lin1.x - lin2.x;
    assert((lin1.y - lin2.y) * n.y == 0) by (nonlinear_arith)
        requires
            n.y == 0,
    ;
    assert((vax - vbx) * n.x + (lin1.y - lin2.y) * n.y == d * u);
    lemma_tdiv_exact(d, u);
    let vr = tdiv(d * u, u);
    assert(vr == d && vr < 0);

    // Zero levers along the normal: no rotational weight.
    assert(cross_rn(ra, n) == 0 && cross_rn(rb, n) == 0) by {
        assert(ra.0 * n.y == 0 && rb.0 * n.y == 0) by (nonlinear_arith)
            requires
                n.y == 0,
        ;
        assert(ra.1 * n.x == 0 && rb.1 * n.x == 0) by (nonlinear_arith)
            requires
                ra.1 == 0,
                rb.1 == 0,
        ;
        assert(tdiv(0, u) == 0) by {
            assert(0 * u == 0) by (nonlinear_arith);
            lemma_tdiv_exact(0, u);
        }
    }
    assert(momentum_of(ra, n, u) == 0 && momentum_of(rb, n, u) == 0) by {
        assert(0 * u == 0) by (nonlinear_arith);
        lemma_tdiv_exact(0, u);
    }
    assert(wrot_of(ra, n, u) == 0 && wrot_of(rb, n, u) == 0) by {
        assert(0 * 0 == 0) by (nonlinear_arith);
        assert(fpmul(0, 0) == tdiv(0int * 0, u));
        assert(tdiv(0, u) == 0) by {
            assert(0 * u == 0) by (nonlinear_arith);
            lemma_tdiv_exact(0, u);
        }
    }
    let den = u + u + 0 + 0;

    // Full restitution and equal unit masses: the impulse equals the
    // full closing velocity, and each body's change is the other's speed.
    assert(fpmul(u + u, vr) == 2 * d) by {
        assert((u + u) * vr == (2 * d) * u) by (nonlinear_arith)
            requires
                vr == d,
        ;
        lemma_tdiv_exact(2 * d, u);
    }
    let num = -fpmul(u + u, vr);
    assert(num == -2 * d);
    let j = tdiv(num * u, den);
    assert(j == -d) by {
        assert(num * u == (-d) * (2 * u)) by (nonlinear_arith)
            requires
                num == -2 * d,
        ;
        lemma_tdiv_exact(-d, 2 * u);
    }
    assert(fpmul(j, u) == -d) by {
        lemma_tdiv_exact(-d, u);
        assert(j * u == (-d) * u) by (nonlinear_arith)
            requires
                j == -d,
        ;
    }
    assert(fpmul(-d, n.x as int) == -d) by {
        lemma_tdiv_exact(-d, u);
    }
    assert(fpmul(-d, n.y as int) == 0) by {
        assert((-d) * 0 == 0) by (nonlinear_arith);
        assert(0 * u == 0) by (nonlinear_arith);
        lemma_tdiv_exact(0, u);
    }
    assert(fpmul(j, 0) == 0) by {
        assert(j * 0 == 0) by (nonlinear_arith);
        assert(0 * u == 0) by (nonlinear_arith);
        lemma_tdiv_exact(0, u);
    }
    let stepped = response_step(loc, tr1, tr2, lin1, 0, lin2, 0, u, u, n, u, s0);
    assert(clampi(0 + (-d), IMPULSE_LIMIT as int) == -d);
    assert(clampi(0 - (-d), IMPULSE_LIMIT as int) == d);
    assert(clampi(0int + 0, ANGULAR_LIMIT as int) == 0);
    assert(stepped.0 == -d && stepped.1 == 0 && stepped.2 == 0 && stepped.3 == d && stepped.4 == 0
        && stepped.5 == 0 && stepped.6);
    assert(response_fold(locs, 1, tr1, tr2, lin1, 0, lin2, 0, u, u, n, u) == stepped) by {
        assert(response_fold(locs, 0, tr1, tr2, lin1, 0, lin2, 0, u, u, n, u) == s0);
        assert(locs[0] == loc);
    }
}

/// The clamped friction impulse along the contact tangent: the raw
/// impulse `-v_t / (inv_a + inv_b)` bounded by the friction fraction of
/// the reference collision impulse derived from penetration and damping.
pub open spec fn friction_j(
    lin1: Vec2,
    lin2: Vec2,
    n: Vec2,
    dist: int,
    damping: int,
    friction: int,
    den: int,
) -> int {
    let vt = tdiv((lin1.x - lin2.x) * (-n.y) + (lin1.y - lin2.y) * n.x, UNIT as int);
    let ci = tdiv(fpmul(dist, damping) * UNIT, den);
    clampi(tdiv(-vt * UNIT, den), fpmul(ci, friction))
}

/// Apply Coulomb-style friction to a contact's two bodies: an impulse
/// along the tangent (the normal turned a quarter turn), clamped to the
/// friction fraction of the penetration-derived collision impulse, is
/// split by inverse mass, each velocity staying within the speed limit.
/// A kinematic body, or a pair with no inverse mass at all, is left
/// untouched.
pub fn apply_friction(
    collision_info: &CollisionInfo,
    rb1: &mut RigidBody2d,
    rb2: &mut RigidBody2d,
    damping: i64,
    friction: i64,
)
    requires
        collision_info.wf(),
        old(rb1).valid(),
        old(rb2).valid(),
        0 < damping <= UNIT,
        0 < friction <= UNIT,
    ensures
        final(rb1).valid(),
        final(rb2).valid(),
        ({
            let den = crate::rigidbody::inv_mass_spec(*old(rb1)) + crate::rigidbody::inv_mass_spec(
                *old(rb2),
            );
            let j = friction_j(
                old(rb1).linear_speed,
                old(rb2).linear_speed,
                collision_info.normal,
                collision_info.distance as int,
                damping as int,
                friction as int,
                den,
            );
            let inv1 = crate::rigidbody::inv_mass_spec(*old(rb1));
            let inv2 = crate::rigidbody::inv_mass_spec(*old(rb2));
            let n = collision_info.normal;
            &&& (den == 0 ==> *final(rb1) == *old(rb1) && *final(rb2) == *old(rb2))
            &&& (old(rb1).is_kinematic ==> *final(rb1) == *old(rb1))
            &&& (old(rb2).is_kinematic ==> *final(rb2) == *old(rb2))
            &&& (den > 0 && !old(rb1).is_kinematic ==> *final(rb1) == RigidBody2d {
                linear_speed: Vec2 {
                    x: crate::rigidbody::clamp_speed(
                        old(rb1).linear_speed.x + fpmul(fpmul(j, inv1), -n.y as int),
                    ) as i64,
                    y: crate::rigidbody::clamp_speed(
                        old(rb1).linear_speed.y + fpmul(fpmul(j, inv1), n.x as int),
                    ) as i64,
                },
                ..*old(rb1)
            })
            &&& (den > 0 && !old(rb2).is_kinematic ==> *final(rb2) == RigidBody2d {
                linear_speed: Vec2 {
                    x: crate::rigidbody::clamp_speed(
                        old(rb2).linear_speed.x - fpmul(fpmul(j, inv2), -n.y as int),
                    ) as i64,
                    y: crate::rigidbody::clamp_speed(
                        old(rb2).linear_speed.y - fpmul(fpmul(j, inv2), n.x as int),
                    ) as i64,
                },
                ..*old(rb2)
            })
        }),
{
    let n = collision_info.normal;
    let inv1 = rb1.get_inv_mass();
    let inv2 = rb2.get_inv_mass();
    let den: i128 = inv1 as i128 + inv2 as i128;
    if den == 0 {
        return ;
    }
    let tx: i128 = -(n.y as i128);
    let ty: i128 = n.x as i128;
    proof {
        crate::vec2::lemma_mul_bound(
            (rb1.linear_speed.x - rb2.linear_speed.x) as int,
            tx as int,
            0x8000_0000,
            0x1_0000,
        );
        crate::vec2::lemma_mul_bound(
            (rb1.linear_speed.y - rb2.linear_speed.y) as int,
            ty as int,
            0x8000_0000,
            0x1_0000,
        );
    }
    let vt = crate::fxp::div_trunc(
        (rb1.linear_speed.x as i128 - rb2.linear_speed.x as i128) * tx + (rb1.linear_speed.y
            as i128 - rb2.linear_speed.y as i128) * ty,
        UNIT as i128,
    );
    proof {
        crate::vec2::lemma_tdiv_scaled_bound(
            ((rb1.linear_speed.x - rb2.linear_speed.x) as int) * (tx as int) + ((rb1.linear_speed.y
                - rb2.linear_speed.y) as int) * (ty as int),
            UNIT as int,
        );
    }
    let ci_n = fpmul_exec(collision_info.distance as i128, damping as i128);
    proof {
        lemma_fpmul_bound(
            collision_info.distance as int,
            damping as int,
            0x100_0000_0000,
            0x1_0000,
        );
    }
    let ci = crate::fxp::div_trunc(ci_n * (UNIT as i128), den);
    let j0 = crate::fxp::div_trunc(-vt * (UNIT as i128), den);
    let bound = fpmul_exec(ci, friction as i128);
    proof {
        assert(-(vt as int) * (UNIT as int) == -((vt as int) * (UNIT as int))) by (nonlinear_arith);
    }
    let j: i128 = if j0 > bound {
        bound
    } else if j0 < -bound {
        -bound
    } else {
        j0
    };
    proof {
        assert(ci >= 0 && bound >= 0) by {
            assert(fpmul(collision_info.distance as int, damping as int) >= 0) by (nonlinear_arith)
                requires
                    collision_info.distance as int >= 0,
                    damping as int > 0,
                    fpmul(collision_info.distance as int, damping as int) == tdiv(
                        (collision_info.distance as int) * (damping as int),
                        UNIT as int,
                    ),
            ;
            assert(ci as int >= 0) by (nonlinear_arith)
                requires
                    ci == tdiv((ci_n as int) * (UNIT as int), den as int),
                    ci_n >= 0,
                    den > 0,
            ;
            assert(fpmul(ci as int, friction as int) >= 0) by (nonlinear_arith)
                requires
                    ci >= 0,
                    friction as int > 0,
            ;
        }
        assert(j == clampi(
            tdiv(-(vt as int) * (UNIT as int), den as int),
            fpmul(ci as int, friction as int),
        ));
    }
    let ja = fpmul_exec(j, inv1 as i128);
    let jb = fpmul_exec(j, inv2 as i128);
    let dax = fpmul_by_unit(ja, tx);
    let day = fpmul_by_unit(ja, ty);
    let dbx = fpmul_by_unit(jb, tx);
    let dby = fpmul_by_unit(jb, ty);
    if !rb1.is_kinematic {
        let vx = clamp_speed_wide(rb1.linear_speed.x as i128 + dax);
        let vy = clamp_speed_wide(rb1.linear_speed.y as i128 + day);
        rb1.linear_speed = Vec2 { x: vx, y: vy };
    }
    if !rb2.is_kinematic {
        let vx = clamp_speed_wide(rb2.linear_speed.x as i128 - dbx);
        let vy = clamp_speed_wide(rb2.linear_speed.y as i128 - dby);
        rb2.linear_speed = Vec2 { x: vx, y: vy };
    }
}

/// A wide value clamped into the speed limit and narrowed.
fn clamp_speed_wide(v: i128) -> (r: i64)
    ensures
        r == crate::rigidbody::clamp_speed(v as int),
        iabs(r as int) <= SPEED_LIMIT as int,
{
    if v > SPEED_LIMIT as i128 {
        SPEED_LIMIT
    } else if v < -(SPEED_LIMIT as i128) {
        -SPEED_LIMIT
    } else {
        v as i64
    }
}

/// A wide value clamped into the coordinate bound and narrowed.
fn clamp_coord_wide(v: i128) -> (r: i64)
    ensures
        r == crate::rigidbody::clamp_coord(v as int),
        iabs(r as int) <= crate::fxp::MAX_COORD as int,
{
    if v > crate::fxp::MAX_COORD as i128 {
        crate::fxp::MAX_COORD
    } else if v < -(crate::fxp::MAX_COORD as i128) {
        -crate::fxp::MAX_COORD
    } else {
        v as i64
    }
}

/// The positional nudge a contact gives one body: the penetration depth,
/// damped, divided by the combined inverse mass, then weighted by the
/// body's own inverse mass along the normal.
pub open spec fn correction_term(dist: int, damping: int, den: int, inv: int, nc: int) -> int {
    fpmul(fpmul(tdiv(fpmul(dist, damping) * UNIT, den), inv), nc)
}

/// Nudge the two bodies of a contact apart along the contact normal —
/// body A along it, body B against it, the normal pointing from body B
/// toward body A — in proportion to penetration, damping and their
/// inverse masses. This is a direct position bias: velocities are
/// untouched, kinematic bodies do not move, and a pair with no inverse
/// mass is skipped.
pub fn apply_position_correction(
    collision_info: &CollisionInfo,
    t1: &mut Transform2d,
    rb1: &RigidBody2d,
    t2: &mut Transform2d,
    rb2: &RigidBody2d,
    damping: i64,
)
    requires
        collision_info.wf(),
        old(t1).valid(),
        old(t2).valid(),
        rb1.valid(),
        rb2.valid(),
        0 < damping <= UNIT,
    ensures
        final(t1).valid(),
        final(t2).valid(),
        final(t1).rotation == old(t1).rotation && final(t1).scale == old(t1).scale,
        final(t2).rotation == old(t2).rotation && final(t2).scale == old(t2).scale,
        ({
            let inv1 = crate::rigidbody::inv_mass_spec(*rb1);
            let inv2 = crate::rigidbody::inv_mass_spec(*rb2);
            let den = inv1 + inv2;
            let n = collision_info.normal;
            let dist = collision_info.distance as int;
            &&& (den == 0 ==> *final(t1) == *old(t1) && *final(t2) == *old(t2))
            &&& (rb1.is_kinematic ==> *final(t1) == *old(t1))
            &&& (rb2.is_kinematic ==> *final(t2) == *old(t2))
            &&& (den > 0 && !rb1.is_kinematic ==> final(t1).translation == Vec2 {
                x: crate::rigidbody::clamp_coord(
                    old(t1).translation.x + correction_term(
                        dist,
                        damping as int,
                        den,
                        inv1,
                        n.x as int,
                    ),
                ) as i64,
                y: crate::rigidbody::clamp_coord(
                    old(t1).translation.y + correction_term(
                        dist,
                        damping as int,
                        den,
                        inv1,
                        n.y as int,
                    ),
                ) as i64,
            })
            &&& (den > 0 && !rb2.is_kinematic ==> final(t2).translation == Vec2 {
                x: crate::rigidbody::clamp_coord(
                    old(t2).translation.x - correction_term(
                        dist,
                        damping as int,
                        den,
                        inv2,
                        n.x as int,
                    ),
                ) as i64,
                y: crate::rigidbody::clamp_coord(
                    old(t2).translation.y - correction_term(
                        dist,
                        damping as int,
                        den,
                        inv2,
                        n.y as int,
                    ),
                ) as i64,
            })
        }),
{
    let n = collision_info.normal;
    let inv1 = rb1.get_inv_mass();
    let inv2 = rb2.get_inv_mass();
    let den: i128 = inv1 as i128 + inv2 as i128;
    if den == 0 {
        return ;
    }
    let ci_n = fpmul_exec(collision_info.distance as i128, damping as i128);
    proof {
        lemma_fpmul_bound(
            collision_info.distance as int,
            damping as int,
            0x100_0000_0000,
            0x1_0000,
        );
    }
    let corr = crate::fxp::div_trunc(ci_n * (UNIT as i128), den);
    let ca = fpmul_exec(corr, inv1 as i128);
    let cb = fpmul_exec(corr, inv2 as i128);
    let dax = fpmul_by_unit(ca, n.x as i128);
    let day = fpmul_by_unit(ca, n.y as i128);
    let dbx = fpmul_by_unit(cb, n.x as i128);
    let dby = fpmul_by_unit(cb, n.y as i128);
    if !rb1.is_kinematic {
        let px = clamp_coord_wide(t1.translation.x as i128 + dax);
        let py = clamp_coord_wide(t1.translation.y as i128 + day);
        t1.translation = Vec2 { x: px, y: py };
    }
    if !rb2.is_kinematic {
        let px = clamp_coord_wide(t2.translation.x as i128 - dbx);
        let py = clamp_coord_wide(t2.translation.y as i128 - dby);
        t2.translation = Vec2 { x: px, y: py };
    }
}


/// Every accumulator of the impulse fold stays within its clamp limit.
pub proof fn lemma_fold_range(
    locs: Seq<Vec2>,
    k: int,
    tr1: Vec2,
    tr2: Vec2,
    lin1: Vec2,
    ang1: int,
    lin2: Vec2,
    ang2: int,
    inv1: int,
    inv2: int,
    n: Vec2,
    e: int,
)
    ensures
        ({
            let s = response_fold(locs, k, tr1, tr2, lin1, ang1, lin2, ang2, inv1, inv2, n, e);
            &&& iabs(s.0) <= IMPULSE_LIMIT as int
            &&& iabs(s.1) <= IMPULSE_LIMIT as int
            &&& iabs(s.2) <= ANGULAR_LIMIT as int
            &&& iabs(s.3) <= IMPULSE_LIMIT as int
            &&& iabs(s.4) <= IMPULSE_LIMIT as int
            &&& iabs(s.5) <= ANGULAR_LIMIT as int
        }),
    decreases k,
{
    if k > 0 {
        lemma_fold_range(locs, k - 1, tr1, tr2, lin1, ang1, lin2, ang2, inv1, inv2, n, e);
    }
}


/// One contact's sequential-impulse application to the body table: the
/// impulse pair of `response_fold` on the two bodies' current state,
/// added to their velocities under the speed limits; kinematic bodies
/// are left alone, and so is everything when no location asked for an
/// impulse.
pub open spec fn apply_contact_impulses(
    bodies: Seq<RigidBody2d>,
    transforms: Seq<Transform2d>,
    info: CollisionInfo,
    e: int,
) -> Seq<RigidBody2d> {
    let p = info.collision_pair->0;
    let a = p.entity_a as int;
    let b = p.entity_b as int;
    let rba = bodies[a];
    let rbb = bodies[b];
    let fin = response_fold(
        info.location@,
        info.location@.len() as int,
        transforms[a].translation,
        transforms[b].translation,
        rba.linear_speed,
        rba.angular_speed as int,
        rbb.linear_speed,
        rbb.angular_speed as int,
        crate::rigidbody::inv_mass_spec(rba),
        crate::rigidbody::inv_mass_spec(rbb),
        info.normal,
        e,
    );
    if fin.6 {
        let bodies1 = if !rba.is_kinematic {
            bodies.update(
                a,
                RigidBody2d {
                    linear_speed: Vec2 {
                        x: crate::rigidbody::clamp_speed(rba.linear_speed.x + fin.0) as i64,
                        y: crate::rigidbody::clamp_speed(rba.linear_speed.y + fin.1) as i64,
                    },
                    angular_speed: clampi(rba.angular_speed + fin.2, ANGULAR_LIMIT as int) as i64,
                    ..rba
                },
            )
        } else {
            bodies
        };
        if !rbb.is_kinematic {
            bodies1.update(
                b,
                RigidBody2d {
                    linear_speed: Vec2 {
                        x: crate::rigidbody::clamp_speed(rbb.linear_speed.x + fin.3) as i64,
                        y: crate::rigidbody::clamp_speed(rbb.linear_speed.y + fin.4) as i64,
                    },
                    angular_speed: clampi(rbb.angular_speed + fin.5, ANGULAR_LIMIT as int) as i64,
                    ..rbb
                },
            )
        } else {
            bodies1
        }
    } else {
        bodies
    }
}

/// The body table after one impulse pass over the first `k` contacts.
pub open spec fn impulse_contacts(
    bodies: Seq<RigidBody2d>,
    transforms: Seq<Transform2d>,
    infos: Seq<CollisionInfo>,
    k: int,
    e: int,
) -> Seq<RigidBody2d>
    decreases k,
{
    if k <= 0 {
        bodies
    } else {
        apply_contact_impulses(
            impulse_contacts(bodies, transforms, infos, k - 1, e),
            transforms,
            infos[k - 1],
            e,
        )
    }
}

/// The body table after the given number of whole impulse passes.
pub open spec fn impulse_passes(
    bodies: Seq<RigidBody2d>,
    transforms: Seq<Transform2d>,
    infos: Seq<CollisionInfo>,
    passes: int,
    e: int,
) -> Seq<RigidBody2d>
    decreases passes,
{
    if passes <= 0 {
        bodies
    } else {
        impulse_contacts(
            impulse_passes(bodies, transforms, infos, passes - 1, e),
            transforms,
            infos,
            infos.len() as int,
            e,
        )
    }
}

/// One contact's friction impulse followed by its positional correction,
/// on the body and placement tables.
pub open spec fn apply_contact_fc(
    bodies: Seq<RigidBody2d>,
    transforms: Seq<Transform2d>,
    info: CollisionInfo,
    damping: int,
    friction: int,
) -> (Seq<RigidBody2d>, Seq<Transform2d>) {
    let p = info.collision_pair->0;
    let a = p.entity_a as int;
    let b = p.entity_b as int;
    let n = info.normal;
    let rba = bodies[a];
    let rbb = bodies[b];
    let inv1 = crate::rigidbody::inv_mass_spec(rba);
    let inv2 = crate::rigidbody::inv_mass_spec(rbb);
    let den = inv1 + inv2;
    let j = friction_j(
        rba.linear_speed,
        rbb.linear_speed,
        n,
        info.distance as int,
        damping,
        friction,
        den,
    );
    let rbaf = if den == 0 || rba.is_kinematic {
        rba
    } else {
        RigidBody2d {
            linear_speed: Vec2 {
                x: crate::rigidbody::clamp_speed(
                    rba.linear_speed.x + fpmul(fpmul(j, inv1), -n.y as int),
                ) as i64,
                y: crate::rigidbody::clamp_speed(
                    rba.linear_speed.y + fpmul(fpmul(j, inv1), n.x as int),
                ) as i64,
            },
            ..rba
        }
    };
    let rbbf = if den == 0 || rbb.is_kinematic {
        rbb
    } else {
        RigidBody2d {
            linear_speed: Vec2 {
                x: crate::rigidbody::clamp_speed(
                    rbb.linear_speed.x - fpmul(fpmul(j, inv2), -n.y as int),
                ) as i64,
                y: crate::rigidbody::clamp_speed(
                    rbb.linear_speed.y - fpmul(fpmul(j, inv2), n.x as int),
                ) as i64,
            },
            ..rbb
        }
    };
    let bodies1 = bodies.update(a, rbaf).update(b, rbbf);
    let rba2 = bodies1[a];
    let rbb2 = bodies1[b];
    let inv1c = crate::rigidbody::inv_mass_spec(rba2);
    let inv2c = crate::rigidbody::inv_mass_spec(rbb2);
    let denc = inv1c + inv2c;
    let ta = transforms[a];
    let tb = transforms[b];
    let dist = info.distance as int;
    let t1f = if denc == 0 || rba2.is_kinematic {
        ta
    } else {
        Transform2d {
            translation: Vec2 {
                x: crate::rigidbody::clamp_coord(
                    ta.translation.x + correction_term(dist, damping, denc, inv1c, n.x as int),
                ) as i64,
                y: crate::rigidbody::clamp_coord(
                    ta.translation.y + correction_term(dist, damping, denc, inv1c, n.y as int),
                ) as i64,
            },
            ..ta
        }
    };
    let t2f = if denc == 0 || rbb2.is_kinematic {
        tb
    } else {
        Transform2d {
            translation: Vec2 {
                x: crate::rigidbody::clamp_coord(
                    tb.translation.x - correction_term(dist, damping, denc, inv2c, n.x as int),
                ) as i64,
                y: crate::rigidbody::clamp_coord(
                    tb.translation.y - correction_term(dist, damping, denc, inv2c, n.y as int),
                ) as i64,
            },
            ..tb
        }
    };
    (bodies1, transforms.update(a, t1f).update(b, t2f))
}

/// The tables after friction and correction over the first `k` contacts.
pub open spec fn fc_contacts(
    bodies: Seq<RigidBody2d>,
    transforms: Seq<Transform2d>,
    infos: Seq<CollisionInfo>,
    k: int,
    damping: int,
    friction: int,
) -> (Seq<RigidBody2d>, Seq<Transform2d>)
    decreases k,
{
    if k <= 0 {
        (bodies, transforms)
    } else {
        let prev = fc_contacts(bodies, transforms, infos, k - 1, damping, friction);
        apply_contact_fc(prev.0, prev.1, infos[k - 1], damping, friction)
    }
}

/// The whole response stage: sixteen sequential-impulse passes over all
/// contacts, then one friction-and-correction pass per contact.
pub open spec fn response_stage(
    bodies: Seq<RigidBody2d>,
    transforms: Seq<Transform2d>,
    infos: Seq<CollisionInfo>,
    e: int,
    damping: int,
    friction: int,
) -> (Seq<RigidBody2d>, Seq<Transform2d>) {
    let b16 = impulse_passes(bodies, transforms, infos, 16, e);
    fc_contacts(b16, transforms, infos, infos.len() as int, damping, friction)
}

/// In the fixed-point solver, `fpmul` by a zero factor is zero.
proof fn lemma_fpmul_zero(x: int)
    ensures
        fpmul(0, x) == 0,
        fpmul(x, 0) == 0,
{
    assert(0int * x == 0 && x * 0int == 0) by (nonlinear_arith);
    assert(0int * (UNIT as int) == 0) by (nonlinear_arith);
    lemma_tdiv_exact(0, UNIT as int);
}

/// A head-on contact between two exchanged bodies asks for nothing more:
/// once the velocities have swapped, the pair separates and the impulse
/// step leaves the accumulator untouched.
proof fn lemma_exchanged_step_noop(
    loc: Vec2,
    tr1: Vec2,
    tr2: Vec2,
    lin1: Vec2,
    lin2: Vec2,
    n: Vec2,
    e: int,
    inv1: int,
    inv2: int,
)
    requires
        n == (Vec2 { x: UNIT, y: 0i64 }),
        loc.y == tr1.y,
        loc.y == tr2.y,
        lin1.x > lin2.x,
    ensures
        response_fold(seq![loc], 1, tr1, tr2, lin1, 0, lin2, 0, inv1, inv2, n, e) == (
        0int,
        0int,
        0int,
        0int,
        0int,
        0int,
        false,
    ),
{
    let u = UNIT as int;
    let locs = seq![loc];
    let s0 = (0int, 0int, 0int, 0int, 0int, 0int, false);
    let ra = lever(loc, tr1);
    let rb = lever(loc, tr2);
    assert(ra.1 == 0 && rb.1 == 0);
    assert(0int * (TWO_PI as int) == 0) by (nonlinear_arith);
    lemma_tdiv_exact(0, u);
    assert(omega_rad(0) == 0) by {
        assert(0int * u == 0) by (nonlinear_arith);
        lemma_tdiv_exact(0, u);
    }
    lemma_fpmul_zero(ra.1);
    lemma_fpmul_zero(ra.0);
    lemma_fpmul_zero(rb.1);
    lemma_fpmul_zero(rb.0);
    assert(point_vel_x(lin1, 0, 0, 0, ra) == lin1.x);
    assert(point_vel_x(lin2, 0, 0, 0, rb) == lin2.x);
    let d = lin1.x - lin2.x;
    assert((lin1.y - lin2.y) * n.y == 0) by (nonlinear_arith)
        requires
            n.y == 0,
    ;
    assert((lin1.x - lin2.x) * n.x + (point_vel_y(lin1, 0, 0, 0, ra) - point_vel_y(
        lin2,
        0,
        0,
        0,
        rb,
    )) * n.y == d * u) by (nonlinear_arith)
        requires
            n.x == u,
            n.y == 0,
            point_vel_x(lin1, 0, 0, 0, ra) == lin1.x,
            point_vel_x(lin2, 0, 0, 0, rb) == lin2.x,
            d == lin1.x - lin2.x,
    ;
    lemma_tdiv_exact(d, u);
    assert(response_fold(locs, 0, tr1, tr2, lin1, 0, lin2, 0, inv1, inv2, n, e) == s0);
    assert(locs[0] == loc);
    let stepped = response_step(loc, tr1, tr2, lin1, 0, lin2, 0, inv1, inv2, n, e, s0);
    assert(stepped == s0);
}

/// Momentum exchange at the stage level: over the whole response stage —
/// sixteen impulse passes, friction and positional correction — a single
/// head-on, frictionless-in-effect contact between equal unit masses at
/// full restitution swaps the two bodies' velocities exactly, and the
/// bodies pick up no spin.
pub proof fn lemma_head_on_stage_exchange(
    body_a: RigidBody2d,
    body_b: RigidBody2d,
    t_a: Transform2d,
    t_b: Transform2d,
    info: CollisionInfo,
    damping: int,
    friction: int,
)
    requires
        info.collision_pair == Some(
            crate::broad_phase::CollisionPair { entity_a: 0usize, entity_b: 1usize },
        ),
        info.location@.len() == 1,
        info.location@[0].y == t_a.translation.y,
        info.location@[0].y == t_b.translation.y,
        info.normal == (Vec2 { x: UNIT, y: 0i64 }),
        info.distance >= 0,
        !body_a.is_kinematic,
        !body_b.is_kinematic,
        body_a.mass == UNIT,
        body_b.mass == UNIT,
        body_a.angular_speed == 0,
        body_b.angular_speed == 0,
        body_a.linear_speed.y == body_b.linear_speed.y,
        body_a.linear_speed.x < body_b.linear_speed.x,
        iabs(body_a.linear_speed.x as int) <= 0x2000_0000,
        iabs(body_b.linear_speed.x as int) <= 0x2000_0000,
        iabs(body_a.linear_speed.y as int) <= SPEED_LIMIT as int,
        0 < damping <= UNIT,
        0 < friction <= UNIT,
    ensures
        ({
            let out = response_stage(
                seq![body_a, body_b],
                seq![t_a, t_b],
                seq![info],
                UNIT as int,
                damping,
                friction,
            ).0;
            &&& out.len() == 2
            &&& out[0].linear_speed == (Vec2 { x: body_b.linear_speed.x, y: body_a.linear_speed.y })
            &&& out[1].linear_speed == (Vec2 { x: body_a.linear_speed.x, y: body_b.linear_speed.y })
            &&& out[0].angular_speed == 0
            &&& out[1].angular_speed == 0
        }),
{
    let u = UNIT as int;
    let bodies0 = seq![body_a, body_b];
    let transforms0 = seq![t_a, t_b];
    let infos = seq![info];
    let loc = info.location@[0];
    let n = info.normal;
    let lin1 = body_a.linear_speed;
    let lin2 = body_b.linear_speed;

    // Unit mass reports unit inverse mass.
    vstd::arithmetic::div_mod::lemma_div_by_multiple(u, u);
    assert((u * u) / u == u);
    assert(crate::rigidbody::inv_mass_spec(body_a) == u);
    assert(crate::rigidbody::inv_mass_spec(body_b) == u);

    // The first impulse pass swaps the two normal velocities exactly.
    assert(info.location@ =~= seq![loc]);
    lemma_head_on_velocity_exchange(loc, t_a.translation, t_b.translation, lin1, lin2, n);
    let fin = response_fold(
        seq![loc],
        1,
        t_a.translation,
        t_b.translation,
        lin1,
        0,
        lin2,
        0,
        u,
        u,
        n,
        u,
    );
    let d = lin2.x - lin1.x;
    assert(fin.6 && fin.0 == d && fin.1 == 0 && fin.2 == 0 && fin.3 == -d && fin.4 == 0 && fin.5
        == 0);
    let body_a1 = RigidBody2d {
        linear_speed: Vec2 { x: lin2.x, y: lin1.y },
        ..body_a
    };
    let body_b1 = RigidBody2d {
        linear_speed: Vec2 { x: lin1.x, y: lin2.y },
        ..body_b
    };
    let bodies1 = seq![body_a1, body_b1];
    assert(apply_contact_impulses(bodies0, transforms0, info, u) =~= bodies1) by {
        assert(crate::rigidbody::clamp_speed(lin1.x + d) == lin2.x);
        assert(crate::rigidbody::clamp_speed(lin1.y + 0) == lin1.y);
        assert(crate::rigidbody::clamp_speed(lin2.x + -d) == lin1.x);
        assert(clampi(0int + 0, ANGULAR_LIMIT as int) == 0);
        assert(bodies0.update(0, body_a1).update(1, body_b1) =~= bodies1);
    }

    // Every later pass finds the pair separating and leaves it alone.
    lemma_exchanged_step_noop(loc, t_a.translation, t_b.translation, body_a1.linear_speed,
        body_b1.linear_speed, n, u, u, u);
    assert(infos[0] == info);
    assert(apply_contact_impulses(bodies1, transforms0, info, u) =~= bodies1);
    assert(apply_contact_impulses(bodies1, transforms0, infos[0], u) == bodies1);
    assert(impulse_contacts(bodies0, transforms0, infos, 0, u) == bodies0);
    assert(impulse_contacts(bodies0, transforms0, infos, 1, u) == apply_contact_impulses(
        bodies0,
        transforms0,
        infos[0],
        u,
    ));
    assert(impulse_contacts(bodies0, transforms0, infos, 1, u) == bodies1);
    lemma_passes_stay(bodies0, transforms0, infos, bodies1, 16, u);
    assert(impulse_passes(bodies0, transforms0, infos, 16, u) == bodies1);

    // Friction has no tangential speed to bite on, and the positional
    // correction moves only the placements.
    let fc = apply_contact_fc(bodies1, transforms0, info, damping, friction);
    assert(fc.0 =~= bodies1) by {
        let den = u + u;
        let vt = tdiv(
            (body_a1.linear_speed.x - body_b1.linear_speed.x) * (-n.y) + (body_a1.linear_speed.y
                - body_b1.linear_speed.y) * n.x,
            u,
        );
        assert((body_a1.linear_speed.x - body_b1.linear_speed.x) * (-n.y) == 0)
            by (nonlinear_arith)
            requires
                n.y == 0,
        ;
        assert((body_a1.linear_speed.y - body_b1.linear_speed.y) * n.x == 0) by (nonlinear_arith)
            requires
                body_a1.linear_speed.y == body_b1.linear_speed.y,
        ;
        assert(vt == 0) by {
            assert(0int * u == 0) by (nonlinear_arith);
            lemma_tdiv_exact(0, u);
        }
        assert(tdiv(-vt * u, den) == 0) by {
            assert(-vt * u == 0int * den) by (nonlinear_arith)
                requires
                    vt == 0,
            ;
            lemma_tdiv_exact(0, den);
        }
        let ci = tdiv(fpmul(info.distance as int, damping) * u, den);
        assert(fpmul(info.distance as int, damping) >= 0) by (nonlinear_arith)
            requires
                info.distance as int >= 0,
                damping > 0,
                fpmul(info.distance as int, damping) == tdiv(
                    (info.distance as int) * damping,
                    u,
                ),
        ;
        assert(fpmul(info.distance as int, damping) * u >= 0) by (nonlinear_arith)
            requires
                fpmul(info.distance as int, damping) >= 0,
                u > 0,
        ;
        vstd::arithmetic::div_mod::lemma_div_pos_is_pos(
            fpmul(info.distance as int, damping) * u,
            den,
        );
        assert(ci >= 0);
        assert(fpmul(ci, friction) >= 0) by (nonlinear_arith)
            requires
                ci >= 0,
                friction > 0,
        ;
        let jf = friction_j(body_a1.linear_speed, body_b1.linear_speed, n, info.distance as int,
            damping, friction, den);
        assert(jf == 0);
        lemma_fpmul_zero(u);
        assert(fpmul(fpmul(0, u), -n.y as int) == 0) by {
            lemma_fpmul_zero(-n.y as int);
        }
        assert(fpmul(fpmul(0, u), n.x as int) == 0) by {
            lemma_fpmul_zero(n.x as int);
        }
        assert(crate::rigidbody::clamp_speed(body_a1.linear_speed.x + 0) == body_a1.linear_speed.x);
        assert(crate::rigidbody::clamp_speed(body_a1.linear_speed.y + 0) == body_a1.linear_speed.y);
        assert(crate::rigidbody::clamp_speed(body_b1.linear_speed.x - 0) == body_b1.linear_speed.x);
        assert(crate::rigidbody::clamp_speed(body_b1.linear_speed.y - 0) == body_b1.linear_speed.y);
        assert(bodies1.update(0, bodies1[0]).update(1, bodies1[1]) =~= bodies1);
    }
    assert(fc_contacts(bodies1, transforms0, infos, 1, damping, friction).0 =~= bodies1) by {
        assert(fc_contacts(bodies1, transforms0, infos, 0, damping, friction) == (
        bodies1,
        transforms0,
        ));
        assert(infos[0] == info);
    }
    let out = response_stage(bodies0, transforms0, infos, u, damping, friction).0;
    assert(out =~= bodies1);
}

/// After the exchanging first pass, every further pass keeps the table.
proof fn lemma_passes_stay(
    bodies0: Seq<RigidBody2d>,
    transforms0: Seq<Transform2d>,
    infos: Seq<CollisionInfo>,
    bodies1: Seq<RigidBody2d>,
    k: int,
    e: int,
)
    requires
        infos.len() == 1,
        impulse_contacts(bodies0, transforms0, infos, 1, e) == bodies1,
        apply_contact_impulses(bodies1, transforms0, infos[0], e) == bodies1,
        1 <= k,
    ensures
        impulse_passes(bodies0, transforms0, infos, k, e) == bodies1,
    decreases k,
{
    if k == 1 {
        assert(impulse_passes(bodies0, transforms0, infos, 0, e) == bodies0);
    } else {
        lemma_passes_stay(bodies0, transforms0, infos, bodies1, k - 1, e);
        assert(impulse_contacts(bodies1, transforms0, infos, 1, e) == apply_contact_impulses(
            impulse_contacts(bodies1, transforms0, infos, 0, e),
            transforms0,
            infos[0],
            e,
        ));
    }
}

} // verus!
