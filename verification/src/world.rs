//! The entity store and the tick pipeline: dense parallel tables keyed by
//! an integer handle, and the staged pass that maintains boxes, tracks
//! activity, finds and resolves contacts, and integrates motion.

use vstd::prelude::*;
use crate::aabb::AABB;
use crate::broad_phase::{BroadEntry, CollisionPair};
use crate::config::{BroadPhaseType, CollisionConfig, NarrowPhaseType};
use crate::data_structs::{BroadPhaseData, CollisionInfo, NarrowPhaseData};
use crate::fxp::{MAX_COORD, WORLD_LIMIT};
use crate::polygon_component::PolygonComponent;
use crate::rigidbody::RigidBody2d;
use crate::transform2d::{placed_x, placed_y, world_x, world_y, Transform2d};
use crate::vec2::{bounded, Vec2};

verus! {

/// All entities, as parallel tables indexed by the entity handle.
pub struct World {
    pub polygons: Vec<PolygonComponent>,
    pub transforms: Vec<Transform2d>,
    pub aabbs: Vec<AABB>,
    pub bodies: Vec<RigidBody2d>,
    pub alive: Vec<bool>,
    pub awake: Vec<bool>,
    pub changed: Vec<bool>,
}

/// The box `b` encloses every scaled-and-rotated (not yet translated)
/// vertex of the placed shape.
pub open spec fn box_encloses(b: AABB, t: Transform2d, p: PolygonComponent) -> bool {
    forall|k: int|
        0 <= k < p.points@.len() ==> b.min.x <= placed_x(t, #[trigger] p.points@[k]) <= b.max.x
            && b.min.y <= placed_y(t, p.points@[k]) <= b.max.y
}

/// Box containment: a box that encloses the placed vertices, carried to
/// world space by the body's translation, encloses every fully
/// transformed vertex — exactly, with no epsilon, since all coordinates
/// are integers.
pub proof fn lemma_box_containment(b: AABB, t: Transform2d, p: PolygonComponent)
    requires
        box_encloses(b, t, p),
    ensures
        forall|k: int|
            0 <= k < p.points@.len() ==> b.min.x + t.translation.x <= world_x(
                t,
                #[trigger] p.points@[k],
            ) <= b.max.x + t.translation.x && b.min.y + t.translation.y <= world_y(t, p.points@[k])
                <= b.max.y + t.translation.y,
{
}

impl World {
    /// Equal-length tables, each row well-formed.
    pub open spec fn wf(self) -> bool {
        &&& self.transforms@.len() == self.polygons@.len()
        &&& self.aabbs@.len() == self.polygons@.len()
        &&& self.bodies@.len() == self.polygons@.len()
        &&& self.alive@.len() == self.polygons@.len()
        &&& self.awake@.len() == self.polygons@.len()
        &&& self.changed@.len() == self.polygons@.len()
        &&& forall|i: int| 0 <= i < self.polygons@.len() ==> (#[trigger] self.polygons@[i]).valid()
        &&& forall|i: int| 0 <= i < self.polygons@.len() ==> (#[trigger] self.transforms@[i]).valid()
        &&& forall|i: int| 0 <= i < self.polygons@.len() ==> (#[trigger] self.aabbs@[i]).wf()
        &&& forall|i: int| 0 <= i < self.polygons@.len() ==> (#[trigger] self.bodies@[i]).valid()
    }

    /// The sort key of the activity list: the lower x bound of the
    /// entity's box in world space.
    pub open spec fn entry_key(self, id: int) -> int {
        self.aabbs@[id].min.x + self.transforms@[id].translation.x
    }

    pub open spec fn spec_len(self) -> nat {
        self.polygons@.len()
    }

    pub fn new() -> (r: World)
        ensures
            r.wf(),
            r.spec_len() == 0,
    {
        World {
            polygons: Vec::new(),
            transforms: Vec::new(),
            aabbs: Vec::new(),
            bodies: Vec::new(),
            alive: Vec::new(),
            awake: Vec::new(),
            changed: Vec::new(),
        }
    }

    pub fn len(&self) -> (r: usize)
        requires
            self.wf(),
        ensures
            r == self.spec_len(),
    {
        self.polygons.len()
    }

    /// Create an entity from its shape points, placement and body; its
    /// box is computed at once, and it starts alive, awake and marked
    /// changed. Returns the new handle.
    pub fn spawn(&mut self, points: Vec<Vec2>, transform: Transform2d, body: RigidBody2d) -> (id:
        usize)
        requires
            old(self).wf(),
            points@.len() >= 1,
            forall|i: int| 0 <= i < points@.len() ==> bounded(#[trigger] points@[i], MAX_COORD as int),
            transform.valid(),
            body.valid(),
        ensures
            final(self).wf(),
            id == old(self).spec_len(),
            final(self).spec_len() == old(self).spec_len() + 1,
            final(self).polygons@[id as int].points@ == points@,
            final(self).transforms@[id as int] == transform,
            final(self).bodies@[id as int] == body,
            final(self).alive@[id as int] && final(self).awake@[id as int] && final(self).changed@[id as int],
            box_encloses(final(self).aabbs@[id as int], transform, final(self).polygons@[id as int]),
            forall|i: int|
                0 <= i < old(self).spec_len() ==> final(self).polygons@[i] == old(self).polygons@[i]
                    && final(self).transforms@[i] == old(self).transforms@[i] && final(self).aabbs@[i] == old(self).aabbs@[i] && final(self).bodies@[i] == old(self).bodies@[i] && final(self).alive@[i] == old(self).alive@[i] && final(self).awake@[i] == old(self).awake@[i] && final(self).changed@[i] == old(self).changed@[i],
    {
        let id = self.polygons.len();
        let polygon = PolygonComponent::new(points);
        let placed = polygon.get_placed_points(&transform);
        let bb = AABB::from(&placed);
        proof {
            assert forall|k: int| 0 <= k < polygon.points@.len() implies bb.min.x <= placed_x(
                transform,
                #[trigger] polygon.points@[k],
            ) <= bb.max.x && bb.min.y <= placed_y(transform, polygon.points@[k]) <= bb.max.y by {
                assert(placed@[k].x == placed_x(transform, polygon.points@[k]));
                assert(bb.min.x <= placed@[k].x <= bb.max.x);
                assert(bb.min.y <= placed@[k].y <= bb.max.y);
            }
            assert(box_encloses(bb, transform, polygon));
        }
        self.polygons.push(polygon);
        self.transforms.push(transform);
        self.aabbs.push(bb);
        self.bodies.push(body);
        self.alive.push(true);
        self.awake.push(true);
        self.changed.push(true);
        id
    }

    /// Remove an entity: its row stays but is never scanned again.
    pub fn despawn(&mut self, id: usize)
        requires
            old(self).wf(),
            id < old(self).spec_len(),
        ensures
            final(self).wf(),
            final(self).spec_len() == old(self).spec_len(),
            !final(self).alive@[id as int],
            final(self).polygons@ == old(self).polygons@,
            final(self).transforms@ == old(self).transforms@,
            final(self).aabbs@ == old(self).aabbs@,
            final(self).bodies@ == old(self).bodies@,
            final(self).awake@ == old(self).awake@,
            final(self).changed@ == old(self).changed@,
            forall|i: int|
                0 <= i < final(self).spec_len() && i != id ==> final(self).alive@[i] == old(self).alive@[i],
    {
        self.alive.set(id, false);
    }

    /// The bounding-box maintainer: recompute the box of every live
    /// entity whose placement changed since it was last computed, from
    /// the placed (scaled and rotated) shape vertices.
    pub fn update_bounding_boxes(&mut self)
        requires
            old(self).wf(),
        ensures
            final(self).wf(),
            final(self).spec_len() == old(self).spec_len(),
            final(self).polygons@ == old(self).polygons@,
            final(self).transforms@ == old(self).transforms@,
            final(self).bodies@ == old(self).bodies@,
            final(self).alive@ == old(self).alive@,
            final(self).awake@ == old(self).awake@,
            final(self).changed@ == old(self).changed@,
            forall|i: int|
                0 <= i < final(self).spec_len() && old(self).alive@[i] && old(self).changed@[i]
                    ==> box_encloses(
                    #[trigger] final(self).aabbs@[i],
                    final(self).transforms@[i],
                    final(self).polygons@[i],
                ),
            forall|i: int|
                0 <= i < final(self).spec_len() && !(old(self).alive@[i] && old(self).changed@[i])
                    ==> #[trigger] final(self).aabbs@[i] == old(self).aabbs@[i],
    {
        let n = self.polygons.len();
        for i in 0..n
            invariant
                self.wf(),
                n == self.spec_len(),
                self.spec_len() == old(self).spec_len(),
                self.polygons@ == old(self).polygons@,
                self.transforms@ == old(self).transforms@,
                self.bodies@ == old(self).bodies@,
                self.alive@ == old(self).alive@,
                self.awake@ == old(self).awake@,
                self.changed@ == old(self).changed@,
                forall|k: int|
                    0 <= k < i && old(self).alive@[k] && old(self).changed@[k] ==> box_encloses(
                        #[trigger] self.aabbs@[k],
                        self.transforms@[k],
                        self.polygons@[k],
                    ),
                forall|k: int|
                    0 <= k < self.spec_len() && !(0 <= k < i && old(self).alive@[k] && old(self).changed@[k]) ==> #[trigger] self.aabbs@[k] == old(self).aabbs@[k],
        {
            if self.alive[i] && self.changed[i] {
                let placed = self.polygons[i].get_placed_points(&self.transforms[i]);
                let bb = AABB::from(&placed);
                proof {
                    let t = self.transforms@[i as int];
                    let poly = self.polygons@[i as int];
                    assert forall|k: int| 0 <= k < poly.points@.len() implies bb.min.x <= placed_x(
                        t,
                        #[trigger] poly.points@[k],
                    ) <= bb.max.x && bb.min.y <= placed_y(t, poly.points@[k]) <= bb.max.y by {
                        assert(placed@[k].x == placed_x(t, poly.points@[k]));
                        assert(bb.min.x <= placed@[k].x <= bb.max.x);
                        assert(bb.min.y <= placed@[k].y <= bb.max.y);
                    }
                    assert(box_encloses(bb, t, poly));
                }
                self.aabbs.set(i, bb);
            }
        }
    }
}

/// What the sleep policy leaves of one entity's awake flag: a live
/// entity sleeps when it was listed but not reported in contact, and is
/// woken again by a change of its own placement.
pub open spec fn policy_awake(w: World, list: Seq<usize>, collided: Seq<usize>, q: int) -> bool {
    if w.alive@[q] {
        (w.awake@[q] && !(list.contains(q as usize) && !collided.contains(q as usize)))
            || w.changed@[q]
    } else {
        w.awake@[q]
    }
}

/// Strict ordering of the activity list: by world-space lower x bound of
/// the box, ties broken by the entity handle for determinism.
pub open spec fn lt_entry(w: World, a: int, b: int) -> bool {
    ||| w.entry_key(a) < w.entry_key(b)
    ||| (w.entry_key(a) == w.entry_key(b) && a < b)
}

/// Every adjacent pair of the list is strictly ordered, so the list also
/// carries no duplicate handle.
pub open spec fn strictly_sorted(w: World, s: Seq<usize>) -> bool {
    forall|i: int, j: int| 0 <= i < j < s.len() ==> lt_entry(w, #[trigger] s[i] as int, #[trigger] s[j] as int)
}

/// Every handle of the list names a live entity.
pub open spec fn ids_ok(w: World, s: Seq<usize>) -> bool {
    forall|i: int|
        0 <= i < s.len() ==> (#[trigger] s[i] as int) < w.spec_len() && w.alive@[s[i] as int]
}

/// Whether the list holds the handle.
fn contains_id(list: &Vec<usize>, id: usize) -> (r: bool)
    ensures
        r == list@.contains(id),
{
    let n = list.len();
    for k in 0..n
        invariant
            n == list@.len(),
            forall|i: int| 0 <= i < k ==> #[trigger] list@[i] != id,
    {
        if list[k] == id {
            return true;
        }
    }
    false
}

impl World {
    /// The strict activity-list order, decided from the live tables.
    fn less_entry(&self, a: usize, b: usize) -> (r: bool)
        requires
            self.wf(),
            a < self.spec_len(),
            b < self.spec_len(),
        ensures
            r == lt_entry(*self, a as int, b as int),
    {
        let ka = self.aabbs[a].min.x + self.transforms[a].translation.x;
        let kb = self.aabbs[b].min.x + self.transforms[b].translation.x;
        ka < kb || (ka == kb && a < b)
    }

    /// The activity tracker. Drop dead entities from the list; under the
    /// sleep policy, put every listed entity the narrow phase left out
    /// of contact to sleep and wake the entities whose placement
    /// changed; admit every live awake entity that is not yet listed;
    /// then rebuild the list in ascending order of world-space box lower
    /// x bound (ties by handle), without duplicates. The per-entity
    /// change marks are consumed and reset. A sleeping entity is woken
    /// only by its own placement change, never by an approaching
    /// neighbor, so resting contacts can be missed after sleep.
    pub fn refresh_entities(
        &mut self,
        broad_phase_data: &mut BroadPhaseData,
        narrow_phase_data: &NarrowPhaseData,
        config: &CollisionConfig,
    )
        requires
            old(self).wf(),
            forall|i: int|
                0 <= i < old(broad_phase_data).sorted_entities@.len() ==> (#[trigger] old(broad_phase_data).sorted_entities@[i] as int) < old(self).spec_len(),
        ensures
            final(self).wf(),
            final(self).spec_len() == old(self).spec_len(),
            final(self).polygons@ == old(self).polygons@,
            final(self).transforms@ == old(self).transforms@,
            final(self).aabbs@ == old(self).aabbs@,
            final(self).bodies@ == old(self).bodies@,
            final(self).alive@ == old(self).alive@,
            !config.put_non_colliding_asleep ==> final(self).awake@ == old(self).awake@,
            config.put_non_colliding_asleep ==> forall|id: int|
                0 <= id < final(self).spec_len() ==> final(self).awake@[id] == policy_awake(
                    *old(self),
                    old(broad_phase_data).sorted_entities@,
                    narrow_phase_data.collided_entities@,
                    id,
                ),
            forall|i: int| 0 <= i < final(self).spec_len() ==> !(#[trigger] final(self).changed@[i]),
            final(broad_phase_data).collision_pairs@ == old(broad_phase_data).collision_pairs@,
            strictly_sorted(*final(self), final(broad_phase_data).sorted_entities@),
            ids_ok(*final(self), final(broad_phase_data).sorted_entities@),
            forall|id: int|
                0 <= id < final(self).spec_len() && final(self).alive@[id] && final(self).awake@[id] ==> final(broad_phase_data).sorted_entities@.contains(id as usize),
    {
        let n = self.polygons.len();
        let ghost awake0 = self.awake@;
        if config.put_non_colliding_asleep {
            // Sleep the listed entities that are out of contact, then
            // wake the ones whose placement changed since last tick.
            let mut id: usize = 0;
            while id < n
                invariant
                    id <= n,
                    self.wf(),
                    n == self.spec_len(),
                    self.polygons@ == old(self).polygons@,
                    self.transforms@ == old(self).transforms@,
                    self.aabbs@ == old(self).aabbs@,
                    self.bodies@ == old(self).bodies@,
                    self.alive@ == old(self).alive@,
                    self.changed@ == old(self).changed@,
                    awake0 == old(self).awake@,
                    broad_phase_data.sorted_entities@ == old(broad_phase_data).sorted_entities@,
                    broad_phase_data.collision_pairs@ == old(broad_phase_data).collision_pairs@,
                    self.awake@.len() == n,
                    forall|q: int|
                        0 <= q < id ==> self.awake@[q] == policy_awake(
                            *old(self),
                            old(broad_phase_data).sorted_entities@,
                            narrow_phase_data.collided_entities@,
                            q,
                        ),
                    forall|q: int| id <= q < n ==> self.awake@[q] == awake0[q],
                decreases n - id,
            {
                let ghost aw_pre = self.awake@;
                let in_list = contains_id(&broad_phase_data.sorted_entities, id);
                let in_contact = contains_id(&narrow_phase_data.collided_entities, id);
                let mut a = self.awake[id];
                if self.alive[id] {
                    if a && in_list && !in_contact {
                        a = false;
                    }
                    if self.changed[id] {
                        a = true;
                    }
                    self.awake.set(id, a);
                    proof {
                        assert(self.awake@ == aw_pre.update(id as int, a));
                        assert(a == ((awake0[id as int] && !(old(
                            broad_phase_data,
                        ).sorted_entities@.contains(id) && !narrow_phase_data.collided_entities@.contains(
                            id,
                        ))) || old(self).changed@[id as int]));
                    }
                }
                proof {
                    assert forall|q: int| 0 <= q < id + 1 implies self.awake@[q] == policy_awake(
                        *old(self),
                        old(broad_phase_data).sorted_entities@,
                        narrow_phase_data.collided_entities@,
                        q,
                    ) by {
                        if q < id {
                            assert(self.awake@[q] == aw_pre[q]);
                        } else {
                            assert(self.awake@[q] == (if old(self).alive@[q] {
                                a
                            } else {
                                aw_pre[q]
                            }));
                        }
                    }
                    assert forall|q: int| id + 1 <= q < n implies self.awake@[q] == awake0[q] by {
                        assert(self.awake@[q] == aw_pre[q]);
                    }
                }
                id += 1;
            }
        }
        // Keep only the live entities of the previous list; under the
        // sleep policy the list is instead rebuilt from the awake set.
        let mut kept: Vec<usize> = Vec::new();
        if !config.put_non_colliding_asleep {
            let m = broad_phase_data.sorted_entities.len();
            for t in 0..m
                invariant
                    m == broad_phase_data.sorted_entities@.len(),
                    self.wf(),
                    n == self.spec_len(),
                    forall|i: int|
                        0 <= i < m ==> (#[trigger] broad_phase_data.sorted_entities@[i] as int)
                            < self.spec_len(),
                    forall|i: int|
                        0 <= i < kept@.len() ==> (#[trigger] kept@[i] as int) < self.spec_len()
                            && self.alive@[kept@[i] as int],
            {
                let id = broad_phase_data.sorted_entities[t];
                if self.alive[id] {
                    kept.push(id);
                }
            }
        }
        // Admit every live awake entity not yet listed.
        for id in 0..n
            invariant
                self.wf(),
                n == self.spec_len(),
                forall|i: int|
                    0 <= i < kept@.len() ==> (#[trigger] kept@[i] as int) < self.spec_len()
                        && self.alive@[kept@[i] as int],
                config.put_non_colliding_asleep ==> forall|i: int|
                    0 <= i < kept@.len() ==> self.awake@[#[trigger] kept@[i] as int],
                forall|j: int|
                    0 <= j < id && self.alive@[j] && self.awake@[j] ==> kept@.contains(j as usize),
        {
            if self.alive[id] && self.awake[id] && !contains_id(&kept, id) {
                let ghost kept_before = kept@;
                kept.push(id);
                proof {
                    assert(kept@ == kept_before.push(id));
                    assert(kept@[kept_before.len() as int] == id);
                    assert forall|x: usize| kept_before.contains(x) implies kept@.contains(x) by {
                        let w = choose|w: int| 0 <= w < kept_before.len() && kept_before[w] == x;
                        assert(kept@[w] == x);
                    }
                }
            }
        }
        // Rebuild in strict order, dropping duplicate handles.
        let mut out: Vec<usize> = Vec::new();
        let kn = kept.len();
        for t in 0..kn
            invariant
                kn == kept@.len(),
                self.wf(),
                n == self.spec_len(),
                forall|i: int|
                    0 <= i < kept@.len() ==> (#[trigger] kept@[i] as int) < self.spec_len()
                        && self.alive@[kept@[i] as int],
                strictly_sorted(*self, out@),
                ids_ok(*self, out@),
                forall|j: int| 0 <= j < t ==> out@.contains(#[trigger] kept@[j]),
        {
            let id = kept[t];
            let mut pos: usize = 0;
            let mut dup = false;
            loop
                invariant_except_break
                    !dup,
                invariant
                    self.wf(),
                    n == self.spec_len(),
                    (id as int) < self.spec_len(),
                    strictly_sorted(*self, out@),
                    ids_ok(*self, out@),
                    pos <= out@.len(),
                    forall|k: int| 0 <= k < pos ==> lt_entry(*self, #[trigger] out@[k] as int, id as int),
                ensures
                    pos <= out@.len(),
                    forall|k: int| 0 <= k < pos ==> lt_entry(*self, #[trigger] out@[k] as int, id as int),
                    dup ==> out@.contains(id),
                    !dup && pos < out@.len() ==> !lt_entry(*self, out@[pos as int] as int, id as int)
                        && out@[pos as int] != id,
                decreases out@.len() - pos,
            {
                if pos >= out.len() {
                    break ;
                }
                if out[pos] == id {
                    dup = true;
                    proof {
                        assert(out@[pos as int] == id);
                    }
                    break ;
                }
                if self.less_entry(out[pos], id) {
                    pos += 1;
                } else {
                    break ;
                }
            }
            if !dup {
                let ghost out_before = out@;
                out.insert(pos, id);
                proof {
                    out_before.insert_ensures(pos as int, id);
                    assert(out@ == out_before.insert(pos as int, id));
                    assert forall|i: int, j: int| 0 <= i < j < out@.len() implies lt_entry(
                        *self,
                        #[trigger] out@[i] as int,
                        #[trigger] out@[j] as int,
                    ) by {
                        if j < pos {
                        } else if i < pos && j == pos {
                            assert(out@[i] == out_before[i] && out@[j] == id);
                        } else if i < pos && j > pos {
                            assert(out@[i] == out_before[i] && out@[j] == out_before[j - 1]);
                        } else if i == pos {
                            assert(out@[i] == id && out@[j] == out_before[j - 1]);
                            assert(!lt_entry(*self, out_before[pos as int] as int, id as int)
                                && out_before[pos as int] != id);
                            assert(lt_entry(*self, id as int, out_before[pos as int] as int));
                            if j - 1 > pos {
                                assert(lt_entry(
                                    *self,
                                    out_before[pos as int] as int,
                                    out_before[j - 1] as int,
                                ));
                            }
                        } else {
                            assert(out@[i] == out_before[i - 1] && out@[j] == out_before[j - 1]);
                        }
                    }
                    assert(ids_ok(*self, out@)) by {
                        assert forall|i: int| 0 <= i < out@.len() implies (#[trigger] out@[i] as int)
                            < self.spec_len() && self.alive@[out@[i] as int] by {
                            if i < pos {
                                assert(out@[i] == out_before[i]);
                            } else if i > pos {
                                assert(out@[i] == out_before[i - 1]);
                            } else {
                                assert(out@[i] == id);
                                assert(kept@[t as int] == id);
                            }
                        }
                    }
                    assert(out@[pos as int] == id);
                    assert forall|j: int| 0 <= j < t + 1 implies out@.contains(
                        #[trigger] kept@[j],
                    ) by {
                        if j < t {
                            assert(out_before.contains(kept@[j]));
                            let w = choose|w: int|
                                0 <= w < out_before.len() && #[trigger] out_before[w] == kept@[j];
                            if w < pos {
                                assert(out@[w] == kept@[j]);
                            } else {
                                assert(out@[w + 1] == kept@[j]);
                            }
                        } else {
                            assert(out@[pos as int] == kept@[j]);
                        }
                    }
                }
            } else {
                proof {
                    assert forall|j: int| 0 <= j < t + 1 implies out@.contains(
                        #[trigger] kept@[j],
                    ) by {
                        if j == t {
                            assert(out@.contains(id));
                        }
                    }
                }
            }
        }
        broad_phase_data.sorted_entities = out;
        let ghost final_list = broad_phase_data.sorted_entities@;
        let ghost awake_final = self.awake@;
        proof {
            assert forall|id2: int|
                0 <= id2 < self.spec_len() && self.alive@[id2] && self.awake@[id2] implies
                final_list.contains(id2 as usize) by {
                assert(kept@.contains(id2 as usize));
                let w = choose|w: int| 0 <= w < kept@.len() && #[trigger] kept@[w] == (id2 as usize);
                assert(final_list.contains(kept@[w]));
            }
        }
        // Consume the change marks.
        let mut i: usize = 0;
        while i < n
            invariant
                i <= n,
                n == self.spec_len(),
                self.wf(),
                self.polygons@ == old(self).polygons@,
                self.transforms@ == old(self).transforms@,
                self.aabbs@ == old(self).aabbs@,
                self.bodies@ == old(self).bodies@,
                self.alive@ == old(self).alive@,
                self.awake@ == awake_final,
                self.changed@.len() == n,
                forall|k: int| 0 <= k < i ==> !(#[trigger] self.changed@[k]),
                broad_phase_data.sorted_entities@ == final_list,
                broad_phase_data.collision_pairs@ == old(broad_phase_data).collision_pairs@,
                strictly_sorted(*self, final_list),
                ids_ok(*self, final_list),
                forall|id: int|
                    0 <= id < self.spec_len() && self.alive@[id] && self.awake@[id]
                        ==> final_list.contains(id as usize),
            decreases n - i,
        {
            self.changed.set(i, false);
            i += 1;
        }
    }
}

/// The broad-phase view of the active list: each listed entity's handle,
/// box and placement, in list order.
pub open spec fn entries_of(w: World, s: Seq<usize>) -> Seq<BroadEntry> {
    Seq::new(
        s.len(),
        |i: int|
            BroadEntry {
                entity: s[i],
                aabb: w.aabbs@[s[i] as int],
                transform: w.transforms@[s[i] as int],
            },
    )
}

/// Every pair of the sequence relates two distinct live entities.
pub open spec fn pairs_ok(w: World, ps: Seq<CollisionPair>) -> bool {
    forall|k: int|
        0 <= k < ps.len() ==> crate::broad_phase::pair_ok(w.spec_len(), w.alive@, #[trigger] ps[k])
}

/// The separating-axis test's result on one candidate pair's placed
/// shapes.
pub open spec fn pair_sat_collides(w: World, p: CollisionPair) -> bool {
    crate::sat::sat_collides(
        crate::transform2d::world_seq(
            w.transforms@[p.entity_a as int],
            w.polygons@[p.entity_a as int].points@,
        ),
        crate::transform2d::world_seq(
            w.transforms@[p.entity_b as int],
            w.polygons@[p.entity_b as int].points@,
        ),
    )
}

/// The candidate pairs among the first `k` that the separating-axis
/// test confirms, in order.
pub open spec fn sat_filter(w: World, ps: Seq<CollisionPair>, k: int) -> Seq<CollisionPair>
    decreases k,
{
    if k <= 0 {
        Seq::empty()
    } else {
        let rest = sat_filter(w, ps, k - 1);
        if pair_sat_collides(w, ps[k - 1]) {
            rest.push(ps[k - 1])
        } else {
            rest
        }
    }
}

/// The GJK test's result on one candidate pair's placed shapes.
pub open spec fn pair_gjk_collides(w: World, p: CollisionPair) -> bool {
    crate::gjk::gjk_spec(
        crate::transform2d::world_seq(
            w.transforms@[p.entity_a as int],
            w.polygons@[p.entity_a as int].points@,
        ),
        crate::transform2d::world_seq(
            w.transforms@[p.entity_b as int],
            w.polygons@[p.entity_b as int].points@,
        ),
    ).0
}

/// The candidate pairs among the first `k` that GJK confirms, in order.
pub open spec fn gjk_filter(w: World, ps: Seq<CollisionPair>, k: int) -> Seq<CollisionPair>
    decreases k,
{
    if k <= 0 {
        Seq::empty()
    } else {
        let rest = gjk_filter(w, ps, k - 1);
        if pair_gjk_collides(w, ps[k - 1]) {
            rest.push(ps[k - 1])
        } else {
            rest
        }
    }
}

/// The entities of the first `k` contacts, first occurrence kept, in
/// the order the contacts name them.
pub open spec fn collected_entities(infos: Seq<CollisionInfo>, k: int) -> Seq<usize>
    decreases k,
{
    if k <= 0 {
        Seq::empty()
    } else {
        let rest = collected_entities(infos, k - 1);
        let p = infos[k - 1].collision_pair->0;
        let rest1 = if rest.contains(p.entity_a) {
            rest
        } else {
            rest.push(p.entity_a)
        };
        if rest1.contains(p.entity_b) {
            rest1
        } else {
            rest1.push(p.entity_b)
        }
    }
}

impl World {
    /// The broad phase: from the x-sorted active list, collect the pairs
    /// whose boxes overlap — by the all-pairs scan or by sweep-and-prune,
    /// which are proved to emit the same pairs — or none when disabled.
    /// No pair relates an entity to itself or to a dead entity.
    pub fn broad_phase(&self, broad_phase_data: &mut BroadPhaseData, config: &CollisionConfig)
        requires
            self.wf(),
            strictly_sorted(*self, old(broad_phase_data).sorted_entities@),
            ids_ok(*self, old(broad_phase_data).sorted_entities@),
        ensures
            final(broad_phase_data).sorted_entities@ == old(broad_phase_data).sorted_entities@,
            config.phase_config.broad_phase_type == BroadPhaseType::Disabled ==> final(broad_phase_data).collision_pairs@.len() == 0,
            config.phase_config.broad_phase_type != BroadPhaseType::Disabled ==> final(broad_phase_data).collision_pairs@ == crate::broad_phase::rough_pairs_spec(
                entries_of(*self, old(broad_phase_data).sorted_entities@),
            ),
            pairs_ok(*self, final(broad_phase_data).collision_pairs@),
    {
        let ghost list = broad_phase_data.sorted_entities@;
        let mut entries: Vec<BroadEntry> = Vec::new();
        let m = broad_phase_data.sorted_entities.len();
        for t in 0..m
            invariant
                self.wf(),
                m == list.len(),
                broad_phase_data.sorted_entities@ == list,
                ids_ok(*self, list),
                entries@.len() == t,
                forall|i: int| 0 <= i < t ==> #[trigger] entries@[i] == entries_of(*self, list)[i],
        {
            let id = broad_phase_data.sorted_entities[t];
            entries.push(
                BroadEntry { entity: id, aabb: self.aabbs[id], transform: self.transforms[id] },
            );
        }
        proof {
            assert(entries@ =~= entries_of(*self, list));
            assert(crate::broad_phase::entries_wf(entries@));
            assert(crate::broad_phase::entries_alive(self.spec_len(), self.alive@, entries@));
            assert forall|i: int, j: int| 0 <= i < j < entries@.len() implies (
            #[trigger] entries@[i]).entity != (#[trigger] entries@[j]).entity by {
                assert(lt_entry(*self, list[i] as int, list[j] as int));
            }
            assert(crate::broad_phase::distinct_entities(entries@));
            assert forall|i: int, j: int| 0 <= i < j < entries@.len() implies
                crate::broad_phase::min_key(#[trigger] entries@[i]) <= crate::broad_phase::min_key(
                #[trigger] entries@[j],
            ) by {
                assert(lt_entry(*self, list[i] as int, list[j] as int));
            }
            assert(crate::broad_phase::sorted_by_min_x(entries@));
        }
        match config.phase_config.broad_phase_type {
            BroadPhaseType::Disabled => {
                broad_phase_data.collision_pairs = Vec::new();
            },
            BroadPhaseType::Rough => {
                let pairs = crate::broad_phase::compute_collision_pairs_rough(&entries);
                broad_phase_data.collision_pairs = pairs;
            },
            BroadPhaseType::SAP => {
                let pairs = crate::broad_phase::compute_collision_pairs_sap(&entries);
                broad_phase_data.collision_pairs = pairs;
            },
        }
        proof {
            if config.phase_config.broad_phase_type != BroadPhaseType::Disabled {
                crate::broad_phase::lemma_rough_pairs_ok(self.spec_len(), self.alive@, entries@);
            }
        }
    }

    /// The narrow phase: test every candidate pair exactly — by the
    /// separating-axis test or by GJK (with polytope expansion when
    /// contact details are wanted) — and keep the contacts of the pairs
    /// that truly intersect, together with the set of entities involved.
    pub fn narrow_phase(
        &self,
        broad_phase_data: &BroadPhaseData,
        narrow_phase_data: &mut NarrowPhaseData,
        config: &CollisionConfig,
    )
        requires
            self.wf(),
            pairs_ok(*self, broad_phase_data.collision_pairs@),
        ensures
            forall|k: int|
                0 <= k < final(narrow_phase_data).collision_infos@.len() ==> {
                    let info = #[trigger] final(narrow_phase_data).collision_infos@[k];
                    &&& info.wf()
                    &&& info.collision_pair is Some
                    &&& crate::broad_phase::pair_ok(self.spec_len(), self.alive@, info.collision_pair->0)
                },
            config.phase_config.narrow_phase_type == NarrowPhaseType::Disabled ==> final(narrow_phase_data).collision_infos@.len() == 0,
            config.phase_config.narrow_phase_type == NarrowPhaseType::SAT ==> {
                let flt = sat_filter(
                    *self,
                    broad_phase_data.collision_pairs@,
                    broad_phase_data.collision_pairs@.len() as int,
                );
                &&& final(narrow_phase_data).collision_infos@.len() == flt.len()
                &&& forall|q: int|
                    0 <= q < flt.len() ==> (#[trigger] final(narrow_phase_data).collision_infos@[q]).collision_pair == Some(flt[q])
            },
            config.phase_config.narrow_phase_type == NarrowPhaseType::GJK ==> {
                let flt = gjk_filter(
                    *self,
                    broad_phase_data.collision_pairs@,
                    broad_phase_data.collision_pairs@.len() as int,
                );
                &&& final(narrow_phase_data).collision_infos@.len() == flt.len()
                &&& forall|q: int|
                    0 <= q < flt.len() ==> (#[trigger] final(narrow_phase_data).collision_infos@[q]).collision_pair == Some(flt[q])
            },
            final(narrow_phase_data).collided_entities@ == collected_entities(
                final(narrow_phase_data).collision_infos@,
                final(narrow_phase_data).collision_infos@.len() as int,
            ),
            forall|id: int|
                0 <= id < final(narrow_phase_data).collided_entities@.len() ==> (
                #[trigger] final(narrow_phase_data).collided_entities@[id] as int)
                    < self.spec_len(),
    {
        let mut infos: Vec<CollisionInfo> = Vec::new();
        let np = broad_phase_data.collision_pairs.len();
        match config.phase_config.narrow_phase_type {
            NarrowPhaseType::Disabled => {},
            NarrowPhaseType::SAT => {
                for k in 0..np
                    invariant
                        self.wf(),
                        np == broad_phase_data.collision_pairs@.len(),
                        pairs_ok(*self, broad_phase_data.collision_pairs@),
                        forall|q: int|
                            0 <= q < infos@.len() ==> {
                                let info = #[trigger] infos@[q];
                                &&& info.wf()
                                &&& info.collision_pair is Some
                                &&& crate::broad_phase::pair_ok(
                                    self.spec_len(),
                                    self.alive@,
                                    info.collision_pair->0,
                                )
                            },
                        infos@.len() == sat_filter(
                            *self,
                            broad_phase_data.collision_pairs@,
                            k as int,
                        ).len(),
                        forall|q: int|
                            0 <= q < infos@.len() ==> (#[trigger] infos@[q]).collision_pair
                                == Some(
                                sat_filter(*self, broad_phase_data.collision_pairs@, k as int)[q],
                            ),
                {
                    let pair = broad_phase_data.collision_pairs[k];
                    let a = pair.entity_a;
                    let b = pair.entity_b;
                    let ghost flt_pre = sat_filter(
                        *self,
                        broad_phase_data.collision_pairs@,
                        k as int,
                    );
                    let collided = crate::sat::check_collision(
                        &self.polygons[a],
                        &self.transforms[a],
                        &self.polygons[b],
                        &self.transforms[b],
                    );
                    if collided {
                        infos.push(CollisionInfo::new(&pair));
                    }
                    proof {
                        let flt_post = sat_filter(
                            *self,
                            broad_phase_data.collision_pairs@,
                            k as int + 1,
                        );
                        if pair_sat_collides(*self, pair) {
                            assert(flt_post == flt_pre.push(pair));
                        } else {
                            assert(flt_post == flt_pre);
                        }
                    }
                }
            },
            NarrowPhaseType::GJK => {
                for k in 0..np
                    invariant
                        self.wf(),
                        np == broad_phase_data.collision_pairs@.len(),
                        pairs_ok(*self, broad_phase_data.collision_pairs@),
                        config.phase_config.narrow_phase_type == NarrowPhaseType::GJK,
                        forall|q: int|
                            0 <= q < infos@.len() ==> {
                                let info = #[trigger] infos@[q];
                                &&& info.wf()
                                &&& info.collision_pair is Some
                                &&& crate::broad_phase::pair_ok(
                                    self.spec_len(),
                                    self.alive@,
                                    info.collision_pair->0,
                                )
                            },
                        infos@.len() == gjk_filter(
                            *self,
                            broad_phase_data.collision_pairs@,
                            k as int,
                        ).len(),
                        forall|q: int|
                            0 <= q < infos@.len() ==> (#[trigger] infos@[q]).collision_pair
                                == Some(
                                gjk_filter(*self, broad_phase_data.collision_pairs@, k as int)[q],
                            ),
                {
                    let pair = broad_phase_data.collision_pairs[k];
                    let a = pair.entity_a;
                    let b = pair.entity_b;
                    let ghost flt_pre = gjk_filter(
                        *self,
                        broad_phase_data.collision_pairs@,
                        k as int,
                    );
                    let (collided, simplex) = crate::gjk::check_collision(
                        &self.polygons[a],
                        &self.transforms[a],
                        &self.polygons[b],
                        &self.transforms[b],
                    );
                    proof {
                        assert(collided == pair_gjk_collides(*self, pair));
                    }
                    if collided {
                        if config.phase_config.compute_info_collision {
                            let detail = crate::gjk::get_info_collisions(
                                &self.polygons[a],
                                &self.transforms[a],
                                &self.polygons[b],
                                &self.transforms[b],
                                simplex,
                            );
                            let info = CollisionInfo {
                                collision_pair: Some(pair),
                                location: detail.location,
                                normal: detail.normal,
                                distance: detail.distance,
                            };
                            infos.push(info);
                        } else {
                            infos.push(CollisionInfo::new(&pair));
                        }
                    }
                    proof {
                        let flt_post = gjk_filter(
                            *self,
                            broad_phase_data.collision_pairs@,
                            k as int + 1,
                        );
                        if pair_gjk_collides(*self, pair) {
                            assert(flt_post == flt_pre.push(pair));
                        } else {
                            assert(flt_post == flt_pre);
                        }
                    }
                }
            },
        }
        // Collect the entities appearing in any contact, once each.
        let mut collided_entities: Vec<usize> = Vec::new();
        let ni = infos.len();
        for k in 0..ni
            invariant
                self.wf(),
                ni == infos@.len(),
                forall|q: int|
                    0 <= q < infos@.len() ==> {
                        let info = #[trigger] infos@[q];
                        &&& info.wf()
                        &&& info.collision_pair is Some
                        &&& crate::broad_phase::pair_ok(
                            self.spec_len(),
                            self.alive@,
                            info.collision_pair->0,
                        )
                    },
                collided_entities@ == collected_entities(infos@, k as int),
                forall|id: int|
                    0 <= id < collided_entities@.len() ==> (
                    #[trigger] collided_entities@[id] as int) < self.spec_len(),
        {
            let pair = infos[k].collision_pair.unwrap();
            let ghost before = collided_entities@;
            if !contains_id(&collided_entities, pair.entity_a) {
                collided_entities.push(pair.entity_a);
            }
            let ghost mid = collided_entities@;
            if !contains_id(&collided_entities, pair.entity_b) {
                collided_entities.push(pair.entity_b);
            }
            proof {
                assert(mid == (if before.contains(pair.entity_a) {
                    before
                } else {
                    before.push(pair.entity_a)
                }));
                assert(collided_entities@ == (if mid.contains(pair.entity_b) {
                    mid
                } else {
                    mid.push(pair.entity_b)
                }));
                assert(collided_entities@ == collected_entities(infos@, k as int + 1));
            }
        }
        narrow_phase_data.collision_infos = infos;
        narrow_phase_data.collided_entities = collided_entities;
    }
}

impl World {
    /// The collision-response stage, run single-threaded: sixteen
    /// sequential-impulse passes over all contacts, then one friction and
    /// one positional-correction pass per contact. Kinematic bodies are
    /// never moved and never change velocity.
    #[verifier::rlimit(100)]
    pub fn collision_response(
        &mut self,
        narrow_phase_data: &NarrowPhaseData,
        config: &CollisionConfig,
    )
        requires
            old(self).wf(),
            config.system_params.valid(),
            forall|k: int|
                0 <= k < narrow_phase_data.collision_infos@.len() ==> {
                    let info = #[trigger] narrow_phase_data.collision_infos@[k];
                    &&& info.wf()
                    &&& info.collision_pair is Some
                    &&& crate::broad_phase::pair_ok(
                        old(self).spec_len(),
                        old(self).alive@,
                        info.collision_pair->0,
                    )
                },
        ensures
            final(self).wf(),
            final(self).spec_len() == old(self).spec_len(),
            final(self).polygons@ == old(self).polygons@,
            final(self).aabbs@ == old(self).aabbs@,
            final(self).alive@ == old(self).alive@,
            final(self).awake@ == old(self).awake@,
            forall|i: int|
                0 <= i < old(self).spec_len() && old(self).bodies@[i].is_kinematic ==> {
                    &&& #[trigger] final(self).bodies@[i] == old(self).bodies@[i]
                    &&& final(self).transforms@[i] == old(self).transforms@[i]
                },
            forall|i: int|
                0 <= i < old(self).spec_len() ==> (#[trigger] final(self).bodies@[i]).is_kinematic
                    == old(self).bodies@[i].is_kinematic && final(self).bodies@[i].mass == old(self).bodies@[i].mass,
            final(self).bodies@ == crate::response::response_stage(
                old(self).bodies@,
                old(self).transforms@,
                narrow_phase_data.collision_infos@,
                config.system_params.restitution as int,
                config.system_params.damping as int,
                config.system_params.friction as int,
            ).0,
            final(self).transforms@ == crate::response::response_stage(
                old(self).bodies@,
                old(self).transforms@,
                narrow_phase_data.collision_infos@,
                config.system_params.restitution as int,
                config.system_params.damping as int,
                config.system_params.friction as int,
            ).1,
    {
        let ghost n0 = old(self).spec_len();
        let ghost b0 = old(self).bodies@;
        let ghost t0 = old(self).transforms@;
        let ghost infos_g = narrow_phase_data.collision_infos@;
        let ghost e_g: int = config.system_params.restitution as int;
        let ghost dmp_g: int = config.system_params.damping as int;
        let ghost frc_g: int = config.system_params.friction as int;
        let ni = narrow_phase_data.collision_infos.len();
        let mut pass: usize = 0;
        while pass < 16
            invariant
                self.wf(),
                ni == narrow_phase_data.collision_infos@.len(),
                config.system_params.valid(),
                self.spec_len() == n0,
                n0 == old(self).spec_len(),
                self.polygons@ == old(self).polygons@,
                self.aabbs@ == old(self).aabbs@,
                self.alive@ == old(self).alive@,
                self.awake@ == old(self).awake@,
                self.changed@ == old(self).changed@,
                self.transforms@ == old(self).transforms@,
                forall|k: int|
                    0 <= k < narrow_phase_data.collision_infos@.len() ==> {
                        let info = #[trigger] narrow_phase_data.collision_infos@[k];
                        &&& info.wf()
                        &&& info.collision_pair is Some
                        &&& crate::broad_phase::pair_ok(n0, old(self).alive@, info.collision_pair->0)
                    },
                forall|i: int|
                    0 <= i < n0 && old(self).bodies@[i].is_kinematic ==> #[trigger] self.bodies@[i]
                        == old(self).bodies@[i],
                forall|i: int|
                    0 <= i < n0 ==> (#[trigger] self.bodies@[i]).is_kinematic == old(self).bodies@[i].is_kinematic && self.bodies@[i].mass == old(self).bodies@[i].mass,
                b0 == old(self).bodies@,
                t0 == old(self).transforms@,
                infos_g == narrow_phase_data.collision_infos@,
                e_g == config.system_params.restitution as int,
                pass <= 16,
                self.bodies@ == crate::response::impulse_passes(b0, t0, infos_g, pass as int, e_g),
            decreases 16 - pass,
        {
            for k in 0..ni
                invariant
                    self.wf(),
                    ni == narrow_phase_data.collision_infos@.len(),
                    config.system_params.valid(),
                    self.spec_len() == n0,
                    n0 == old(self).spec_len(),
                    self.polygons@ == old(self).polygons@,
                    self.aabbs@ == old(self).aabbs@,
                    self.alive@ == old(self).alive@,
                    self.awake@ == old(self).awake@,
                    self.changed@ == old(self).changed@,
                    self.transforms@ == old(self).transforms@,
                    forall|q: int|
                        0 <= q < narrow_phase_data.collision_infos@.len() ==> {
                            let info = #[trigger] narrow_phase_data.collision_infos@[q];
                            &&& info.wf()
                            &&& info.collision_pair is Some
                            &&& crate::broad_phase::pair_ok(
                                n0,
                                old(self).alive@,
                                info.collision_pair->0,
                            )
                        },
                    forall|i: int|
                        0 <= i < n0 && old(self).bodies@[i].is_kinematic ==> #[trigger] self.bodies@[i]
                            == old(self).bodies@[i],
                    forall|i: int|
                        0 <= i < n0 ==> (#[trigger] self.bodies@[i]).is_kinematic == old(self).bodies@[i].is_kinematic && self.bodies@[i].mass == old(self).bodies@[i].mass,
                    b0 == old(self).bodies@,
                    t0 == old(self).transforms@,
                    infos_g == narrow_phase_data.collision_infos@,
                    e_g == config.system_params.restitution as int,
                    self.bodies@ == crate::response::impulse_contacts(
                        crate::response::impulse_passes(b0, t0, infos_g, pass as int, e_g),
                        t0,
                        infos_g,
                        k as int,
                        e_g,
                    ),
            {
                let info = &narrow_phase_data.collision_infos[k];
                let pair = info.collision_pair.unwrap();
                let a = pair.entity_a;
                let b = pair.entity_b;
                let ghost bodies_pre = self.bodies@;
                let rb_a = self.bodies[a];
                let rb_b = self.bodies[b];
                let t_a = self.transforms[a];
                let t_b = self.transforms[b];
                let result = crate::response::compute_collision_impulse(
                    info,
                    &t_a,
                    &rb_a,
                    &t_b,
                    &rb_b,
                    config.system_params.restitution,
                );
                proof {
                    crate::response::lemma_fold_range(
                        infos_g[k as int].location@,
                        infos_g[k as int].location@.len() as int,
                        t0[a as int].translation,
                        t0[b as int].translation,
                        rb_a.linear_speed,
                        rb_a.angular_speed as int,
                        rb_b.linear_speed,
                        rb_b.angular_speed as int,
                        crate::rigidbody::inv_mass_spec(rb_a),
                        crate::rigidbody::inv_mass_spec(rb_b),
                        infos_g[k as int].normal,
                        e_g,
                    );
                }
                if let Some((imp_a, imp_b)) = result {
                    if !rb_a.is_kinematic {
                        let mut nb = rb_a;
                        nb.linear_speed = Vec2 {
                            x: clamp_speed_add(rb_a.linear_speed.x, imp_a.linear_impulse.x),
                            y: clamp_speed_add(rb_a.linear_speed.y, imp_a.linear_impulse.y),
                        };
                        nb.angular_speed = clamp_angular_add(
                            rb_a.angular_speed,
                            imp_a.angular_impulse,
                        );
                        self.bodies.set(a, nb);
                    }
                    if !rb_b.is_kinematic {
                        let rb_b2 = self.bodies[b];
                        let mut nb = rb_b2;
                        nb.linear_speed = Vec2 {
                            x: clamp_speed_add(rb_b2.linear_speed.x, imp_b.linear_impulse.x),
                            y: clamp_speed_add(rb_b2.linear_speed.y, imp_b.linear_impulse.y),
                        };
                        nb.angular_speed = clamp_angular_add(
                            rb_b2.angular_speed,
                            imp_b.angular_impulse,
                        );
                        self.bodies.set(b, nb);
                    }
                }
                proof {
                    assert(self.bodies@ == crate::response::apply_contact_impulses(
                        bodies_pre,
                        t0,
                        infos_g[k as int],
                        e_g,
                    ));
                }
            }
            pass += 1;
        }
        // One friction and one positional-correction pass per contact.
        let ghost b16 = self.bodies@;
        for k in 0..ni
            invariant
                self.wf(),
                ni == narrow_phase_data.collision_infos@.len(),
                config.system_params.valid(),
                self.spec_len() == n0,
                n0 == old(self).spec_len(),
                self.polygons@ == old(self).polygons@,
                self.aabbs@ == old(self).aabbs@,
                self.alive@ == old(self).alive@,
                self.awake@ == old(self).awake@,
                forall|q: int|
                    0 <= q < narrow_phase_data.collision_infos@.len() ==> {
                        let info = #[trigger] narrow_phase_data.collision_infos@[q];
                        &&& info.wf()
                        &&& info.collision_pair is Some
                        &&& crate::broad_phase::pair_ok(n0, old(self).alive@, info.collision_pair->0)
                    },
                forall|i: int|
                    0 <= i < n0 && old(self).bodies@[i].is_kinematic ==> #[trigger] self.bodies@[i]
                        == old(self).bodies@[i],
                forall|i: int|
                    0 <= i < n0 && old(self).bodies@[i].is_kinematic
                        ==> #[trigger] self.transforms@[i] == old(self).transforms@[i],
                forall|i: int|
                    0 <= i < n0 ==> (#[trigger] self.bodies@[i]).is_kinematic == old(self).bodies@[i].is_kinematic && self.bodies@[i].mass == old(self).bodies@[i].mass,
                b0 == old(self).bodies@,
                t0 == old(self).transforms@,
                infos_g == narrow_phase_data.collision_infos@,
                e_g == config.system_params.restitution as int,
                dmp_g == config.system_params.damping as int,
                frc_g == config.system_params.friction as int,
                b16 == crate::response::impulse_passes(b0, t0, infos_g, 16, e_g),
                self.bodies@ == crate::response::fc_contacts(
                    b16,
                    t0,
                    infos_g,
                    k as int,
                    dmp_g,
                    frc_g,
                ).0,
                self.transforms@ == crate::response::fc_contacts(
                    b16,
                    t0,
                    infos_g,
                    k as int,
                    dmp_g,
                    frc_g,
                ).1,
        {
            let info = &narrow_phase_data.collision_infos[k];
            let pair = info.collision_pair.unwrap();
            let a = pair.entity_a;
            let b = pair.entity_b;
            let ghost bodies_pre = self.bodies@;
            let ghost transforms_pre = self.transforms@;
            let mut rb_a = self.bodies[a];
            let mut rb_b = self.bodies[b];
            crate::response::apply_friction(
                info,
                &mut rb_a,
                &mut rb_b,
                config.system_params.damping,
                config.system_params.friction,
            );
            self.bodies.set(a, rb_a);
            self.bodies.set(b, rb_b);
            let rb_a2 = self.bodies[a];
            let rb_b2 = self.bodies[b];
            let mut t_a = self.transforms[a];
            let mut t_b = self.transforms[b];
            crate::response::apply_position_correction(
                info,
                &mut t_a,
                &rb_a2,
                &mut t_b,
                &rb_b2,
                config.system_params.damping,
            );
            self.transforms.set(a, t_a);
            self.transforms.set(b, t_b);
            if !rb_a2.is_kinematic {
                self.changed.set(a, true);
            }
            if !rb_b2.is_kinematic {
                self.changed.set(b, true);
            }
            proof {
                let fc = crate::response::apply_contact_fc(
                    bodies_pre,
                    transforms_pre,
                    infos_g[k as int],
                    dmp_g,
                    frc_g,
                );
                assert(self.bodies@ == fc.0);
                assert(self.transforms@ == fc.1);
            }
        }
        proof {
            assert(self.bodies@ == crate::response::response_stage(
                b0,
                t0,
                infos_g,
                e_g,
                dmp_g,
                frc_g,
            ).0);
            assert(self.transforms@ == crate::response::response_stage(
                b0,
                t0,
                infos_g,
                e_g,
                dmp_g,
                frc_g,
            ).1);
        }
    }

    /// The integrator stage: advance every body by one fixed step, and
    /// mark the moved entities as changed.
    pub fn update_rigidbodies(&mut self, config: &CollisionConfig)
        requires
            old(self).wf(),
        ensures
            final(self).wf(),
            final(self).spec_len() == old(self).spec_len(),
            final(self).polygons@ == old(self).polygons@,
            final(self).aabbs@ == old(self).aabbs@,
            final(self).alive@ == old(self).alive@,
            final(self).awake@ == old(self).awake@,
            forall|i: int|
                0 <= i < old(self).spec_len() && old(self).bodies@[i].is_kinematic
                    ==> #[trigger] final(self).transforms@[i] == old(self).transforms@[i],
            forall|i: int|
                0 <= i < old(self).spec_len() && old(self).bodies@[i].is_kinematic ==> (
                #[trigger] final(self).bodies@[i]).linear_speed == (Vec2 { x: 0i64, y: 0i64 }) && (
                final(self).bodies@[i]).angular_speed == 0,
            forall|i: int|
                0 <= i < old(self).spec_len() ==> (#[trigger] final(self).bodies@[i]).is_kinematic
                    == old(self).bodies@[i].is_kinematic,
            forall|i: int|
                0 <= i < old(self).spec_len() ==> crate::rigidbody::integrated(
                    old(self).bodies@[i],
                    old(self).transforms@[i],
                    config.system_params.gravity_enabled,
                    #[trigger] final(self).bodies@[i],
                    final(self).transforms@[i],
                ),
    {
        let ghost n0 = old(self).spec_len();
        let n = self.polygons.len();
        for i in 0..n
            invariant
                self.wf(),
                n == n0,
                self.spec_len() == n0,
                n0 == old(self).spec_len(),
                self.polygons@ == old(self).polygons@,
                self.aabbs@ == old(self).aabbs@,
                self.alive@ == old(self).alive@,
                self.awake@ == old(self).awake@,
                forall|q: int|
                    0 <= q < i && old(self).bodies@[q].is_kinematic
                        ==> #[trigger] self.transforms@[q] == old(self).transforms@[q],
                forall|q: int|
                    0 <= q < i && old(self).bodies@[q].is_kinematic ==> (
                    #[trigger] self.bodies@[q]).linear_speed == (Vec2 { x: 0i64, y: 0i64 }),
                forall|q: int|
                    0 <= q < i && old(self).bodies@[q].is_kinematic ==> (
                    #[trigger] self.bodies@[q]).angular_speed == 0,
                forall|q: int|
                    0 <= q < i ==> crate::rigidbody::integrated(
                        old(self).bodies@[q],
                        old(self).transforms@[q],
                        config.system_params.gravity_enabled,
                        #[trigger] self.bodies@[q],
                        self.transforms@[q],
                    ),
                forall|q: int| i <= q < n0 ==> #[trigger] self.bodies@[q] == old(self).bodies@[q],
                forall|q: int|
                    i <= q < n0 ==> #[trigger] self.transforms@[q] == old(self).transforms@[q],
                forall|q: int|
                    0 <= q < n0 ==> (#[trigger] self.bodies@[q]).is_kinematic == old(self).bodies@[q].is_kinematic,
        {
            let ghost bodies_pre = self.bodies@;
            let ghost transforms_pre = self.transforms@;
            let mut body = self.bodies[i];
            let mut transform = self.transforms[i];
            proof {
                assert(body == old(self).bodies@[i as int]);
                assert(transform == old(self).transforms@[i as int]);
            }
            let moved = crate::rigidbody::update_rigidbody(
                &mut body,
                &mut transform,
                config.system_params.gravity_enabled,
            );
            self.bodies.set(i, body);
            self.transforms.set(i, transform);
            if moved {
                self.changed.set(i, true);
            }
            proof {
                assert(self.bodies@ == bodies_pre.update(i as int, body));
                assert(self.transforms@ == transforms_pre.update(i as int, transform));
                assert forall|q: int| i + 1 <= q < n0 implies #[trigger] self.bodies@[q] == old(
                    self,
                ).bodies@[q] && self.transforms@[q] == old(self).transforms@[q] by {
                    assert(self.bodies@[q] == bodies_pre[q]);
                    assert(self.transforms@[q] == transforms_pre[q]);
                }
                if old(self).bodies@[i as int].is_kinematic {
                    assert(self.bodies@[i as int] == body);
                    assert(self.transforms@[i as int] == transform);
                    assert(transform == old(self).transforms@[i as int]);
                    assert(body.linear_speed == (Vec2 { x: 0i64, y: 0i64 }));
                    assert(body.angular_speed == 0);
                }
                assert forall|q: int| 0 <= q < i && old(self).bodies@[q].is_kinematic implies
                    self.transforms@[q] == old(self).transforms@[q] && self.bodies@[q].linear_speed
                    == (Vec2 { x: 0i64, y: 0i64 }) && self.bodies@[q].angular_speed == 0 by {
                    assert(self.bodies@[q] == bodies_pre[q]);
                    assert(self.transforms@[q] == transforms_pre[q]);
                    assert(transforms_pre[q] == old(self).transforms@[q]);
                    assert(bodies_pre[q].linear_speed == (Vec2 { x: 0i64, y: 0i64 }));
                }
                assert(self.bodies@[i as int] == body && self.transforms@[i as int] == transform);
                assert forall|q: int| 0 <= q < i + 1 implies crate::rigidbody::integrated(
                    old(self).bodies@[q],
                    old(self).transforms@[q],
                    config.system_params.gravity_enabled,
                    #[trigger] self.bodies@[q],
                    self.transforms@[q],
                ) by {
                    if q < i {
                        assert(self.bodies@[q] == bodies_pre[q]);
                        assert(self.transforms@[q] == transforms_pre[q]);
                    }
                }
            }
        }
    }

    /// Refresh the statistics counters a display reads: how many
    /// entities exist, how many candidate pairs the broad phase emitted,
    /// and how many entities are on the active list.
    pub fn update_debug_info(
        &self,
        broad_phase_data: &BroadPhaseData,
        narrow_phase_data: &NarrowPhaseData,
        config: &mut CollisionConfig,
    )
        requires
            self.wf(),
        ensures
            final(config).statistics.entity_count == self.spec_len(),
            final(config).statistics.collision_pairs_count
                == broad_phase_data.collision_pairs@.len(),
            final(config).statistics.awake_entities_count
                == broad_phase_data.sorted_entities@.len(),
            final(config).phase_config == old(config).phase_config,
            final(config).system_params == old(config).system_params,
    {
        config.statistics.entity_count = self.polygons.len();
        config.statistics.collision_pairs_count = broad_phase_data.collision_pairs.len();
        config.statistics.awake_entities_count = broad_phase_data.sorted_entities.len();
    }

    /// One full simulation tick, stages in order: box maintenance,
    /// activity tracking, broad phase, narrow phase, response,
    /// integration, statistics. Over the whole tick a kinematic body
    /// never moves, and ends with zero velocities.
    pub fn tick(
        &mut self,
        broad_phase_data: &mut BroadPhaseData,
        narrow_phase_data: &mut NarrowPhaseData,
        config: &mut CollisionConfig,
    )
        requires
            old(self).wf(),
            config.system_params.valid(),
            forall|i: int|
                0 <= i < old(broad_phase_data).sorted_entities@.len() ==> (#[trigger] old(broad_phase_data).sorted_entities@[i] as int) < old(self).spec_len(),
        ensures
            final(self).wf(),
            final(self).spec_len() == old(self).spec_len(),
            final(self).polygons@ == old(self).polygons@,
            final(self).alive@ == old(self).alive@,
            forall|i: int|
                0 <= i < old(self).spec_len() && old(self).bodies@[i].is_kinematic ==> {
                    &&& #[trigger] final(self).transforms@[i] == old(self).transforms@[i]
                    &&& final(self).bodies@[i].linear_speed == (Vec2 { x: 0i64, y: 0i64 })
                    &&& final(self).bodies@[i].angular_speed == 0
                },
            forall|i: int|
                0 <= i < final(broad_phase_data).sorted_entities@.len() ==> (#[trigger] final(broad_phase_data).sorted_entities@[i] as int) < final(self).spec_len(),
            ({
                // Bodies and placements are first touched by the response
                // stage, and the integrator is the last to move them: the
                // tick's outcome is exactly the integrator's image of the
                // response stage's output on this tick's contacts.
                let mid = crate::response::response_stage(
                    old(self).bodies@,
                    old(self).transforms@,
                    final(narrow_phase_data).collision_infos@,
                    old(config).system_params.restitution as int,
                    old(config).system_params.damping as int,
                    old(config).system_params.friction as int,
                );
                forall|i: int|
                    0 <= i < old(self).spec_len() ==> crate::rigidbody::integrated(
                        mid.0[i],
                        mid.1[i],
                        old(config).system_params.gravity_enabled,
                        #[trigger] final(self).bodies@[i],
                        final(self).transforms@[i],
                    )
            }),
    {
        self.update_bounding_boxes();
        self.refresh_entities(broad_phase_data, narrow_phase_data, config);
        self.broad_phase(broad_phase_data, config);
        self.narrow_phase(broad_phase_data, narrow_phase_data, config);
        let ghost pre_response_bodies = self.bodies@;
        let ghost pre_response_transforms = self.transforms@;
        proof {
            assert(pre_response_bodies == old(self).bodies@);
            assert(pre_response_transforms == old(self).transforms@);
        }
        self.collision_response(narrow_phase_data, config);
        let ghost mid_bodies = self.bodies@;
        let ghost mid_transforms = self.transforms@;
        self.update_rigidbodies(config);
        self.update_debug_info(broad_phase_data, narrow_phase_data, config);
        proof {
            let mid = crate::response::response_stage(
                old(self).bodies@,
                old(self).transforms@,
                narrow_phase_data.collision_infos@,
                config.system_params.restitution as int,
                config.system_params.damping as int,
                config.system_params.friction as int,
            );
            assert(mid_bodies == mid.0);
            assert(mid_transforms == mid.1);
        }
    }
}

/// `base + delta`, clamped to the speed limit.
fn clamp_speed_add(base: i64, delta: i64) -> (r: i64)
    requires
        crate::fxp::iabs(base as int) <= crate::rigidbody::SPEED_LIMIT as int,
        crate::fxp::iabs(delta as int) <= crate::response::IMPULSE_LIMIT as int,
    ensures
        r == crate::rigidbody::clamp_speed(base + delta),
        crate::fxp::iabs(r as int) <= crate::rigidbody::SPEED_LIMIT as int,
{
    let v = base + delta;
    if v > crate::rigidbody::SPEED_LIMIT {
        crate::rigidbody::SPEED_LIMIT
    } else if v < -crate::rigidbody::SPEED_LIMIT {
        -crate::rigidbody::SPEED_LIMIT
    } else {
        v
    }
}

/// `base + delta`, clamped to the angular speed limit.
fn clamp_angular_add(base: i64, delta: i64) -> (r: i64)
    requires
        crate::fxp::iabs(base as int) <= crate::rigidbody::ANGULAR_LIMIT as int,
        crate::fxp::iabs(delta as int) <= crate::rigidbody::ANGULAR_LIMIT as int,
    ensures
        crate::fxp::iabs(r as int) <= crate::rigidbody::ANGULAR_LIMIT as int,
        r == crate::response::clampi(base + delta, crate::rigidbody::ANGULAR_LIMIT as int),
{
    let v = base + delta;
    if v > crate::rigidbody::ANGULAR_LIMIT {
        crate::rigidbody::ANGULAR_LIMIT
    } else if v < -crate::rigidbody::ANGULAR_LIMIT {
        -crate::rigidbody::ANGULAR_LIMIT
    } else {
        v
    }
}

} // verus!
