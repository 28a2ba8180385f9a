//! Broad phase: from the active entities' boxes, the candidate pairs whose
//! boxes overlap — either by testing every pair, or by a sweep along the
//! x-sorted order that stops each row early (sweep-and-prune).
//!
//! Both scans are proved to return exactly their sequence specifications,
//! and the two specifications are proved equal on x-sorted input: the sweep
//! loses no pair and invents none.

use vstd::prelude::*;
use crate::aabb::{aabb_overlap, AABB};
use crate::transform2d::Transform2d;

verus! {

/// An unordered pair of two distinct entities whose boxes overlap.
#[derive(Clone, Copy, PartialEq, Eq, Structural, Debug)]
pub struct CollisionPair {
    pub entity_a: usize,
    pub entity_b: usize,
}

/// One active entity as the broad phase sees it: its handle, box and
/// placement.
#[derive(Clone, Copy, PartialEq, Eq, Structural, Debug)]
pub struct BroadEntry {
    pub entity: usize,
    pub aabb: AABB,
    pub transform: Transform2d,
}

impl BroadEntry {
    pub open spec fn wf(self) -> bool {
        self.aabb.wf() && self.transform.valid()
    }
}

/// The world-space lower x bound of an entry's box.
pub open spec fn min_key(e: BroadEntry) -> int {
    e.aabb.min.x + e.transform.translation.x
}

/// The world-space upper x bound of an entry's box.
pub open spec fn max_key(e: BroadEntry) -> int {
    e.aabb.max.x + e.transform.translation.x
}

/// Whether two entries' world-space boxes overlap on both axes.
pub open spec fn entry_overlap(e1: BroadEntry, e2: BroadEntry) -> bool {
    aabb_overlap(e1.aabb, e1.transform.translation, e2.aabb, e2.transform.translation)
}

/// The pair emitted for two entries.
pub open spec fn pair_of(e1: BroadEntry, e2: BroadEntry) -> CollisionPair {
    CollisionPair { entity_a: e1.entity, entity_b: e2.entity }
}

/// All entries carry well-formed boxes and placements.
pub open spec fn entries_wf(s: Seq<BroadEntry>) -> bool {
    forall|i: int| 0 <= i < s.len() ==> (#[trigger] s[i]).wf()
}

/// No two entries name the same entity.
pub open spec fn distinct_entities(s: Seq<BroadEntry>) -> bool {
    forall|i: int, j: int|
        0 <= i < j < s.len() ==> (#[trigger] s[i]).entity != (#[trigger] s[j]).entity
}

/// Entries are ordered by the lower x bound of their world-space boxes.
pub open spec fn sorted_by_min_x(s: Seq<BroadEntry>) -> bool {
    forall|i: int, j: int| 0 <= i < j < s.len() ==> min_key(#[trigger] s[i]) <= min_key(#[trigger] s[j])
}

/// The pairs the all-pairs scan emits for row `i`, from column `j` on.
pub open spec fn rough_row(s: Seq<BroadEntry>, i: int, j: int) -> Seq<CollisionPair>
    decreases s.len() - j,
{
    if j < 0 || j >= s.len() {
        Seq::empty()
    } else {
        let rest = rough_row(s, i, j + 1);
        if entry_overlap(s[i], s[j]) {
            seq![pair_of(s[i], s[j])] + rest
        } else {
            rest
        }
    }
}

/// The pairs the all-pairs scan emits from row `i` on.
pub open spec fn rough_scan(s: Seq<BroadEntry>, i: int) -> Seq<CollisionPair>
    decreases s.len() - i,
{
    if i < 0 || i >= s.len() {
        Seq::empty()
    } else {
        rough_row(s, i, i + 1) + rough_scan(s, i + 1)
    }
}

/// Every overlapping unordered pair, scanned in index order.
pub open spec fn rough_pairs_spec(s: Seq<BroadEntry>) -> Seq<CollisionPair> {
    rough_scan(s, 0)
}

/// The pairs sweep-and-prune emits for row `i` from column `j` on: the row
/// ends at the first entry whose box starts past the end of row `i`'s box.
pub open spec fn sap_row(s: Seq<BroadEntry>, i: int, j: int) -> Seq<CollisionPair>
    decreases s.len() - j,
{
    if j < 0 || j >= s.len() {
        Seq::empty()
    } else if min_key(s[j]) > max_key(s[i]) {
        Seq::empty()
    } else {
        let rest = sap_row(s, i, j + 1);
        if entry_overlap(s[i], s[j]) {
            seq![pair_of(s[i], s[j])] + rest
        } else {
            rest
        }
    }
}

/// The pairs sweep-and-prune emits from row `i` on.
pub open spec fn sap_scan(s: Seq<BroadEntry>, i: int) -> Seq<CollisionPair>
    decreases s.len() - i,
{
    if i < 0 || i >= s.len() {
        Seq::empty()
    } else {
        sap_row(s, i, i + 1) + sap_scan(s, i + 1)
    }
}

/// Every pair sweep-and-prune emits, scanned in index order.
pub open spec fn sap_pairs_spec(s: Seq<BroadEntry>) -> Seq<CollisionPair> {
    sap_scan(s, 0)
}

/// Once an entry's box starts past the end of row `i`'s box, so does every
/// later entry's on sorted input, and none of them overlaps row `i`.
proof fn lemma_rough_row_empty(s: Seq<BroadEntry>, i: int, j: int)
    requires
        sorted_by_min_x(s),
        0 <= i < s.len(),
        i < j,
        j <= s.len(),
        j < s.len() ==> min_key(s[j]) > max_key(s[i]),
    ensures
        rough_row(s, i, j) == Seq::<CollisionPair>::empty(),
    decreases s.len() - j,
{
    if j < s.len() {
        assert(min_key(s[j]) > max_key(s[i]));
        assert(!entry_overlap(s[i], s[j]));
        if j + 1 < s.len() {
            assert(min_key(s[j + 1]) >= min_key(s[j]));
        }
        lemma_rough_row_empty(s, i, j + 1);
    }
}

/// On sorted input, a sweep row equals the corresponding all-pairs row.
proof fn lemma_row_agree(s: Seq<BroadEntry>, i: int, j: int)
    requires
        sorted_by_min_x(s),
        0 <= i < s.len(),
        i < j,
    ensures
        sap_row(s, i, j) == rough_row(s, i, j),
    decreases s.len() - j,
{
    if j >= s.len() {
    } else if min_key(s[j]) > max_key(s[i]) {
        lemma_rough_row_empty(s, i, j);
    } else {
        lemma_row_agree(s, i, j + 1);
    }
}

proof fn lemma_scan_agree(s: Seq<BroadEntry>, i: int)
    requires
        sorted_by_min_x(s),
        0 <= i,
    ensures
        sap_scan(s, i) == rough_scan(s, i),
    decreases s.len() - i,
{
    if i < s.len() {
        lemma_row_agree(s, i, i + 1);
        lemma_scan_agree(s, i + 1);
    }
}

/// Broad-phase completeness: on an x-sorted active set, sweep-and-prune
/// emits exactly the pairs the all-pairs scan emits — no overlapping pair
/// is missed and no extra pair appears.
pub proof fn lemma_broad_phase_modes_agree(s: Seq<BroadEntry>)
    requires
        sorted_by_min_x(s),
    ensures
        sap_pairs_spec(s) == rough_pairs_spec(s),
{
    lemma_scan_agree(s, 0);
}

/// The all-pairs scan: test the boxes of every unordered pair.
pub fn compute_collision_pairs_rough(entries: &Vec<BroadEntry>) -> (r: Vec<CollisionPair>)
    requires
        entries_wf(entries@),
    ensures
        r@ == rough_pairs_spec(entries@),
        distinct_entities(entries@) ==> forall|k: int|
            0 <= k < r@.len() ==> (#[trigger] r@[k]).entity_a != r@[k].entity_b,
{
    let n = entries.len();
    let mut out: Vec<CollisionPair> = Vec::new();
    let ghost s = entries@;
    proof {
        assert(out@ + rough_scan(s, 0) =~= rough_scan(s, 0));
    }
    for i in 0..n
        invariant
            n == s.len(),
            entries@ == s,
            entries_wf(s),
            out@ + rough_scan(s, i as int) == rough_pairs_spec(s),
            distinct_entities(s) ==> forall|k: int|
                0 <= k < out@.len() ==> (#[trigger] out@[k]).entity_a != out@[k].entity_b,
    {
        proof {
            assert(rough_scan(s, i as int) == rough_row(s, i as int, i as int + 1) + rough_scan(
                s,
                i as int + 1,
            ));
            assert(out@ + rough_row(s, i as int, i as int + 1) + rough_scan(s, i as int + 1)
                =~= out@ + (rough_row(s, i as int, i as int + 1) + rough_scan(s, i as int + 1)));
        }
        let mut j = i + 1;
        while j < n
            invariant
                n == s.len(),
                entries@ == s,
                entries_wf(s),
                i < j <= n,
                i < n,
                out@ + rough_row(s, i as int, j as int) + rough_scan(s, i as int + 1)
                    == rough_pairs_spec(s),
                distinct_entities(s) ==> forall|k: int|
                    0 <= k < out@.len() ==> (#[trigger] out@[k]).entity_a != out@[k].entity_b,
            decreases n - j,
        {
            let e1 = &entries[i];
            let e2 = &entries[j];
            if crate::aabb::check_collision(&e1.aabb, &e1.transform, &e2.aabb, &e2.transform) {
                let ghost out_before = out@;
                out.push(CollisionPair { entity_a: e1.entity, entity_b: e2.entity });
                proof {
                    assert(out@ + rough_row(s, i as int, j + 1) =~= out_before + rough_row(
                        s,
                        i as int,
                        j as int,
                    ));
                    assert(out@ + rough_row(s, i as int, j + 1) + rough_scan(s, i as int + 1)
                        =~= out_before + rough_row(s, i as int, j as int) + rough_scan(
                        s,
                        i as int + 1,
                    ));
                }
            }
            j += 1;
        }
        proof {
            assert(rough_row(s, i as int, n as int) =~= Seq::<CollisionPair>::empty());
            assert(out@ + rough_row(s, i as int, n as int) =~= out@);
            assert(out@ + rough_scan(s, i as int + 1) == rough_pairs_spec(s));
        }
    }
    proof {
        assert(rough_scan(s, n as int) =~= Seq::<CollisionPair>::empty());
        assert(out@ + rough_scan(s, n as int) =~= out@);
    }
    out
}

/// The sweep-and-prune scan: entries must arrive sorted by the lower x
/// bound of their boxes; each row stops at the first entry whose box
/// starts past the end of the row's box.
pub fn compute_collision_pairs_sap(entries: &Vec<BroadEntry>) -> (r: Vec<CollisionPair>)
    requires
        entries_wf(entries@),
        sorted_by_min_x(entries@),
    ensures
        r@ == sap_pairs_spec(entries@),
        r@ == rough_pairs_spec(entries@),
        distinct_entities(entries@) ==> forall|k: int|
            0 <= k < r@.len() ==> (#[trigger] r@[k]).entity_a != r@[k].entity_b,
{
    let n = entries.len();
    let mut out: Vec<CollisionPair> = Vec::new();
    let ghost s = entries@;
    proof {
        assert(out@ + sap_scan(s, 0) =~= sap_scan(s, 0));
    }
    for i in 0..n
        invariant
            n == s.len(),
            entries@ == s,
            entries_wf(s),
            sorted_by_min_x(s),
            out@ + sap_scan(s, i as int) == sap_pairs_spec(s),
            distinct_entities(s) ==> forall|k: int|
                0 <= k < out@.len() ==> (#[trigger] out@[k]).entity_a != out@[k].entity_b,
    {
        proof {
            assert(sap_scan(s, i as int) == sap_row(s, i as int, i as int + 1) + sap_scan(
                s,
                i as int + 1,
            ));
            assert(out@ + sap_row(s, i as int, i as int + 1) + sap_scan(s, i as int + 1) =~= out@
                + (sap_row(s, i as int, i as int + 1) + sap_scan(s, i as int + 1)));
        }
        let mut j = i + 1;
        while j < n
            invariant_except_break
                n == s.len(),
                entries@ == s,
                entries_wf(s),
                sorted_by_min_x(s),
                i < j <= n,
                i < n,
                out@ + sap_row(s, i as int, j as int) + sap_scan(s, i as int + 1)
                    == sap_pairs_spec(s),
                distinct_entities(s) ==> forall|k: int|
                    0 <= k < out@.len() ==> (#[trigger] out@[k]).entity_a != out@[k].entity_b,
            ensures
                out@ + sap_scan(s, i as int + 1) == sap_pairs_spec(s),
                distinct_entities(s) ==> forall|k: int|
                    0 <= k < out@.len() ==> (#[trigger] out@[k]).entity_a != out@[k].entity_b,
            decreases n - j,
        {
            let e1 = &entries[i];
            let e2 = &entries[j];
            if e2.aabb.min.x + e2.transform.translation.x > e1.aabb.max.x
                + e1.transform.translation.x {
                proof {
                    assert(sap_row(s, i as int, j as int) =~= Seq::<CollisionPair>::empty());
                    assert(out@ + sap_row(s, i as int, j as int) =~= out@);
                }
                break ;
            }
            if crate::aabb::check_collision(&e1.aabb, &e1.transform, &e2.aabb, &e2.transform) {
                let ghost out_before = out@;
                out.push(CollisionPair { entity_a: e1.entity, entity_b: e2.entity });
                proof {
                    assert(out@ + sap_row(s, i as int, j + 1) =~= out_before + sap_row(
                        s,
                        i as int,
                        j as int,
                    ));
                    assert(out@ + sap_row(s, i as int, j + 1) + sap_scan(s, i as int + 1)
                        =~= out_before + sap_row(s, i as int, j as int) + sap_scan(
                        s,
                        i as int + 1,
                    ));
                }
            }
            j += 1;
        }
    }
    proof {
        assert(sap_scan(s, n as int) =~= Seq::<CollisionPair>::empty());
        assert(out@ + sap_scan(s, n as int) =~= out@);
        lemma_broad_phase_modes_agree(s);
    }
    out
}

/// A pair names two live entities of the world, and never the same one
/// twice.
pub open spec fn pair_ok(n: nat, alive: Seq<bool>, p: CollisionPair) -> bool {
    &&& (p.entity_a as int) < n
    &&& (p.entity_b as int) < n
    &&& alive[p.entity_a as int]
    &&& alive[p.entity_b as int]
    &&& p.entity_a != p.entity_b
}

/// Every entry names a live entity of a world with `n` slots.
pub open spec fn entries_alive(n: nat, alive: Seq<bool>, s: Seq<BroadEntry>) -> bool {
    forall|i: int|
        0 <= i < s.len() ==> ((#[trigger] s[i]).entity as int) < n && alive[s[i].entity as int]
}

proof fn lemma_rough_row_ok(n: nat, alive: Seq<bool>, s: Seq<BroadEntry>, i: int, j: int)
    requires
        entries_alive(n, alive, s),
        distinct_entities(s),
        0 <= i < s.len(),
        i < j,
    ensures
        forall|k: int|
            0 <= k < rough_row(s, i, j).len() ==> pair_ok(n, alive, #[trigger] rough_row(s, i, j)[k]),
    decreases s.len() - j,
{
    if j < s.len() {
        lemma_rough_row_ok(n, alive, s, i, j + 1);
        let rest = rough_row(s, i, j + 1);
        if entry_overlap(s[i], s[j]) {
            let row = rough_row(s, i, j);
            assert(row == seq![pair_of(s[i], s[j])] + rest);
            assert forall|k: int| 0 <= k < row.len() implies pair_ok(n, alive, #[trigger] row[k]) by {
                if k == 0 {
                    assert(row[0] == pair_of(s[i], s[j]));
                } else {
                    assert(row[k] == rest[k - 1]);
                }
            }
        }
    }
}

proof fn lemma_rough_scan_ok(n: nat, alive: Seq<bool>, s: Seq<BroadEntry>, i: int)
    requires
        entries_alive(n, alive, s),
        distinct_entities(s),
        0 <= i,
    ensures
        forall|k: int|
            0 <= k < rough_scan(s, i).len() ==> pair_ok(n, alive, #[trigger] rough_scan(s, i)[k]),
    decreases s.len() - i,
{
    if i < s.len() {
        lemma_rough_row_ok(n, alive, s, i, i + 1);
        lemma_rough_scan_ok(n, alive, s, i + 1);
        let row = rough_row(s, i, i + 1);
        let rest = rough_scan(s, i + 1);
        let scan = rough_scan(s, i);
        assert(scan == row + rest);
        assert forall|k: int| 0 <= k < scan.len() implies pair_ok(n, alive, #[trigger] scan[k]) by {
            if k < row.len() {
                assert(scan[k] == row[k]);
            } else {
                assert(scan[k] == rest[k - row.len()]);
            }
        }
    }
}

/// Candidate pairs only ever relate two distinct live entities: the
/// all-pairs specification (and so the sweep, which equals it on sorted
/// input) emits no self pair and no dead handle.
pub proof fn lemma_rough_pairs_ok(n: nat, alive: Seq<bool>, s: Seq<BroadEntry>)
    requires
        entries_alive(n, alive, s),
        distinct_entities(s),
    ensures
        forall|k: int|
            0 <= k < rough_pairs_spec(s).len() ==> pair_ok(
                n,
                alive,
                #[trigger] rough_pairs_spec(s)[k],
            ),
{
    lemma_rough_scan_ok(n, alive, s, 0);
}

} // verus!
