//! Picking up items: which entity collects which pickup when their
//! interaction bounds overlap.

use vstd::prelude::*;
use crate::rules::EntityId;

verus! {

/// An axis-aligned box in world pixels: its top-left corner and its size.
#[derive(Debug, Clone, Copy, PartialEq, Eq, Structural)]
pub struct Bounds {
    pub x: i32,
    pub y: i32,
    pub width: u32,
    pub height: u32,
}

/// Two boxes overlap when they share interior: boxes that only touch at an
/// edge do not.
pub open spec fn overlaps(a: Bounds, b: Bounds) -> bool {
    &&& a.x < b.x + b.width
    &&& b.x < a.x + a.width
    &&& a.y < b.y + b.height
    &&& b.y < a.y + a.height
}

/// Whether two boxes overlap (strict intersection).
pub fn aabb_overlap(a: Bounds, b: Bounds) -> (r: bool)
    ensures
        r == overlaps(a, b),
{
    let ax = a.x as i64;
    let ay = a.y as i64;
    let bx = b.x as i64;
    let by = b.y as i64;
    ax < bx + b.width as i64 && bx < ax + a.width as i64 && ay < by + b.height as i64 && by < ay + a.height as i64
}

/// An active entity that holds an inventory, with its interaction bounds.
#[derive(Debug, Clone, Copy, PartialEq, Eq, Structural)]
pub struct PickupCollector {
    pub entity_id: EntityId,
    pub bounds: Bounds,
}

/// An entity with a pickup component: whether it is active, its
/// interaction bounds, and the items it gives.
#[derive(Debug, Clone, PartialEq, Eq)]
pub struct PickupCandidate {
    pub entity_id: EntityId,
    pub active: bool,
    pub bounds: Bounds,
    pub item_id: String,
    pub count: u32,
}

/// One pickup collected: the collector gains `count` of `item_id` and the
/// pickup entity goes away.
#[derive(Debug, Clone, PartialEq, Eq)]
pub struct PickupCollection {
    pub collector_id: EntityId,
    pub pickup_id: EntityId,
    pub item_id: String,
    pub count: u32,
}

/// A pickup can be collected: it is active and gives at least one item of
/// a named kind.
pub open spec fn collectable(p: PickupCandidate) -> bool {
    p.active && p.count > 0 && p.item_id@.len() > 0
}

/// Some collector overlaps the pickup.
pub open spec fn reached(collectors: Seq<PickupCollector>, p: PickupCandidate) -> bool {
    exists|i: int| 0 <= i < collectors.len() && overlaps(#[trigger] collectors[i].bounds, p.bounds)
}

/// `e` collects pickup `p` by a collector that overlaps it.
pub open spec fn collects(e: PickupCollection, collectors: Seq<PickupCollector>, p: PickupCandidate) -> bool {
    &&& e.pickup_id == p.entity_id
    &&& collectable(p)
    &&& e.item_id@ == p.item_id@
    &&& e.count == p.count
    &&& exists|i: int| 0 <= i < collectors.len() && (#[trigger] collectors[i]).entity_id == e.collector_id
        && overlaps(collectors[i].bounds, p.bounds)
}

/// `e` collects one of the first `n` pickups.
pub open spec fn collects_one_of(e: PickupCollection, collectors: Seq<PickupCollector>, pickups: Seq<PickupCandidate>, n: int) -> bool {
    exists|m: int| 0 <= m < n && #[trigger] collects(e, collectors, pickups[m])
}

/// The collections come in strictly increasing pickup id.
pub open spec fn ids_increasing(s: Seq<PickupCollection>) -> bool {
    forall|i: int, j: int| 0 <= i < j < s.len() ==> (#[trigger] s[i]).pickup_id < (#[trigger] s[j]).pickup_id
}

fn first_overlapping(collectors: &Vec<PickupCollector>, b: Bounds) -> (r: Option<usize>)
    ensures
        r matches Some(i) ==> i < collectors@.len() && overlaps(collectors@[i as int].bounds, b),
        r is None ==> forall|i: int| 0 <= i < collectors@.len() ==> !overlaps(#[trigger] collectors@[i].bounds, b),
{
    let mut i: usize = 0;
    while i < collectors.len()
        invariant
            i <= collectors@.len(),
            forall|k: int| 0 <= k < i ==> !overlaps(#[trigger] collectors@[k].bounds, b),
        decreases collectors.len() - i,
    {
        if aabb_overlap(collectors[i].bounds, b) {
            return Some(i);
        }
        i = i + 1;
    }
    None
}

/// Which pickups are collected and by whom: every active pickup that gives
/// items and overlaps some collector is collected once, by a collector
/// that overlaps it, and the collections come in increasing pickup id.
pub fn plan_overlapping_pickups(collectors: &Vec<PickupCollector>, pickups: &Vec<PickupCandidate>) -> (plan: Vec<PickupCollection>)
    ensures
        ids_increasing(plan@),
        forall|k: int| 0 <= k < plan@.len() ==>
            collects_one_of(#[trigger] plan@[k], collectors@, pickups@, pickups@.len() as int),
        forall|j: int| 0 <= j < pickups@.len() && collectable(pickups@[j]) && reached(collectors@, pickups@[j]) ==>
            exists|k: int| 0 <= k < plan@.len() && (#[trigger] plan@[k]).pickup_id == pickups@[j].entity_id,
{
    let mut plan: Vec<PickupCollection> = Vec::new();
    let mut j: usize = 0;
    while j < pickups.len()
        invariant
            j <= pickups@.len(),
            ids_increasing(plan@),
            forall|k: int| 0 <= k < plan@.len() ==>
                collects_one_of(#[trigger] plan@[k], collectors@, pickups@, j as int),
            forall|m: int| 0 <= m < j && collectable(pickups@[m]) && reached(collectors@, pickups@[m]) ==>
                exists|k: int| 0 <= k < plan@.len() && (#[trigger] plan@[k]).pickup_id == pickups@[m].entity_id,
        decreases pickups.len() - j,
    {
        let p = &pickups[j];
        if p.active && p.count > 0 && p.item_id.as_str().unicode_len() > 0 {
            match first_overlapping(collectors, p.bounds) {
                Some(i) => {
                    let entry = PickupCollection {
                        collector_id: collectors[i].entity_id,
                        pickup_id: p.entity_id,
                        item_id: p.item_id.clone(),
                        count: p.count,
                    };
                    assert(collects(entry, collectors@, pickups@[j as int]));
                    insert_collection(&mut plan, entry, Ghost(collectors@), Ghost(pickups@), Ghost(j as int));
                },
                None => {
                    assert(!reached(collectors@, pickups@[j as int]));
                },
            }
        }
        j = j + 1;
    }
    plan
}

/// Adds `entry` to a plan kept in increasing pickup id, unless its pickup
/// is planned already.
fn insert_collection(
    plan: &mut Vec<PickupCollection>,
    entry: PickupCollection,
    Ghost(collectors): Ghost<Seq<PickupCollector>>,
    Ghost(pickups): Ghost<Seq<PickupCandidate>>,
    Ghost(j): Ghost<int>,
)
    requires
        0 <= j < pickups.len(),
        ids_increasing(old(plan)@),
        collects(entry, collectors, pickups[j]),
        forall|k: int| 0 <= k < old(plan)@.len() ==>
            collects_one_of(#[trigger] old(plan)@[k], collectors, pickups, j),
    ensures
        ids_increasing(final(plan)@),
        forall|k: int| 0 <= k < final(plan)@.len() ==>
            collects_one_of(#[trigger] final(plan)@[k], collectors, pickups, j + 1),
        exists|k: int| 0 <= k < final(plan)@.len() && (#[trigger] final(plan)@[k]).pickup_id == entry.pickup_id,
        forall|k: int| #![trigger old(plan)@[k]] 0 <= k < old(plan)@.len() ==>
            exists|n: int| 0 <= n < final(plan)@.len() && (#[trigger] final(plan)@[n]).pickup_id == old(plan)@[k].pickup_id,
{
    let mut p: usize = 0;
    while p < plan.len() && plan[p].pickup_id < entry.pickup_id
        invariant
            p <= plan@.len(),
            forall|k: int| 0 <= k < p ==> (#[trigger] plan@[k]).pickup_id < entry.pickup_id,
        decreases plan.len() - p,
    {
        p = p + 1;
    }
    let ghost before = plan@;
    if p < plan.len() && plan[p].pickup_id == entry.pickup_id {
        assert(before[p as int].pickup_id == entry.pickup_id);
        assert forall|k: int| 0 <= k < before.len() implies
            collects_one_of(#[trigger] before[k], collectors, pickups, j + 1) by {
            let m = choose|m: int| 0 <= m < j && collects(before[k], collectors, pickups[m]);
            assert(collects(before[k], collectors, pickups[m]));
        }
        return;
    }
    let ghost id = entry.pickup_id;
    plan.insert(p, entry);
    let ghost after = plan@;
    assert(after == before.insert(p as int, entry));
    assert forall|a: int, b: int| 0 <= a < b < after.len() implies (#[trigger] after[a]).pickup_id < (#[trigger] after[b]).pickup_id by {
        if b < p {
            assert(after[a] == before[a] && after[b] == before[b]);
        } else if b == p {
            assert(after[a] == before[a]);
        } else if a < p {
            assert(after[a] == before[a] && after[b] == before[b - 1]);
            assert(before[p as int].pickup_id > id);
            if b - 1 > p {
                assert(before[p as int].pickup_id < before[b - 1].pickup_id);
            }
        } else if a == p {
            assert(after[b] == before[b - 1]);
            assert(before[p as int].pickup_id > id);
            if b - 1 > p {
                assert(before[p as int].pickup_id < before[b - 1].pickup_id);
            }
        } else {
            assert(after[a] == before[a - 1] && after[b] == before[b - 1]);
        }
    }
    assert forall|k: int| 0 <= k < after.len() implies
        collects_one_of(#[trigger] after[k], collectors, pickups, j + 1) by {
        if k < p {
            assert(after[k] == before[k]);
            let m = choose|m: int| 0 <= m < j && collects(before[k], collectors, pickups[m]);
            assert(collects(after[k], collectors, pickups[m]));
        } else if k == p {
            assert(collects(after[k], collectors, pickups[j]));
        } else {
            assert(after[k] == before[k - 1]);
            let m = choose|m: int| 0 <= m < j && collects(before[k - 1], collectors, pickups[m]);
            assert(collects(after[k], collectors, pickups[m]));
        }
    }
    assert(after[p as int].pickup_id == id);
    assert forall|k: int| #![trigger before[k]] 0 <= k < before.len() implies
        exists|n: int| 0 <= n < after.len() && (#[trigger] after[n]).pickup_id == before[k].pickup_id by {
        if k < p {
            assert(after[k] == before[k]);
        } else {
            assert(after[k + 1] == before[k]);
        }
    }
}

} // verus!
