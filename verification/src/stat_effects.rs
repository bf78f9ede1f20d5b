//! The arithmetic of stat effects: capped heals, inventory removals,
//! teleports to tiles, and the events that applied stat changes raise.

use vstd::prelude::*;
use crate::combat::as_signed;
use crate::rules::EntityId;
use crate::text::str_eq;
use crate::combat::strictly_increasing;

verus! {

/// How much of a heal of `amount` is queued for an entity at `current`
/// health out of `max` (a missing stat counting as zero): at most what
/// brings it to `max`, and nothing unless that is positive.
pub open spec fn capped_heal_amount(amount: i32, current: Option<i32>, max: Option<i32>) -> Option<i32> {
    let c: int = match current { Some(v) => v as int, None => 0 };
    let m: int = match max { Some(v) => v as int, None => 0 };
    let capped = if (amount as int) < m - c { amount as int } else { m - c };
    if capped > 0 { Some(capped as i32) } else { None }
}

/// The room left between a health and its maximum fits in `i32`.
pub open spec fn heal_room_fits(current: Option<i32>, max: Option<i32>) -> bool {
    let c: int = match current { Some(v) => v as int, None => 0 };
    let m: int = match max { Some(v) => v as int, None => 0 };
    i32::MIN <= m - c <= i32::MAX
}

/// The heal to queue, if any.
pub fn capped_heal(amount: i32, current: Option<i32>, max: Option<i32>) -> (r: Option<i32>)
    requires
        heal_room_fits(current, max),
    ensures
        r == capped_heal_amount(amount, current, max),
{
    let c: i32 = match current { Some(v) => v, None => 0 };
    let m: i32 = match max { Some(v) => v, None => 0 };
    let room = m - c;
    let capped = if amount < room { amount } else { room };
    if capped > 0 { Some(capped) } else { None }
}

/// What removing `count` of an item from a stack of `available` leaves:
/// `None` when nothing is removed, else the new count, where zero means
/// the item leaves the inventory.
pub open spec fn stack_after_removal(available: u32, count: u32) -> Option<u32> {
    let removed = if count < available { count } else { available };
    if removed == 0 { None } else { Some((available - removed) as u32) }
}

/// The stack left after a removal.
pub fn inventory_after_removal(available: u32, count: u32) -> (r: Option<u32>)
    ensures
        r == stack_after_removal(available, count),
{
    let removed = if count < available { count } else { available };
    if removed == 0 { None } else { Some(available - removed) }
}

/// Where an entity teleported to a tile stands: the tile's top-left pixel,
/// each product read as an `i32`.
pub open spec fn tile_position(tile_x: u32, tile_y: u32, tile_size: [u32; 2]) -> (int, int) {
    (as_signed((tile_x * tile_size@[0]) as u32), as_signed((tile_y * tile_size@[1]) as u32))
}

/// The tile's top-left pixel for a teleport.
pub fn teleport_position(tile_x: u32, tile_y: u32, tile_size: [u32; 2]) -> (r: [i32; 2])
    requires
        tile_x * tile_size@[0] <= u32::MAX,
        tile_y * tile_size@[1] <= u32::MAX,
    ensures
        r@[0] == tile_position(tile_x, tile_y, tile_size).0,
        r@[1] == tile_position(tile_x, tile_y, tile_size).1,
{
    let px = tile_x * tile_size[0];
    let py = tile_y * tile_size[1];
    [signed(px), signed(py)]
}

fn signed(v: u32) -> (r: i32)
    ensures
        r == as_signed(v),
{
    if v <= 0x7fff_ffff { v as i32 } else { (v as i64 - 0x1_0000_0000i64) as i32 }
}

/// A change of a stat for the stat system to apply.
#[derive(Debug, Clone, PartialEq, Eq)]
pub struct StatChangeRequest {
    pub target_entity_id: EntityId,
    pub stat_id: String,
    pub delta: i32,
    pub source_entity_id: Option<EntityId>,
}

/// An entity that took damage, and from whom.
#[derive(Debug, Clone, Copy, PartialEq, Eq, Structural)]
pub struct DamageEvent {
    pub victim: EntityId,
    pub attacker: Option<EntityId>,
}

/// An entity that died, and by whom.
#[derive(Debug, Clone, Copy, PartialEq, Eq, Structural)]
pub struct DeathEvent {
    pub victim: EntityId,
    pub attacker: Option<EntityId>,
}

/// What applying the pending stat changes raises: damage and death events
/// in order, and the dead to despawn, in increasing id.
#[derive(Debug, Clone, PartialEq, Eq)]
pub struct StatResolution {
    pub damage_events: Vec<DamageEvent>,
    pub death_events: Vec<DeathEvent>,
    pub despawn_ids: Vec<EntityId>,
}

/// A change that was applied (`applied` gives the stat's new value) to
/// health with a negative delta is damage.
pub open spec fn is_damage(c: StatChangeRequest, applied: Option<i32>, health: Seq<char>) -> bool {
    applied is Some && c.stat_id@ == health && c.delta < 0
}

/// A change that was applied to health and left it at zero or below is a
/// death.
pub open spec fn is_death(c: StatChangeRequest, applied: Option<i32>, health: Seq<char>) -> bool {
    applied matches Some(v) && c.stat_id@ == health && v <= 0
}

/// The damage events of the first `n` changes.
pub open spec fn damage_events(changes: Seq<StatChangeRequest>, applied: Seq<Option<i32>>, health: Seq<char>, n: int) -> Seq<DamageEvent>
    decreases n,
{
    if n <= 0 {
        Seq::empty()
    } else {
        let earlier = damage_events(changes, applied, health, n - 1);
        let c = changes[n - 1];
        if is_damage(c, applied[n - 1], health) {
            earlier.push(DamageEvent { victim: c.target_entity_id, attacker: c.source_entity_id })
        } else {
            earlier
        }
    }
}

/// The death events of the first `n` changes.
pub open spec fn death_events(changes: Seq<StatChangeRequest>, applied: Seq<Option<i32>>, health: Seq<char>, n: int) -> Seq<DeathEvent>
    decreases n,
{
    if n <= 0 {
        Seq::empty()
    } else {
        let earlier = death_events(changes, applied, health, n - 1);
        let c = changes[n - 1];
        if is_death(c, applied[n - 1], health) {
            earlier.push(DeathEvent { victim: c.target_entity_id, attacker: c.source_entity_id })
        } else {
            earlier
        }
    }
}

/// The events that applying `changes` raises, where `applied[i]` is the
/// new value of the stat that change `i` changed, or `None` where the
/// entity or its stat is missing and nothing was applied. Each dead entity
/// is despawned once.
pub fn resolve_pending_stat_changes(
    changes: &Vec<StatChangeRequest>,
    applied: &Vec<Option<i32>>,
    health_stat_id: &str,
) -> (r: StatResolution)
    requires
        applied@.len() == changes@.len(),
    ensures
        r.damage_events@ == damage_events(changes@, applied@, health_stat_id@, changes@.len() as int),
        r.death_events@ == death_events(changes@, applied@, health_stat_id@, changes@.len() as int),
        strictly_increasing(r.despawn_ids@),
        forall|id: EntityId| r.despawn_ids@.contains(id) <==> exists|i: int| 0 <= i < changes@.len()
            && (#[trigger] changes@[i]).target_entity_id == id
            && is_death(changes@[i], applied@[i], health_stat_id@),
{
    let mut damage: Vec<DamageEvent> = Vec::new();
    let mut deaths: Vec<DeathEvent> = Vec::new();
    let mut despawn_ids: Vec<EntityId> = Vec::new();
    let mut i: usize = 0;
    while i < changes.len()
        invariant
            i <= changes@.len(),
            applied@.len() == changes@.len(),
            damage@ == damage_events(changes@, applied@, health_stat_id@, i as int),
            deaths@ == death_events(changes@, applied@, health_stat_id@, i as int),
            strictly_increasing(despawn_ids@),
            forall|id: EntityId| despawn_ids@.contains(id) <==> exists|k: int| 0 <= k < i
                && (#[trigger] changes@[k]).target_entity_id == id
                && is_death(changes@[k], applied@[k], health_stat_id@),
        decreases changes.len() - i,
    {
        let c = &changes[i];
        if let Some(value) = applied[i] {
            let health = str_eq(c.stat_id.as_str(), health_stat_id);
            if health && c.delta < 0 {
                damage.push(DamageEvent { victim: c.target_entity_id, attacker: c.source_entity_id });
            }
            if health && value <= 0 {
                deaths.push(DeathEvent { victim: c.target_entity_id, attacker: c.source_entity_id });
            }
        }
        let ghost before_ids = despawn_ids@;
        let dies = match applied[i] {
            Some(value) => value <= 0 && str_eq(c.stat_id.as_str(), health_stat_id),
            None => false,
        };
        if dies {
            crate::combat::insert_entity_id(&mut despawn_ids, c.target_entity_id);
        }
        assert forall|id: EntityId| despawn_ids@.contains(id) <==> exists|k: int| 0 <= k < i + 1
            && (#[trigger] changes@[k]).target_entity_id == id
            && is_death(changes@[k], applied@[k], health_stat_id@) by {
            if despawn_ids@.contains(id) && !before_ids.contains(id) {
                assert(changes@[i as int].target_entity_id == id);
            }
            if exists|k: int| 0 <= k < i + 1 && (#[trigger] changes@[k]).target_entity_id == id
                && is_death(changes@[k], applied@[k], health_stat_id@) {
                let k = choose|k: int| 0 <= k < i + 1 && (#[trigger] changes@[k]).target_entity_id == id
                    && is_death(changes@[k], applied@[k], health_stat_id@);
                if k < i {
                    assert(before_ids.contains(id));
                }
            }
        }
        i = i + 1;
    }
    StatResolution { damage_events: damage, death_events: deaths, despawn_ids }
}

} // verus!
