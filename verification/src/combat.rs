//! Projectiles of the primary action: where one is spawned, what it hits,
//! and how each tick moves, expires or spends it.

use vstd::prelude::*;
use crate::interaction::{aabb_overlap, overlaps, Bounds};
use crate::rules::EntityId;

verus! {

/// The direction an entity faces.
#[derive(Debug, Clone, Copy, PartialEq, Eq, Structural)]
pub enum FacingDirection {
    Down,
    Up,
    Left,
    Right,
}

/// The unit step of a facing in screen coordinates, where y grows down.
pub open spec fn facing_step(facing: FacingDirection) -> (int, int) {
    match facing {
        FacingDirection::Down => (0, 1),
        FacingDirection::Up => (0, -1),
        FacingDirection::Left => (-1, 0),
        FacingDirection::Right => (1, 0),
    }
}

/// The unit step of a facing.
pub fn facing_vector(facing: FacingDirection) -> (r: [i32; 2])
    ensures
        r@[0] == facing_step(facing).0,
        r@[1] == facing_step(facing).1,
{
    match facing {
        FacingDirection::Down => [0, 1],
        FacingDirection::Up => [0, -1],
        FacingDirection::Left => [-1, 0],
        FacingDirection::Right => [1, 0],
    }
}

/// A `u32` read as the `i32` with the same bits.
pub open spec fn as_signed(v: u32) -> int {
    if v <= 0x7fff_ffff { v as int } else { v - 0x1_0000_0000 }
}

/// `v` fits in an `i32`.
pub open spec fn in_i32(v: int) -> bool {
    i32::MIN <= v <= i32::MAX
}

fn to_signed(v: u32) -> (r: i32)
    ensures
        r == as_signed(v),
{
    if v <= 0x7fff_ffff {
        v as i32
    } else {
        (v as i64 - 0x1_0000_0000i64) as i32
    }
}

/// `step * as_signed(v)` for a unit step, or `None` where it leaves `i32`.
fn scaled_step(step: i32, v: u32) -> (r: Option<i32>)
    requires
        -1 <= step <= 1,
    ensures
        r matches Some(x) ==> x == step * as_signed(v),
        r is None <==> !in_i32(step * as_signed(v)),
{
    let s = to_signed(v);
    let ghost sv = as_signed(v);
    assert(step == 0 ==> step * sv == 0) by (nonlinear_arith);
    assert(step == 1 ==> step * sv == sv) by (nonlinear_arith);
    assert(step == -1 ==> step * sv == -sv) by (nonlinear_arith);
    if step == 0 {
        Some(0)
    } else if step == 1 {
        Some(s)
    } else if s == i32::MIN {
        None
    } else {
        Some(-s)
    }
}

/// What an entity's primary action fires.
#[derive(Debug, Clone, PartialEq, Eq)]
pub struct PrimaryProjectileSpec {
    pub sheet: String,
    pub object_name: String,
    pub size: [u32; 2],
    pub spawn_offset: [i32; 2],
    pub speed: u32,
    pub lifetime_ticks: u32,
    pub damage: i32,
}

/// A projectile in flight: what it looks like, how it moves, how long it
/// lasts, what it deals and who fired it.
#[derive(Debug, Clone, PartialEq, Eq)]
pub struct ProjectileState {
    pub sheet: String,
    pub object_name: String,
    pub size: [u32; 2],
    pub velocity: [i32; 2],
    pub remaining_ticks: u32,
    pub damage: i32,
    pub owner_id: Option<EntityId>,
}

/// A projectile entity to spawn: a visible projectile of the given size at
/// the given position, with a solid collision box of that size.
#[derive(Debug, Clone, PartialEq, Eq)]
pub struct ProjectileSpawn {
    pub position: [i32; 2],
    pub size: [u32; 2],
    pub projectile: ProjectileState,
}

/// A spec fires something: it has an area and a lifetime.
pub open spec fn fires(spec: PrimaryProjectileSpec) -> bool {
    spec.size@[0] != 0 && spec.size@[1] != 0 && spec.lifetime_ticks != 0
}

/// Where a projectile appears along one axis: the attacker's position,
/// the spec's offset, and one attacker size in the facing direction.
pub open spec fn spawn_coordinate(position: i32, offset: i32, step: int, size: u32) -> int {
    position + offset + step * as_signed(size)
}

/// Spawning along one axis stays within `i32` at every step.
pub open spec fn spawn_axis_fits(position: i32, offset: i32, step: int, size: u32) -> bool {
    &&& in_i32(position + offset)
    &&& in_i32(step * as_signed(size))
    &&& in_i32(spawn_coordinate(position, offset, step, size))
}

/// The velocity along one axis: the speed in the facing direction.
pub open spec fn velocity_fits(step: int, speed: u32) -> bool {
    in_i32(step * as_signed(speed))
}

/// Every sum of spawning a projectile stays within `i32`.
pub open spec fn spawn_fits(
    position: [i32; 2],
    size: [u32; 2],
    spec: PrimaryProjectileSpec,
    facing: FacingDirection,
) -> bool {
    &&& spawn_axis_fits(position@[0], spec.spawn_offset@[0], facing_step(facing).0, size@[0])
    &&& spawn_axis_fits(position@[1], spec.spawn_offset@[1], facing_step(facing).1, size@[1])
    &&& velocity_fits(facing_step(facing).0, spec.speed)
    &&& velocity_fits(facing_step(facing).1, spec.speed)
}

/// The projectile that an attacker at `position` with `size`, facing
/// `facing`, fires with `spec`: none where the spec has no area or no
/// lifetime; else one at the spawn coordinates, moving at the spec's speed
/// in the facing direction, with the spec's lifetime, its damage floored at
/// zero, and the attacker as owner.
pub fn spawn_primary_projectile(
    attacker_id: EntityId,
    position: [i32; 2],
    size: [u32; 2],
    spec: &PrimaryProjectileSpec,
    facing: FacingDirection,
) -> (r: Option<ProjectileSpawn>)
    requires
        fires(*spec) ==> spawn_fits(position, size, *spec, facing),
    ensures
        r is None <==> !fires(*spec),
        r matches Some(s) ==> {
            &&& s.position@[0] == spawn_coordinate(position@[0], spec.spawn_offset@[0], facing_step(facing).0, size@[0])
            &&& s.position@[1] == spawn_coordinate(position@[1], spec.spawn_offset@[1], facing_step(facing).1, size@[1])
            &&& s.size == spec.size
            &&& s.projectile.sheet@ == spec.sheet@
            &&& s.projectile.object_name@ == spec.object_name@
            &&& s.projectile.size == spec.size
            &&& s.projectile.velocity@[0] == facing_step(facing).0 * as_signed(spec.speed)
            &&& s.projectile.velocity@[1] == facing_step(facing).1 * as_signed(spec.speed)
            &&& s.projectile.remaining_ticks == spec.lifetime_ticks
            &&& s.projectile.damage == (if spec.damage < 0 { 0 } else { spec.damage })
            &&& s.projectile.owner_id == Some(attacker_id)
        },
{
    if spec.size[0] == 0 || spec.size[1] == 0 || spec.lifetime_ticks == 0 {
        return None;
    }
    let step = facing_vector(facing);
    let along_x = scaled_step(step[0], size[0]);
    let along_y = scaled_step(step[1], size[1]);
    let speed_x = scaled_step(step[0], spec.speed);
    let speed_y = scaled_step(step[1], spec.speed);
    match (along_x, along_y, speed_x, speed_y) {
        (Some(ax), Some(ay), Some(vx), Some(vy)) => {
            let x = position[0] + spec.spawn_offset[0] + ax;
            let y = position[1] + spec.spawn_offset[1] + ay;
            let damage = if spec.damage < 0 { 0 } else { spec.damage };
            Some(ProjectileSpawn {
                position: [x, y],
                size: spec.size,
                projectile: ProjectileState {
                    sheet: spec.sheet.clone(),
                    object_name: spec.object_name.clone(),
                    size: spec.size,
                    velocity: [vx, vy],
                    remaining_ticks: spec.lifetime_ticks,
                    damage,
                    owner_id: Some(attacker_id),
                },
            })
        },
        _ => None,
    }
}

/// An entity a projectile may strike: whether it is active, whether it has
/// health, whether it is itself a projectile, and its interaction bounds.
#[derive(Debug, Clone, Copy, PartialEq, Eq, Structural)]
pub struct HitCandidate {
    pub entity_id: EntityId,
    pub active: bool,
    pub has_health: bool,
    pub is_projectile: bool,
    pub bounds: Bounds,
}

/// `t` is struck by the projectile `projectile_id` of `owner_id` at
/// `bounds`: it is another active entity with health, not the owner and not
/// a projectile, and the bounds overlap.
pub open spec fn strikes(t: HitCandidate, projectile_id: EntityId, owner_id: Option<EntityId>, bounds: Bounds) -> bool {
    &&& t.entity_id != projectile_id
    &&& owner_id != Some(t.entity_id)
    &&& t.active
    &&& t.has_health
    &&& !t.is_projectile
    &&& overlaps(bounds, t.bounds)
}

/// The struck entity with the smallest id, if any.
pub open spec fn first_struck(
    targets: Seq<HitCandidate>,
    projectile_id: EntityId,
    owner_id: Option<EntityId>,
    bounds: Bounds,
) -> Option<EntityId>
    decreases targets.len(),
{
    if targets.len() == 0 {
        None
    } else {
        let rest = first_struck(targets.drop_last(), projectile_id, owner_id, bounds);
        let t = targets.last();
        if strikes(t, projectile_id, owner_id, bounds) {
            match rest {
                Some(id) => if id <= t.entity_id { Some(id) } else { Some(t.entity_id) },
                None => Some(t.entity_id),
            }
        } else {
            rest
        }
    }
}

/// The entity that a projectile at `bounds` strikes: of those it strikes,
/// the one with the smallest id.
pub fn projectile_hit_target(
    projectile_id: EntityId,
    owner_id: Option<EntityId>,
    bounds: Bounds,
    targets: &Vec<HitCandidate>,
) -> (r: Option<EntityId>)
    ensures
        r == first_struck(targets@, projectile_id, owner_id, bounds),
{
    let mut best: Option<EntityId> = None;
    let mut i: usize = 0;
    while i < targets.len()
        invariant
            i <= targets@.len(),
            best == first_struck(targets@.subrange(0, i as int), projectile_id, owner_id, bounds),
        decreases targets.len() - i,
    {
        let t = targets[i];
        assert(targets@.subrange(0, i + 1).drop_last() == targets@.subrange(0, i as int));
        let struck = t.entity_id != projectile_id && owner_id != Some(t.entity_id) && t.active
            && t.has_health && !t.is_projectile && aabb_overlap(bounds, t.bounds);
        if struck {
            best = match best {
                Some(id) => if id <= t.entity_id { Some(id) } else { Some(t.entity_id) },
                None => Some(t.entity_id),
            };
        }
        i = i + 1;
    }
    assert(targets@.subrange(0, targets@.len() as int) == targets@);
    best
}

/// A projectile entity as a tick of flight sees it.
#[derive(Debug, Clone, Copy, PartialEq, Eq)]
pub struct ProjectileMotion {
    pub entity_id: EntityId,
    pub position: [i32; 2],
    pub size: [u32; 2],
    pub velocity: [i32; 2],
    pub remaining_ticks: u32,
    pub damage: i32,
    pub owner_id: Option<EntityId>,
}

/// Damage for the stat system to apply: `amount` to `target_id`, dealt by
/// `source_id`.
#[derive(Debug, Clone, Copy, PartialEq, Eq, Structural)]
pub struct DamageRequest {
    pub target_id: EntityId,
    pub amount: i32,
    pub source_id: Option<EntityId>,
}

/// What one tick does to a projectile.
#[derive(Debug, Clone, Copy, PartialEq, Eq, Structural)]
pub enum ProjectileFate {
    /// It had no lifetime left, and stays where it was.
    ExpiredBeforeMove,
    /// The world did not let it move, and it stays where it was.
    Blocked,
    /// It moved and struck `target_id`, who takes `damage` from `owner_id`.
    Hit { target_id: EntityId, damage: i32, owner_id: Option<EntityId> },
    /// It moved and spent the last of its lifetime.
    ExpiredAfterMove,
    /// It moved and flies on.
    Flying,
}

/// The fate moves the projectile one step.
pub open spec fn fate_moves(fate: ProjectileFate) -> bool {
    !(fate is ExpiredBeforeMove || fate is Blocked)
}

/// The fate removes the projectile from the world.
pub open spec fn fate_despawns(fate: ProjectileFate) -> bool {
    !(fate is Flying)
}

/// Where a projectile moves to along x.
pub open spec fn next_x(p: ProjectileMotion) -> int {
    p.position@[0] + p.velocity@[0]
}

/// Where a projectile moves to along y.
pub open spec fn next_y(p: ProjectileMotion) -> int {
    p.position@[1] + p.velocity@[1]
}

/// Moving by its velocity keeps the projectile within `i32`.
pub open spec fn next_fits(p: ProjectileMotion) -> bool {
    in_i32(next_x(p)) && in_i32(next_y(p))
}

/// The bounds of the projectile after one step.
pub open spec fn next_bounds(p: ProjectileMotion) -> Bounds {
    Bounds { x: next_x(p) as i32, y: next_y(p) as i32, width: p.size@[0], height: p.size@[1] }
}

/// `after` is `before` one step on: moved by its velocity, with one tick
/// of lifetime spent.
pub open spec fn stepped(before: ProjectileMotion, after: ProjectileMotion) -> bool {
    &&& after.position@[0] == next_x(before)
    &&& after.position@[1] == next_y(before)
    &&& after.remaining_ticks == before.remaining_ticks - 1
    &&& after.entity_id == before.entity_id
    &&& after.size == before.size
    &&& after.velocity == before.velocity
    &&& after.damage == before.damage
    &&& after.owner_id == before.owner_id
}

/// What a tick does to `p`, where `may_move` is whether the world lets it
/// move to its next position: with no lifetime left it expires; where it
/// cannot move it is blocked; else it moves, strikes the entity that
/// `first_struck` gives at its new bounds, dealing its damage floored at
/// zero, or else expires if that was its last tick, or flies on.
pub open spec fn projectile_fate(p: ProjectileMotion, may_move: bool, targets: Seq<HitCandidate>) -> ProjectileFate {
    if p.remaining_ticks == 0 {
        ProjectileFate::ExpiredBeforeMove
    } else if !may_move {
        ProjectileFate::Blocked
    } else {
        match first_struck(targets, p.entity_id, p.owner_id, next_bounds(p)) {
            Some(t) => ProjectileFate::Hit {
                target_id: t,
                damage: if p.damage < 0 { 0 } else { p.damage },
                owner_id: p.owner_id,
            },
            None => if p.remaining_ticks == 1 {
                ProjectileFate::ExpiredAfterMove
            } else {
                ProjectileFate::Flying
            },
        }
    }
}

/// A projectile that the world lets move and that strikes nothing flies on
/// until the tick that spends its last lifetime, and expires on that tick.
pub proof fn law_free_flight_lasts_its_lifetime(p: ProjectileMotion)
    requires
        p.remaining_ticks > 0,
    ensures
        projectile_fate(p, true, Seq::empty()) == (if p.remaining_ticks == 1 {
            ProjectileFate::ExpiredAfterMove
        } else {
            ProjectileFate::Flying
        }),
{
}

proof fn lemma_first_struck_picks_least(
    targets: Seq<HitCandidate>,
    projectile_id: EntityId,
    owner_id: Option<EntityId>,
    bounds: Bounds,
    i: int,
)
    requires
        0 <= i < targets.len(),
        strikes(targets[i], projectile_id, owner_id, bounds),
    ensures
        first_struck(targets, projectile_id, owner_id, bounds) matches Some(id) && id <= targets[i].entity_id
            && exists|j: int| 0 <= j < targets.len() && targets[j].entity_id == id
                && strikes(#[trigger] targets[j], projectile_id, owner_id, bounds),
    decreases targets.len(),
{
    let rest = targets.drop_last();
    let last = targets.len() - 1;
    if i < last {
        lemma_first_struck_picks_least(rest, projectile_id, owner_id, bounds, i);
        let id = first_struck(rest, projectile_id, owner_id, bounds).unwrap();
        let j = choose|j: int| 0 <= j < rest.len() && rest[j].entity_id == id
            && strikes(#[trigger] rest[j], projectile_id, owner_id, bounds);
        assert(targets[j] == rest[j]);
        assert(rest[i] == targets[i]);
        if strikes(targets[last], projectile_id, owner_id, bounds) && targets[last].entity_id < id {
            assert(targets[last].entity_id == targets[last].entity_id);
        }
    } else {
        match first_struck(rest, projectile_id, owner_id, bounds) {
            Some(id) => {
                lemma_first_struck_is_struck(rest, projectile_id, owner_id, bounds);
                let j = choose|j: int| 0 <= j < rest.len() && rest[j].entity_id == id
                    && strikes(#[trigger] rest[j], projectile_id, owner_id, bounds);
                assert(targets[j] == rest[j]);
            },
            None => {},
        }
    }
}

proof fn lemma_first_struck_is_struck(
    targets: Seq<HitCandidate>,
    projectile_id: EntityId,
    owner_id: Option<EntityId>,
    bounds: Bounds,
)
    ensures
        first_struck(targets, projectile_id, owner_id, bounds) matches Some(id) ==>
            exists|j: int| 0 <= j < targets.len() && targets[j].entity_id == id
                && strikes(#[trigger] targets[j], projectile_id, owner_id, bounds),
    decreases targets.len(),
{
    if targets.len() > 0 {
        let rest = targets.drop_last();
        lemma_first_struck_is_struck(rest, projectile_id, owner_id, bounds);
        if let Some(id) = first_struck(rest, projectile_id, owner_id, bounds) {
            let j = choose|j: int| 0 <= j < rest.len() && rest[j].entity_id == id
                && strikes(#[trigger] rest[j], projectile_id, owner_id, bounds);
            assert(targets[j] == rest[j]);
        }
    }
}

/// A projectile with lifetime left that the world lets move, and whose new
/// bounds strike some eligible entity, hits: on any tick, its last one
/// included, it deals its damage floored at zero, as its owner's, to a
/// struck entity with an id no greater than that of any struck entity.
pub proof fn law_struck_target_is_hit(p: ProjectileMotion, targets: Seq<HitCandidate>, i: int)
    requires
        p.remaining_ticks > 0,
        0 <= i < targets.len(),
        targets[i].entity_id != p.entity_id,
        p.owner_id != Some(targets[i].entity_id),
        targets[i].active,
        targets[i].has_health,
        !targets[i].is_projectile,
        overlaps(
            Bounds {
                x: (p.position@[0] + p.velocity@[0]) as i32,
                y: (p.position@[1] + p.velocity@[1]) as i32,
                width: p.size@[0],
                height: p.size@[1],
            },
            targets[i].bounds,
        ),
    ensures
        projectile_fate(p, true, targets) matches ProjectileFate::Hit { target_id, damage, owner_id }
            && damage == (if p.damage < 0 { 0 } else { p.damage })
            && damage >= 0
            && owner_id == p.owner_id
            && target_id <= targets[i].entity_id
            && exists|j: int| 0 <= j < targets.len() && targets[j].entity_id == target_id
                && targets[j].entity_id != p.entity_id && p.owner_id != Some(targets[j].entity_id)
                && targets[j].active && targets[j].has_health && !targets[j].is_projectile,
{
    lemma_first_struck_picks_least(targets, p.entity_id, p.owner_id, next_bounds(p), i);
}

/// One tick of one projectile.
pub fn advance_projectile(p: &mut ProjectileMotion, may_move: bool, targets: &Vec<HitCandidate>) -> (fate: ProjectileFate)
    requires
        old(p).remaining_ticks > 0 ==> next_fits(*old(p)),
    ensures
        fate == projectile_fate(*old(p), may_move, targets@),
        may_move && old(p).remaining_ticks > 0
            && (exists|i: int| 0 <= i < targets@.len() && strikes(#[trigger] targets@[i], old(p).entity_id, old(p).owner_id, next_bounds(*old(p))))
            ==> fate is Hit,
        fate_moves(fate) ==> stepped(*old(p), *final(p)),
        !fate_moves(fate) ==> *final(p) == *old(p),
{
    proof {
        if may_move && p.remaining_ticks > 0 {
            if exists|i: int| 0 <= i < targets@.len() && strikes(#[trigger] targets@[i], p.entity_id, p.owner_id, next_bounds(*p)) {
                let i = choose|i: int| 0 <= i < targets@.len() && strikes(#[trigger] targets@[i], p.entity_id, p.owner_id, next_bounds(*p));
                lemma_first_struck_picks_least(targets@, p.entity_id, p.owner_id, next_bounds(*p), i);
            }
        }
    }
    if p.remaining_ticks == 0 {
        return ProjectileFate::ExpiredBeforeMove;
    }
    if !may_move {
        return ProjectileFate::Blocked;
    }
    let x = p.position[0] + p.velocity[0];
    let y = p.position[1] + p.velocity[1];
    p.position = [x, y];
    p.remaining_ticks = p.remaining_ticks - 1;
    let bounds = Bounds { x, y, width: p.size[0], height: p.size[1] };
    match projectile_hit_target(p.entity_id, p.owner_id, bounds, targets) {
        Some(t) => ProjectileFate::Hit {
            target_id: t,
            damage: if p.damage < 0 { 0 } else { p.damage },
            owner_id: p.owner_id,
        },
        None => if p.remaining_ticks == 0 {
            ProjectileFate::ExpiredAfterMove
        } else {
            ProjectileFate::Flying
        },
    }
}

/// The damage that the first `n` projectiles deal, in their order.
pub open spec fn damage_dealt(
    projectiles: Seq<ProjectileMotion>,
    may_move: Seq<bool>,
    targets: Seq<HitCandidate>,
    n: int,
) -> Seq<DamageRequest>
    decreases n,
{
    if n <= 0 {
        Seq::empty()
    } else {
        let earlier = damage_dealt(projectiles, may_move, targets, n - 1);
        match projectile_fate(projectiles[n - 1], may_move[n - 1], targets) {
            ProjectileFate::Hit { target_id, damage, owner_id } =>
                earlier.push(DamageRequest { target_id, amount: damage, source_id: owner_id }),
            _ => earlier,
        }
    }
}

/// Each id is less than every id after it.
pub open spec fn strictly_increasing(ids: Seq<EntityId>) -> bool {
    forall|a: int, b: int| 0 <= a < b < ids.len() ==> ids[a] < ids[b]
}

/// What a tick of all projectiles leaves to the rest of the game: the
/// damage to apply, and the projectiles to despawn, in increasing id.
#[derive(Debug, Clone, PartialEq, Eq)]
pub struct ProjectileUpdate {
    pub damage: Vec<DamageRequest>,
    pub despawn_ids: Vec<EntityId>,
}

/// One tick of every active projectile, in order. `may_move[i]` is the
/// world's answer to whether projectile `i` may move to its next position.
/// Each projectile meets its `projectile_fate`; those that move are
/// stepped and the others stay; the damage of every hit is queued in
/// projectile order; every projectile whose fate removes it is despawned
/// once.
pub fn update_projectiles(
    projectiles: &mut Vec<ProjectileMotion>,
    may_move: &Vec<bool>,
    targets: &Vec<HitCandidate>,
) -> (r: ProjectileUpdate)
    requires
        may_move@.len() == old(projectiles)@.len(),
        forall|i: int| 0 <= i < old(projectiles)@.len() && (#[trigger] old(projectiles)@[i]).remaining_ticks > 0
            ==> next_fits(old(projectiles)@[i]),
    ensures
        final(projectiles)@.len() == old(projectiles)@.len(),
        forall|i: int| 0 <= i < old(projectiles)@.len() ==> {
            let fate = projectile_fate(old(projectiles)@[i], may_move@[i], targets@);
            &&& fate_moves(fate) ==> stepped(old(projectiles)@[i], #[trigger] final(projectiles)@[i])
            &&& !fate_moves(fate) ==> final(projectiles)@[i] == old(projectiles)@[i]
        },
        r.damage@ == damage_dealt(old(projectiles)@, may_move@, targets@, old(projectiles)@.len() as int),
        strictly_increasing(r.despawn_ids@),
        forall|id: EntityId| r.despawn_ids@.contains(id) <==> exists|i: int| 0 <= i < old(projectiles)@.len()
            && (#[trigger] old(projectiles)@[i]).entity_id == id
            && fate_despawns(projectile_fate(old(projectiles)@[i], may_move@[i], targets@)),
{
    let ghost start = projectiles@;
    let mut damage: Vec<DamageRequest> = Vec::new();
    let mut despawn_ids: Vec<EntityId> = Vec::new();
    let mut i: usize = 0;
    while i < projectiles.len()
        invariant
            i <= projectiles@.len(),
            projectiles@.len() == start.len(),
            may_move@.len() == start.len(),
            forall|k: int| i <= k < start.len() ==> projectiles@[k] == start[k],
            forall|k: int| 0 <= k < start.len() && (#[trigger] start[k]).remaining_ticks > 0 ==> next_fits(start[k]),
            forall|k: int| 0 <= k < i ==> {
                let fate = projectile_fate(start[k], may_move@[k], targets@);
                &&& fate_moves(fate) ==> stepped(start[k], #[trigger] projectiles@[k])
                &&& !fate_moves(fate) ==> projectiles@[k] == start[k]
            },
            damage@ == damage_dealt(start, may_move@, targets@, i as int),
            strictly_increasing(despawn_ids@),
            forall|id: EntityId| despawn_ids@.contains(id) <==> exists|k: int| 0 <= k < i
                && (#[trigger] start[k]).entity_id == id
                && fate_despawns(projectile_fate(start[k], may_move@[k], targets@)),
        decreases start.len() - i,
    {
        let mut p = projectiles[i];
        let fate = advance_projectile(&mut p, may_move[i], targets);
        projectiles.set(i, p);
        match fate {
            ProjectileFate::Hit { target_id, damage: amount, owner_id } => {
                damage.push(DamageRequest { target_id, amount, source_id: owner_id });
            },
            _ => {},
        }
        let ghost before_ids = despawn_ids@;
        if fate_is_despawn(fate) {
            insert_entity_id(&mut despawn_ids, p.entity_id);
        }
        assert forall|id: EntityId| despawn_ids@.contains(id) <==> exists|k: int| 0 <= k < i + 1
            && (#[trigger] start[k]).entity_id == id
            && fate_despawns(projectile_fate(start[k], may_move@[k], targets@)) by {
            if despawn_ids@.contains(id) && !before_ids.contains(id) {
                assert(start[i as int].entity_id == id);
            }
            if exists|k: int| 0 <= k < i + 1 && (#[trigger] start[k]).entity_id == id
                && fate_despawns(projectile_fate(start[k], may_move@[k], targets@)) {
                let k = choose|k: int| 0 <= k < i + 1 && (#[trigger] start[k]).entity_id == id
                    && fate_despawns(projectile_fate(start[k], may_move@[k], targets@));
                if k < i {
                    assert(before_ids.contains(id));
                }
            }
        }
        i = i + 1;
    }
    ProjectileUpdate { damage, despawn_ids }
}

fn fate_is_despawn(fate: ProjectileFate) -> (r: bool)
    ensures
        r == fate_despawns(fate),
{
    match fate {
        ProjectileFate::Flying => false,
        _ => true,
    }
}

/// Adds `id` to a strictly increasing list, unless it is there already.
pub(crate) fn insert_entity_id(ids: &mut Vec<EntityId>, id: EntityId)
    requires
        strictly_increasing(old(ids)@),
    ensures
        strictly_increasing(final(ids)@),
        forall|x: EntityId| final(ids)@.contains(x) <==> (old(ids)@.contains(x) || x == id),
{
    let mut p: usize = 0;
    while p < ids.len() && ids[p] < id
        invariant
            p <= ids@.len(),
            forall|k: int| 0 <= k < p ==> ids@[k] < id,
        decreases ids.len() - p,
    {
        p = p + 1;
    }
    let ghost before = ids@;
    assert(before == old(ids)@);
    if p < ids.len() && ids[p] == id {
        assert(ids@[p as int] == id);
        assert(before.contains(id));
        return;
    }
    ids.insert(p, id);
    assert(ids@ == before.insert(p as int, id));
    assert forall|a: int, b: int| 0 <= a < b < ids@.len() implies ids@[a] < ids@[b] by {
        if p < before.len() {
            assert(before[p as int] > id);
        }
        if b < p {
        } else if b == p {
        } else if a < p {
            assert(before[p as int] <= before[b - 1]);
        } else if a == p {
            assert(before[p as int] <= before[b - 1]);
        } else {
        }
    }
    assert forall|x: EntityId| ids@.contains(x) <==> (before.contains(x) || x == id) by {
        if ids@.contains(x) {
            let k = choose|k: int| 0 <= k < ids@.len() && ids@[k] == x;
            if k < p {
                assert(before[k] == x);
            } else if k > p {
                assert(before[k - 1] == x);
            }
        }
        if before.contains(x) {
            let k = choose|k: int| 0 <= k < before.len() && before[k] == x;
            if k < p {
                assert(ids@[k] == x);
            } else {
                assert(ids@[k + 1] == x);
            }
        }
        if x == id {
            assert(ids@[p as int] == x);
        }
    }
    assert(forall|x: EntityId| ids@.contains(x) <==> (old(ids)@.contains(x) || x == id));
    assert(strictly_increasing(ids@));
}

} // verus!
