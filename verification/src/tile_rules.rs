//! Rules triggered by entities entering and leaving tiles: which rules
//! fire for each transition, in which order, and what they buffer.

use vstd::prelude::*;
use crate::rules::{
    buffered, emits, EntityId, RuleAction, RuleCommand, RuleEngine, TriggerContext,
};
use crate::combat::{as_signed, in_i32};
use crate::order::{chars_lt, lemma_lex_order, lex_lt};
use crate::text::{chars_of, str_eq};
use std::collections::HashMap;

verus! {

/// What starts a tile rule.
#[derive(Debug, Clone, Copy, PartialEq, Eq, Structural)]
pub enum RuleTrigger {
    OnStart,
    OnUpdate,
    OnPlayerMove,
    OnTileEnter { x: u32, y: u32 },
    OnTileExit { x: u32, y: u32 },
}

/// A rule: fired by its trigger when enabled and its conditions pass, at
/// most once over the game where `once` is set, ranked by priority.
#[derive(Debug, PartialEq, Eq)]
pub struct Rule {
    pub id: String,
    pub enabled: bool,
    pub once: bool,
    pub priority: i32,
    pub trigger: RuleTrigger,
    pub actions: Vec<RuleAction>,
}

/// Rule `a` runs before rule `b`: a higher priority first, then the lesser
/// id, then the earlier rule.
pub open spec fn precedes(rules: Seq<Rule>, a: int, b: int) -> bool {
    ||| rules[a].priority > rules[b].priority
    ||| rules[a].priority == rules[b].priority && lex_lt(rules[a].id@, rules[b].id@)
    ||| rules[a].priority == rules[b].priority && rules[a].id@ == rules[b].id@ && a < b
}

fn precedes_exec(rules: &Vec<Rule>, a: usize, b: usize) -> (r: bool)
    requires
        a < rules@.len(),
        b < rules@.len(),
    ensures
        r == precedes(rules@, a as int, b as int),
{
    let ra = &rules[a];
    let rb = &rules[b];
    if ra.priority != rb.priority {
        return ra.priority > rb.priority;
    }
    if chars_lt(&chars_of(ra.id.as_str()), &chars_of(rb.id.as_str())) {
        return true;
    }
    str_eq(ra.id.as_str(), rb.id.as_str()) && a < b
}

/// `x` placed in `ranked` before the first rule it precedes.
pub open spec fn insert_ranked(rules: Seq<Rule>, ranked: Seq<int>, x: int) -> Seq<int>
    decreases ranked.len(),
{
    if ranked.len() == 0 {
        seq![x]
    } else if precedes(rules, x, ranked[0]) {
        seq![x] + ranked
    } else {
        seq![ranked[0]] + insert_ranked(rules, ranked.drop_first(), x)
    }
}

/// The rules `indices` in the order they run.
pub open spec fn ranked(rules: Seq<Rule>, indices: Seq<int>) -> Seq<int>
    decreases indices.len(),
{
    if indices.len() == 0 {
        Seq::empty()
    } else {
        insert_ranked(rules, ranked(rules, indices.drop_last()), indices.last())
    }
}

/// Each rule of `s` runs before every rule after it.
pub open spec fn in_order(rules: Seq<Rule>, s: Seq<int>) -> bool {
    forall|a: int, b: int| 0 <= a < b < s.len() ==> precedes(rules, #[trigger] s[a], #[trigger] s[b])
}

proof fn lemma_precedes_order(rules: Seq<Rule>, a: int, b: int, c: int)
    ensures
        a != b ==> (precedes(rules, a, b) || precedes(rules, b, a)),
        !(precedes(rules, a, b) && precedes(rules, b, a)),
        precedes(rules, a, b) && precedes(rules, b, c) ==> precedes(rules, a, c),
{
    lemma_lex_order(rules[a].id@, rules[b].id@, rules[c].id@);
    lemma_lex_order(rules[a].id@, rules[b].id@, rules[a].id@);
    lemma_lex_order(rules[b].id@, rules[a].id@, rules[b].id@);
    lemma_lex_order(rules[a].id@, rules[c].id@, rules[a].id@);
}

proof fn lemma_insert_ranked(rules: Seq<Rule>, s: Seq<int>, x: int)
    requires
        in_order(rules, s),
        !s.contains(x),
    ensures
        in_order(rules, insert_ranked(rules, s, x)),
        insert_ranked(rules, s, x).len() == s.len() + 1,
        forall|y: int| insert_ranked(rules, s, x).contains(y) <==> (s.contains(y) || y == x),
    decreases s.len(),
{
    let r = insert_ranked(rules, s, x);
    if s.len() == 0 {
        assert(r[0] == x);
    } else if precedes(rules, x, s[0]) {
        assert(r == seq![x] + s);
        assert forall|a: int, b: int| 0 <= a < b < r.len() implies precedes(rules, #[trigger] r[a], #[trigger] r[b]) by {
            if a == 0 {
                if b > 1 {
                    lemma_precedes_order(rules, x, s[0], s[b - 1]);
                }
            } else {
                assert(r[a] == s[a - 1] && r[b] == s[b - 1]);
            }
        }
        assert forall|y: int| r.contains(y) <==> (s.contains(y) || y == x) by {
            if r.contains(y) {
                let k = choose|k: int| 0 <= k < r.len() && r[k] == y;
                if k > 0 {
                    assert(s[k - 1] == y);
                }
            }
            if s.contains(y) {
                let k = choose|k: int| 0 <= k < s.len() && s[k] == y;
                assert(r[k + 1] == y);
            }
            if y == x {
                assert(r[0] == y);
            }
        }
    } else {
        let t = s.drop_first();
        assert forall|a: int, b: int| 0 <= a < b < t.len() implies precedes(rules, #[trigger] t[a], #[trigger] t[b]) by {
            assert(t[a] == s[a + 1] && t[b] == s[b + 1]);
        }
        assert(!t.contains(x)) by {
            if t.contains(x) {
                let k = choose|k: int| 0 <= k < t.len() && t[k] == x;
                assert(s[k + 1] == x);
            }
        }
        lemma_insert_ranked(rules, t, x);
        let u = insert_ranked(rules, t, x);
        assert(r == seq![s[0]] + u);
        assert(s.contains(s[0]));
        lemma_precedes_order(rules, x, s[0], x);
        assert forall|k: int| 0 <= k < u.len() implies precedes(rules, s[0], #[trigger] u[k]) by {
            assert(u.contains(u[k]));
            if u[k] != x {
                assert(t.contains(u[k]));
                let j = choose|j: int| 0 <= j < t.len() && t[j] == u[k];
                assert(s[j + 1] == u[k]);
            }
        }
        assert forall|a: int, b: int| 0 <= a < b < r.len() implies precedes(rules, #[trigger] r[a], #[trigger] r[b]) by {
            if a == 0 {
                assert(r[b] == u[b - 1]);
            } else {
                assert(r[a] == u[a - 1] && r[b] == u[b - 1]);
            }
        }
        assert forall|y: int| r.contains(y) <==> (s.contains(y) || y == x) by {
            if r.contains(y) {
                let k = choose|k: int| 0 <= k < r.len() && r[k] == y;
                if k > 0 {
                    assert(u[k - 1] == y);
                    assert(u.contains(y));
                    if y != x {
                        assert(t.contains(y));
                        let j = choose|j: int| 0 <= j < t.len() && t[j] == y;
                        assert(s[j + 1] == y);
                    }
                }
            }
            if s.contains(y) {
                let k = choose|k: int| 0 <= k < s.len() && s[k] == y;
                if k > 0 {
                    assert(t[k - 1] == y);
                    assert(t.contains(y));
                    assert(u.contains(y));
                    let j = choose|j: int| 0 <= j < u.len() && u[j] == y;
                    assert(r[j + 1] == y);
                } else {
                    assert(r[0] == y);
                }
            }
            if y == x {
                assert(u.contains(x));
                let j = choose|j: int| 0 <= j < u.len() && u[j] == x;
                assert(r[j + 1] == y);
            }
        }
    }
}

proof fn lemma_insert_at_first(rules: Seq<Rule>, s: Seq<int>, x: int, p: int)
    requires
        0 <= p <= s.len(),
        forall|k: int| 0 <= k < p ==> !precedes(rules, x, #[trigger] s[k]),
        p < s.len() ==> precedes(rules, x, s[p]),
    ensures
        insert_ranked(rules, s, x) == s.insert(p, x),
    decreases s.len(),
{
    if s.len() == 0 {
        assert(s.insert(p, x) == seq![x]);
    } else if p == 0 {
        assert(s.insert(0, x) == seq![x] + s);
    } else {
        let t = s.drop_first();
        assert forall|k: int| 0 <= k < p - 1 implies !precedes(rules, x, #[trigger] t[k]) by {
            assert(t[k] == s[k + 1]);
        }
        lemma_insert_at_first(rules, t, x, p - 1);
        assert(s.insert(p, x) == seq![s[0]] + t.insert(p - 1, x));
    }
}

/// Ranking distinct rules puts each before every rule it precedes, and
/// keeps exactly those rules.
pub proof fn law_ranked_in_order(rules: Seq<Rule>, indices: Seq<int>)
    requires
        indices.no_duplicates(),
    ensures
        in_order(rules, ranked(rules, indices)),
        ranked(rules, indices).len() == indices.len(),
        forall|y: int| ranked(rules, indices).contains(y) <==> indices.contains(y),
    decreases indices.len(),
{
    if indices.len() > 0 {
        let earlier = indices.drop_last();
        assert(earlier.no_duplicates()) by {
            assert forall|a: int, b: int| 0 <= a < b < earlier.len() implies earlier[a] != earlier[b] by {
                assert(earlier[a] == indices[a] && earlier[b] == indices[b]);
            }
        }
        law_ranked_in_order(rules, earlier);
        let x = indices.last();
        assert(!ranked(rules, earlier).contains(x)) by {
            if earlier.contains(x) {
                let k = choose|k: int| 0 <= k < earlier.len() && earlier[k] == x;
                assert(indices[k] == indices[indices.len() - 1]);
            }
        }
        lemma_insert_ranked(rules, ranked(rules, earlier), x);
        assert forall|y: int| ranked(rules, indices).contains(y) <==> indices.contains(y) by {
            if earlier.contains(y) {
                let k = choose|k: int| 0 <= k < earlier.len() && earlier[k] == y;
                assert(indices[k] == y);
            }
            if indices.contains(y) && y != x {
                let k = choose|k: int| 0 <= k < indices.len() && indices[k] == y;
                assert(earlier[k] == y);
            }
            assert(indices[indices.len() - 1] == x);
        }
    }
}

/// Rule indices as integers.
pub open spec fn as_ints(v: Seq<usize>) -> Seq<int> {
    v.map_values(|i: usize| i as int)
}

/// Places rule `x` among `order` before the first rule it precedes.
fn insert_ranked_exec(rules: &Vec<Rule>, order: &mut Vec<usize>, x: usize)
    requires
        x < rules@.len(),
        forall|k: int| 0 <= k < old(order)@.len() ==> #[trigger] old(order)@[k] < rules@.len(),
    ensures
        as_ints(final(order)@) == insert_ranked(rules@, as_ints(old(order)@), x as int),
        forall|k: int| 0 <= k < final(order)@.len() ==> #[trigger] final(order)@[k] < rules@.len(),
{
    let mut p: usize = 0;
    while p < order.len() && !precedes_exec(rules, x, order[p])
        invariant
            p <= order@.len(),
            x < rules@.len(),
            forall|k: int| 0 <= k < order@.len() ==> #[trigger] order@[k] < rules@.len(),
            forall|k: int| 0 <= k < p ==> !precedes(rules@, x as int, #[trigger] as_ints(order@)[k]),
        decreases order.len() - p,
    {
        p = p + 1;
    }
    let ghost before = order@;
    proof {
        lemma_insert_at_first(rules@, as_ints(before), x as int, p as int);
    }
    order.insert(p, x);
    assert(as_ints(order@) =~= as_ints(before).insert(p as int, x as int));
}

/// The trigger a tile transition answers to.
pub open spec fn transition_trigger(e: TileTransitionEvent) -> RuleTrigger {
    if e.is_enter {
        RuleTrigger::OnTileEnter { x: e.tile_x, y: e.tile_y }
    } else {
        RuleTrigger::OnTileExit { x: e.tile_x, y: e.tile_y }
    }
}

/// A tile trigger names a tile inside a map of `width` × `height` tiles;
/// other triggers name none.
pub open spec fn trigger_in_map(trigger: RuleTrigger, width: u32, height: u32) -> bool {
    match trigger {
        RuleTrigger::OnTileEnter { x, y } | RuleTrigger::OnTileExit { x, y } => x < width && y < height,
        _ => true,
    }
}

/// Of the first `n` rules, in rule order, those that answer `trigger`:
/// enabled, with that trigger, and not a once rule that has fired.
pub open spec fn candidates(rules: Seq<Rule>, trigger: RuleTrigger, fired: Set<Seq<char>>, n: int) -> Seq<int>
    decreases n,
{
    if n <= 0 {
        Seq::empty()
    } else {
        let earlier = candidates(rules, trigger, fired, n - 1);
        let r = rules[n - 1];
        if r.enabled && r.trigger == trigger && !(r.once && fired.contains(r.id@)) {
            earlier.push(n - 1)
        } else {
            earlier
        }
    }
}

/// Of the rules `order`, in that order, those that fire: their tile lies
/// in the map and their conditions pass.
pub open spec fn firing(rules: Seq<Rule>, order: Seq<int>, width: u32, height: u32, passes: Seq<bool>) -> Seq<int>
    decreases order.len(),
{
    if order.len() == 0 {
        Seq::empty()
    } else {
        let earlier = firing(rules, order.drop_last(), width, height, passes);
        let i = order.last();
        if trigger_in_map(rules[i].trigger, width, height) && passes[i] { earlier.push(i) } else { earlier }
    }
}

/// The actions of the rules `fires`, in order, each with `context`.
pub open spec fn actions_of(rules: Seq<Rule>, fires: Seq<int>, context: TriggerContext) -> Seq<(TriggerContext, RuleAction)>
    decreases fires.len(),
{
    if fires.len() == 0 {
        Seq::empty()
    } else {
        actions_of(rules, fires.drop_last(), context)
            + rules[fires.last()].actions@.map_values(|a: RuleAction| (context, a))
    }
}

/// `fired` with the ids of the once rules among `fires` added.
pub open spec fn with_fired(rules: Seq<Rule>, fired: Set<Seq<char>>, fires: Seq<int>) -> Set<Seq<char>>
    decreases fires.len(),
{
    if fires.len() == 0 {
        fired
    } else {
        let earlier = with_fired(rules, fired, fires.drop_last());
        if rules[fires.last()].once { earlier.insert(rules[fires.last()].id@) } else { earlier }
    }
}

/// The rules that fire for the transition `e`, the `index`th of the frame.
pub open spec fn transition_firing(
    rules: Seq<Rule>,
    e: TileTransitionEvent,
    fired: Set<Seq<char>>,
    width: u32,
    height: u32,
    passes: Seq<bool>,
) -> Seq<int> {
    let order = ranked(rules, candidates(rules, transition_trigger(e), fired, rules.len() as int));
    firing(rules, order, width, height, passes)
}

/// The trigger context of a transition: its entity alone.
pub open spec fn self_only(entity_id: EntityId) -> TriggerContext {
    TriggerContext { trigger_self: Some(entity_id), trigger_other: None }
}

/// For the transitions `events`, in order: the actions that fire, each with
/// its trigger context, and the once rules that have fired by the end.
/// `passes[i][r]` is whether the conditions of rule `r` hold for the
/// entity of transition `i`.
pub open spec fn transitions_run(
    rules: Seq<Rule>,
    events: Seq<TileTransitionEvent>,
    fired: Set<Seq<char>>,
    width: u32,
    height: u32,
    passes: Seq<Seq<bool>>,
) -> (Seq<(TriggerContext, RuleAction)>, Set<Seq<char>>)
    decreases events.len(),
{
    if events.len() == 0 {
        (Seq::empty(), fired)
    } else {
        let (actions, fired_before) = transitions_run(rules, events.drop_last(), fired, width, height, passes);
        let e = events.last();
        let fires = transition_firing(rules, e, fired_before, width, height, passes[events.len() - 1]);
        (actions + actions_of(rules, fires, self_only(e.entity_id)), with_fired(rules, fired_before, fires))
    }
}

/// `after` is `before` with the commands of `actions` buffered in order.
pub open spec fn buffered_all(
    before: Seq<RuleCommand>,
    after: Seq<RuleCommand>,
    actions: Seq<(TriggerContext, RuleAction)>,
    player_id: Option<EntityId>,
) -> bool
    decreases actions.len(),
{
    if actions.len() == 0 {
        after == before
    } else {
        let (context, action) = actions.last();
        let mid_len = if emits(action, context, player_id) { after.len() - 1 } else { after.len() as int };
        &&& 0 <= mid_len
        &&& buffered_all(before, after.subrange(0, mid_len), actions.drop_last(), player_id)
        &&& buffered(after.subrange(0, mid_len), after, action, context, player_id)
    }
}

proof fn lemma_buffered_step(
    before: Seq<RuleCommand>,
    mid: Seq<RuleCommand>,
    after: Seq<RuleCommand>,
    actions: Seq<(TriggerContext, RuleAction)>,
    next: (TriggerContext, RuleAction),
    player_id: Option<EntityId>,
)
    requires
        buffered_all(before, mid, actions, player_id),
        buffered(mid, after, next.1, next.0, player_id),
    ensures
        buffered_all(before, after, actions.push(next), player_id),
{
    let all = actions.push(next);
    assert(all.drop_last() == actions);
    assert(all.last() == next);
    if emits(next.1, next.0, player_id) {
        assert(after.subrange(0, after.len() - 1) == mid);
    } else {
        assert(after.subrange(0, after.len() as int) == after);
    }
}

/// An entity entering or leaving a tile.
#[derive(Debug, Clone, Copy, PartialEq, Eq, Structural)]
pub struct TileTransitionEvent {
    pub entity_id: EntityId,
    pub tile_x: u32,
    pub tile_y: u32,
    pub is_enter: bool,
}

/// The ids, by their text, in `ids`.
pub open spec fn id_set(ids: Seq<String>) -> Set<Seq<char>> {
    Set::new(|t: Seq<char>| exists|i: int| 0 <= i < ids.len() && (#[trigger] ids[i])@ == t)
}

proof fn lemma_id_set_push(ids: Seq<String>, id: String)
    ensures
        id_set(ids.push(id)) == id_set(ids).insert(id@),
{
    let after = ids.push(id);
    assert forall|t: Seq<char>| id_set(after).contains(t) <==> id_set(ids).contains(t) || t == id@ by {
        if id_set(after).contains(t) {
            let w = choose|w: int| 0 <= w < after.len() && (#[trigger] after[w])@ == t;
            if w < ids.len() {
                assert(ids[w] == after[w]);
            }
        }
        if id_set(ids).contains(t) {
            let w = choose|w: int| 0 <= w < ids.len() && (#[trigger] ids[w])@ == t;
            assert(after[w] == ids[w]);
        }
        if t == id@ {
            assert(after[ids.len() as int] == id);
        }
    }
    assert(id_set(after) =~= id_set(ids).insert(id@));
}

/// What the rule system keeps between frames for tile rules: the once
/// rules that have fired, the transitions of this frame, and the tile each
/// entity stood on when last seen.
pub struct TileRuleRuntime {
    pub fired_once_rules: Vec<String>,
    pub frame_tile_transitions: Vec<TileTransitionEvent>,
    pub entity_tile_positions: HashMap<EntityId, (u32, u32)>,
}

/// Half of `v`, rounded toward zero as integer division rounds.
pub open spec fn half_toward_zero(v: int) -> int {
    if v >= 0 { v / 2 } else { -((-v) / 2) }
}

/// One coordinate of an entity's centre: its position plus half its size,
/// the size read as an `i32`.
pub open spec fn center_coordinate(position: i32, size: u32) -> int {
    position + half_toward_zero(as_signed(size))
}

/// The tile along one axis that holds a centre coordinate: a negative
/// coordinate counts as zero, and the tile is clamped to the map's last.
pub open spec fn tile_of(center: int, tile_size: u32, map_size: u32) -> u32 {
    let t = (if center < 0 { 0 } else { center }) / (tile_size as int);
    let last = if map_size == 0 { 0 } else { map_size - 1 };
    (if t < last { t } else { last }) as u32
}

/// An active entity's place in the world.
#[derive(Debug, Clone, Copy, PartialEq, Eq)]
pub struct TileEntity {
    pub entity_id: EntityId,
    pub position: [i32; 2],
    pub size: [u32; 2],
}

/// The centre of the entity lies within `i32`.
pub open spec fn center_fits(e: TileEntity) -> bool {
    in_i32(center_coordinate(e.position@[0], e.size@[0])) && in_i32(center_coordinate(e.position@[1], e.size@[1]))
}

/// The tile an entity stands on.
pub open spec fn tile_at(e: TileEntity, tile_size: [u32; 2], map_size: [u32; 2]) -> (u32, u32) {
    (
        tile_of(center_coordinate(e.position@[0], e.size@[0]), tile_size@[0], map_size@[0]),
        tile_of(center_coordinate(e.position@[1], e.size@[1]), tile_size@[1], map_size@[1]),
    )
}

fn axis_tile(position: i32, size: u32, tile_size: u32, map_size: u32) -> (r: u32)
    requires
        tile_size > 0,
        in_i32(center_coordinate(position, size)),
    ensures
        r == tile_of(center_coordinate(position, size), tile_size, map_size),
{
    let s: i64 = if size <= 0x7fff_ffff { size as i64 } else { size as i64 - 0x1_0000_0000i64 };
    let half: i64 = if s >= 0 { s / 2 } else { -((-s) / 2) };
    let center: i64 = position as i64 + half;
    let clamped: u32 = if center < 0 { 0 } else { center as u32 };
    let t = clamped / tile_size;
    let last = if map_size == 0 { 0 } else { map_size - 1 };
    if t < last { t } else { last }
}

/// The tile an entity stands on: the tile that holds its centre.
pub fn entity_tile(entity: &TileEntity, tile_size: [u32; 2], map_size: [u32; 2]) -> (r: (u32, u32))
    requires
        tile_size@[0] > 0,
        tile_size@[1] > 0,
        center_fits(*entity),
    ensures
        r == tile_at(*entity, tile_size, map_size),
{
    (
        axis_tile(entity.position[0], entity.size[0], tile_size[0], map_size[0]),
        axis_tile(entity.position[1], entity.size[1], tile_size[1], map_size[1]),
    )
}

/// The transitions of an entity that stood on `previous` when last seen
/// and now stands on `tile`: leaving the old tile and entering the new one
/// when they differ, none when it was not seen before.
pub open spec fn transitions_for(previous: Option<(u32, u32)>, entity_id: EntityId, tile: (u32, u32)) -> Seq<TileTransitionEvent> {
    match previous {
        Some(p) => if p != tile {
            seq![
                TileTransitionEvent { entity_id, tile_x: p.0, tile_y: p.1, is_enter: false },
                TileTransitionEvent { entity_id, tile_x: tile.0, tile_y: tile.1, is_enter: true },
            ]
        } else {
            Seq::empty()
        },
        None => Seq::empty(),
    }
}

/// Where `positions` has a tile for `id`, that tile.
pub open spec fn last_seen(positions: Map<EntityId, (u32, u32)>, id: EntityId) -> Option<(u32, u32)> {
    if positions.contains_key(id) { Some(positions[id]) } else { None }
}

/// Seeing `entities` in order, from the tiles `positions`: the tiles then
/// known and the transitions made.
pub open spec fn seen_tiles(
    positions: Map<EntityId, (u32, u32)>,
    entities: Seq<TileEntity>,
    tile_size: [u32; 2],
    map_size: [u32; 2],
) -> (Map<EntityId, (u32, u32)>, Seq<TileTransitionEvent>)
    decreases entities.len(),
{
    if entities.len() == 0 {
        (positions, Seq::empty())
    } else {
        let (known, events) = seen_tiles(positions, entities.drop_last(), tile_size, map_size);
        let e = entities.last();
        let tile = tile_at(e, tile_size, map_size);
        (known.insert(e.entity_id, tile), events + transitions_for(last_seen(known, e.entity_id), e.entity_id, tile))
    }
}

fn has_fired(ids: &Vec<String>, id: &str) -> (r: bool)
    ensures
        r == id_set(ids@).contains(id@),
{
    let mut i: usize = 0;
    while i < ids.len()
        invariant
            i <= ids@.len(),
            forall|k: int| 0 <= k < i ==> (#[trigger] ids@[k])@ != id@,
        decreases ids.len() - i,
    {
        if str_eq(ids[i].as_str(), id) {
            assert(id_set(ids@).contains(id@));
            return true;
        }
        i = i + 1;
    }
    false
}

impl TileRuleRuntime {
    /// Records that `entity_id` now stands on `(tile_x, tile_y)`, adding its
    /// transitions to this frame's.
    pub fn process_entity_tile_transition(&mut self, entity_id: EntityId, tile_x: u32, tile_y: u32)
        ensures
            final(self).entity_tile_positions@ == old(self).entity_tile_positions@.insert(entity_id, (tile_x, tile_y)),
            final(self).frame_tile_transitions@ == old(self).frame_tile_transitions@
                + transitions_for(last_seen(old(self).entity_tile_positions@, entity_id), entity_id, (tile_x, tile_y)),
            final(self).fired_once_rules@ == old(self).fired_once_rules@,
    {
        broadcast use vstd::std_specs::hash::group_hash_axioms;
        let ghost before = self.frame_tile_transitions@;
        match self.entity_tile_positions.get(&entity_id) {
            Some(previous) => {
                let (prev_x, prev_y) = *previous;
                if prev_x != tile_x || prev_y != tile_y {
                    self.frame_tile_transitions.push(
                        TileTransitionEvent { entity_id, tile_x: prev_x, tile_y: prev_y, is_enter: false },
                    );
                    self.frame_tile_transitions.push(
                        TileTransitionEvent { entity_id, tile_x, tile_y, is_enter: true },
                    );
                    assert(self.frame_tile_transitions@ =~= before + transitions_for(
                        last_seen(old(self).entity_tile_positions@, entity_id), entity_id, (tile_x, tile_y)));
                } else {
                    assert(before + Seq::<TileTransitionEvent>::empty() =~= before);
                }
            },
            None => {
                assert(before + Seq::<TileTransitionEvent>::empty() =~= before);
            },
        }
        self.entity_tile_positions.insert(entity_id, (tile_x, tile_y));
    }

    /// Finds which tile each active entity stands on and adds the
    /// transitions of those that moved to another tile since last seen.
    /// Nothing happens with a tile of no width or height.
    pub fn detect_tile_transitions(&mut self, entities: &Vec<TileEntity>, tile_size: [u32; 2], map_size: [u32; 2])
        requires
            forall|i: int| 0 <= i < entities@.len() ==> center_fits(#[trigger] entities@[i]),
        ensures
            final(self).fired_once_rules@ == old(self).fired_once_rules@,
            tile_size@[0] == 0 || tile_size@[1] == 0 ==> {
                &&& final(self).entity_tile_positions@ == old(self).entity_tile_positions@
                &&& final(self).frame_tile_transitions@ == old(self).frame_tile_transitions@
            },
            tile_size@[0] != 0 && tile_size@[1] != 0 ==> {
                let (known, events) = seen_tiles(old(self).entity_tile_positions@, entities@, tile_size, map_size);
                &&& final(self).entity_tile_positions@ == known
                &&& final(self).frame_tile_transitions@ == old(self).frame_tile_transitions@ + events
            },
    {
        if tile_size[0] == 0 || tile_size[1] == 0 {
            return;
        }
        let ghost positions0 = self.entity_tile_positions@;
        let ghost frame0 = self.frame_tile_transitions@;
        let ghost fired0 = self.fired_once_rules@;
        let mut i: usize = 0;
        assert(frame0 + Seq::<TileTransitionEvent>::empty() =~= frame0);
        while i < entities.len()
            invariant
                i <= entities@.len(),
                tile_size@[0] > 0,
                tile_size@[1] > 0,
                forall|k: int| 0 <= k < entities@.len() ==> center_fits(#[trigger] entities@[k]),
                self.fired_once_rules@ == fired0,
                ({
                    let (known, events) = seen_tiles(positions0, entities@.take(i as int), tile_size, map_size);
                    &&& self.entity_tile_positions@ == known
                    &&& self.frame_tile_transitions@ == frame0 + events
                }),
            decreases entities.len() - i,
        {
            let e = &entities[i];
            assert(entities@.take(i + 1).drop_last() == entities@.take(i as int));
            let (tile_x, tile_y) = entity_tile(e, tile_size, map_size);
            self.process_entity_tile_transition(e.entity_id, tile_x, tile_y);
            let ghost (known, events) = seen_tiles(positions0, entities@.take(i as int), tile_size, map_size);
            assert(frame0 + events + transitions_for(last_seen(known, e.entity_id), e.entity_id, (tile_x, tile_y))
                =~= frame0 + (events + transitions_for(last_seen(known, e.entity_id), e.entity_id, (tile_x, tile_y))));
            i = i + 1;
        }
        assert(entities@.take(entities@.len() as int) == entities@);
    }

    /// Runs the rules for this frame's tile transitions, in order, and
    /// clears them. For each transition, the enabled rules with its trigger,
    /// leaving out once rules that have fired, run by `precedes`; a rule
    /// whose tile lies outside the `map_size` map, or whose conditions fail
    /// (`conditions_pass[i][r]`, for transition `i` and rule `r`), is
    /// skipped; the actions of the rest are buffered with the transition's
    /// entity as the trigger's own; once rules that ran are recorded after
    /// the transition.
    pub fn collect_rule_commands_for_tile_transitions(
        &mut self,
        engine: &RuleEngine,
        rules: &Vec<Rule>,
        map_size: [u32; 2],
        conditions_pass: &Vec<Vec<bool>>,
        command_buffer: &mut Vec<RuleCommand>,
    )
        requires
            conditions_pass@.len() == old(self).frame_tile_transitions@.len(),
            forall|i: int| 0 <= i < conditions_pass@.len() ==> (#[trigger] conditions_pass@[i])@.len() == rules@.len(),
        ensures
            final(self).frame_tile_transitions@.len() == 0,
            final(self).entity_tile_positions@ == old(self).entity_tile_positions@,
            ({
                let run = transitions_run(
                    rules@,
                    old(self).frame_tile_transitions@,
                    id_set(old(self).fired_once_rules@),
                    map_size@[0],
                    map_size@[1],
                    conditions_pass@.map_values(|v: Vec<bool>| v@),
                );
                &&& id_set(final(self).fired_once_rules@) == run.1
                &&& buffered_all(old(command_buffer)@, final(command_buffer)@, run.0, engine.player_id)
            }),
    {
        let mut tile_events: Vec<TileTransitionEvent> = Vec::new();
        std::mem::swap(&mut tile_events, &mut self.frame_tile_transitions);
        let ghost passes = conditions_pass@.map_values(|v: Vec<bool>| v@);
        let ghost fired0 = id_set(self.fired_once_rules@);
        let ghost buffer0 = command_buffer@;
        let ghost positions0 = self.entity_tile_positions@;
        let width = map_size[0];
        let height = map_size[1];
        let mut i: usize = 0;
        while i < tile_events.len()
            invariant
                i <= tile_events@.len(),
                conditions_pass@.len() == tile_events@.len(),
                forall|k: int| 0 <= k < conditions_pass@.len() ==> (#[trigger] conditions_pass@[k])@.len() == rules@.len(),
                passes == conditions_pass@.map_values(|v: Vec<bool>| v@),
                self.frame_tile_transitions@.len() == 0,
                self.entity_tile_positions@ == positions0,
                ({
                    let run = transitions_run(rules@, tile_events@.take(i as int), fired0, width, height, passes);
                    &&& id_set(self.fired_once_rules@) == run.1
                    &&& buffered_all(buffer0, command_buffer@, run.0, engine.player_id)
                }),
            decreases tile_events.len() - i,
        {
            let event = tile_events[i];
            let trigger = if event.is_enter {
                RuleTrigger::OnTileEnter { x: event.tile_x, y: event.tile_y }
            } else {
                RuleTrigger::OnTileExit { x: event.tile_x, y: event.tile_y }
            };
            let context = TriggerContext::with_self_only(event.entity_id);
            let ghost events_before = tile_events@.take(i as int);
            assert(tile_events@.take(i + 1).drop_last() == events_before);
            let ghost run = transitions_run(rules@, events_before, fired0, width, height, passes);
            let ghost fired = run.1;
            let ghost acts0 = run.0;

            // The rules that answer the trigger, in rule order.
            let mut matching: Vec<usize> = Vec::new();
            let mut j: usize = 0;
            while j < rules.len()
                invariant
                    j <= rules@.len(),
                    id_set(self.fired_once_rules@) == fired,
                    as_ints(matching@) == candidates(rules@, trigger, fired, j as int),
                    forall|k: int| 0 <= k < matching@.len() ==> #[trigger] matching@[k] < j,
                decreases rules.len() - j,
            {
                let rule = &rules[j];
                if rule.enabled && rule.trigger == trigger
                    && !(rule.once && has_fired(&self.fired_once_rules, rule.id.as_str())) {
                    matching.push(j);
                    assert(as_ints(matching@) =~= candidates(rules@, trigger, fired, j as int).push(j as int));
                }
                j = j + 1;
            }

            // Those rules in the order they run.
            let mut order: Vec<usize> = Vec::new();
            let mut k: usize = 0;
            while k < matching.len()
                invariant
                    k <= matching@.len(),
                    forall|m: int| 0 <= m < matching@.len() ==> #[trigger] matching@[m] < rules@.len(),
                    forall|m: int| 0 <= m < order@.len() ==> #[trigger] order@[m] < rules@.len(),
                    as_ints(order@) == ranked(rules@, as_ints(matching@).take(k as int)),
                decreases matching.len() - k,
            {
                assert(as_ints(matching@).take(k + 1).drop_last() == as_ints(matching@).take(k as int));
                insert_ranked_exec(rules, &mut order, matching[k]);
                k = k + 1;
            }
            assert(as_ints(matching@).take(matching@.len() as int) == as_ints(matching@));
            let ghost ord = as_ints(order@);
            let ghost pass_i = passes[i as int];
            assert(pass_i == conditions_pass@[i as int]@);

            // Run them.
            let mut fired_now: Vec<String> = Vec::new();
            let mut m: usize = 0;
            while m < order.len()
                invariant
                    m <= order@.len(),
                    i < conditions_pass@.len(),
                    ord == as_ints(order@),
                    forall|q: int| 0 <= q < order@.len() ==> #[trigger] order@[q] < rules@.len(),
                    conditions_pass@[i as int]@.len() == rules@.len(),
                    pass_i == conditions_pass@[i as int]@,
                    id_set(self.fired_once_rules@) == fired,
                    id_set(fired_now@) + fired == with_fired(rules@, fired, firing(rules@, ord.take(m as int), width, height, pass_i)),
                    buffered_all(buffer0, command_buffer@,
                        acts0 + actions_of(rules@, firing(rules@, ord.take(m as int), width, height, pass_i), context),
                        engine.player_id),
                decreases order.len() - m,
            {
                let idx = order[m];
                let rule = &rules[idx];
                assert(ord.take(m + 1).drop_last() == ord.take(m as int));
                let in_map = match rule.trigger {
                    RuleTrigger::OnTileEnter { x, y } | RuleTrigger::OnTileExit { x, y } => x < width && y < height,
                    _ => true,
                };
                if in_map && conditions_pass[i][idx] {
                    let ghost fires_before = firing(rules@, ord.take(m as int), width, height, pass_i);
                    let ghost acts_before = acts0 + actions_of(rules@, fires_before, context);
                    let ghost rule_acts = rules@[idx as int].actions@.map_values(|a: RuleAction| (context, a));
                    assert(firing(rules@, ord.take(m + 1), width, height, pass_i) == fires_before.push(idx as int));
                    assert(fires_before.push(idx as int).drop_last() == fires_before);
                    let mut a: usize = 0;
                    assert(acts_before + rule_acts.take(0) == acts_before);
                    while a < rule.actions.len()
                        invariant
                            a <= rule.actions@.len(),
                            rule_acts == rule.actions@.map_values(|x: RuleAction| (context, x)),
                            buffered_all(buffer0, command_buffer@, acts_before + rule_acts.take(a as int), engine.player_id),
                        decreases rule.actions.len() - a,
                    {
                        let ghost mid = command_buffer@;
                        engine.buffer_rule_action(&rule.actions[a], &context, command_buffer);
                        let ghost acts_next = acts_before + rule_acts.take(a + 1);
                        assert(acts_next.drop_last() == acts_before + rule_acts.take(a as int));
                        assert(acts_next.last() == (context, rule.actions@[a as int]));
                        assert(buffered_all(buffer0, mid, acts_next.drop_last(), engine.player_id));
                        assert(buffered(mid, command_buffer@, acts_next.last().1, acts_next.last().0, engine.player_id));
                        assert(acts_next == acts_next.drop_last().push(acts_next.last()));
                        proof {
                            lemma_buffered_step(buffer0, mid, command_buffer@, acts_next.drop_last(), acts_next.last(), engine.player_id);
                        }
                        a = a + 1;
                    }
                    assert(rule_acts.take(rule.actions@.len() as int) == rule_acts);
                    assert(acts0 + actions_of(rules@, fires_before.push(idx as int), context) == acts_before + rule_acts);
                    if rule.once {
                        let ghost old_now = fired_now@;
                        fired_now.push(rule.id.clone());
                        assert(fired_now@ == old_now.push(fired_now@.last()));
                        proof {
                            lemma_id_set_push(old_now, fired_now@.last());
                        }
                        assert(id_set(fired_now@) + fired =~= (id_set(old_now) + fired).insert(rule.id@));
                    }
                } else {
                    assert(firing(rules@, ord.take(m + 1), width, height, pass_i) == firing(rules@, ord.take(m as int), width, height, pass_i));
                }
                m = m + 1;
            }
            assert(ord.take(order@.len() as int) == ord);
            let ghost fires = transition_firing(rules@, event, fired, width, height, pass_i);
            assert(fires == firing(rules@, ord, width, height, pass_i));
            let mut q: usize = 0;
            let ghost base = self.fired_once_rules@;
            while q < fired_now.len()
                invariant
                    q <= fired_now@.len(),
                    self.frame_tile_transitions@.len() == 0,
                    self.entity_tile_positions@ == positions0,
                    id_set(self.fired_once_rules@) == id_set(base) + id_set(fired_now@.take(q as int)),
                decreases fired_now.len() - q,
            {
                let ghost before = self.fired_once_rules@;
                let id = fired_now[q].clone();
                assert(id@ == fired_now@[q as int]@);
                self.fired_once_rules.push(id);
                assert(self.fired_once_rules@ == before.push(id));
                proof {
                    lemma_id_set_push(before, id);
                    assert(fired_now@.take(q + 1) == fired_now@.take(q as int).push(fired_now@[q as int]));
                    lemma_id_set_push(fired_now@.take(q as int), fired_now@[q as int]);
                }
                q = q + 1;
            }
            assert(fired_now@.take(fired_now@.len() as int) == fired_now@);
            assert(id_set(self.fired_once_rules@) =~= with_fired(rules@, fired, fires));
            i = i + 1;
        }
        assert(tile_events@.take(tile_events@.len() as int) == tile_events@);
    }
}

} // verus!
