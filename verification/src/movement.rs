//! The integer decisions of a tick of controlled movement: which way the
//! held keys point, whether each entity moved, and which clip its animation
//! switches to.

use vstd::prelude::*;
use crate::animation::{
    directional_animation_state, facing_from_animation_state, facing_from_delta, facing_of_delta,
    facing_of_state, is_action_animation_state, is_action_state,
};
use crate::combat::FacingDirection;
use crate::input::InputKey;
use crate::rules::{AnimationState, EntityId};

verus! {

/// The step one held key adds: up and left are negative, down and right
/// positive; other keys add nothing.
pub open spec fn key_step(key: InputKey) -> (int, int) {
    match key {
        InputKey::Up => (0, -1),
        InputKey::Down => (0, 1),
        InputKey::Left => (-1, 0),
        InputKey::Right => (1, 0),
        _ => (0, 0),
    }
}

/// The sum of the steps of `keys`.
pub open spec fn key_delta(keys: Seq<InputKey>) -> (int, int)
    decreases keys.len(),
{
    if keys.len() == 0 {
        (0, 0)
    } else {
        let d = key_delta(keys.drop_last());
        let s = key_step(keys.last());
        (d.0 + s.0, d.1 + s.1)
    }
}

proof fn lemma_key_delta_bounded(keys: Seq<InputKey>)
    ensures
        -keys.len() <= key_delta(keys).0 <= keys.len(),
        -keys.len() <= key_delta(keys).1 <= keys.len(),
    decreases keys.len(),
{
    if keys.len() > 0 {
        lemma_key_delta_bounded(keys.drop_last());
    }
}

/// The direction the held keys point: one step per key, opposite keys
/// cancelling.
pub fn movement_delta_from_keys(keys: &Vec<InputKey>) -> (r: [i32; 2])
    requires
        keys@.len() < i32::MAX,
    ensures
        r@[0] == key_delta(keys@).0,
        r@[1] == key_delta(keys@).1,
{
    let mut dx: i32 = 0;
    let mut dy: i32 = 0;
    let mut i: usize = 0;
    while i < keys.len()
        invariant
            i <= keys@.len(),
            keys@.len() < i32::MAX,
            (dx as int, dy as int) == key_delta(keys@.take(i as int)),
        decreases keys.len() - i,
    {
        proof {
            lemma_key_delta_bounded(keys@.take(i as int));
        }
        assert(keys@.take(i + 1).drop_last() == keys@.take(i as int));
        match keys[i] {
            InputKey::Up => dy = dy - 1,
            InputKey::Down => dy = dy + 1,
            InputKey::Left => dx = dx - 1,
            InputKey::Right => dx = dx + 1,
            _ => {},
        }
        i = i + 1;
    }
    assert(keys@.take(keys@.len() as int) == keys@);
    [dx, dy]
}

/// An entity's animation controller as locomotion sees it: the clip it
/// plays, whether that clip has finished, and the clips it has.
#[derive(Debug, Clone, PartialEq, Eq)]
pub struct LocomotionAnimation {
    pub current: AnimationState,
    pub is_finished: bool,
    pub clips: Vec<AnimationState>,
}

/// An action clip that has not finished holds the animation still.
pub open spec fn locks_locomotion(current: AnimationState, is_finished: bool) -> bool {
    is_action_state(current) && !is_finished
}

/// Whether an action clip holds the animation still.
pub fn action_animation_locks_locomotion(current: AnimationState, is_finished: bool) -> (r: bool)
    ensures
        r == locks_locomotion(current, is_finished),
{
    is_action_animation_state(current) && !is_finished
}

/// The directional clip for moving or standing in the facing that `delta`
/// gives (the current clip's facing for no delta); where the controller
/// lacks that clip, plain walking or standing.
pub open spec fn resolved_state(current: AnimationState, clips: Seq<AnimationState>, moving: bool, delta: (int, int)) -> AnimationState {
    let facing = match facing_of_delta(delta.0, delta.1) {
        Some(f) => f,
        None => facing_of_state(current),
    };
    let directional = directional_state(moving, facing);
    if clips.contains(directional) {
        directional
    } else if moving {
        AnimationState::Walk
    } else {
        AnimationState::Idle
    }
}

/// The walking or idle clip of a facing.
pub open spec fn directional_state(moving: bool, facing: FacingDirection) -> AnimationState {
    match (moving, facing) {
        (false, FacingDirection::Down) => AnimationState::IdleDown,
        (false, FacingDirection::Up) => AnimationState::IdleUp,
        (false, FacingDirection::Left) => AnimationState::IdleLeft,
        (false, FacingDirection::Right) => AnimationState::IdleRight,
        (true, FacingDirection::Down) => AnimationState::WalkDown,
        (true, FacingDirection::Up) => AnimationState::WalkUp,
        (true, FacingDirection::Left) => AnimationState::WalkLeft,
        (true, FacingDirection::Right) => AnimationState::WalkRight,
    }
}

fn has_clip(clips: &Vec<AnimationState>, state: AnimationState) -> (r: bool)
    ensures
        r == clips@.contains(state),
{
    let mut i: usize = 0;
    while i < clips.len()
        invariant
            i <= clips@.len(),
            forall|k: int| 0 <= k < i ==> clips@[k] != state,
        decreases clips.len() - i,
    {
        if clips[i] == state {
            assert(clips@[i as int] == state);
            return true;
        }
        i = i + 1;
    }
    false
}

/// The clip an entity's animation should play.
pub fn resolve_animation_state(animation: &LocomotionAnimation, moving: bool, delta: [i32; 2]) -> (r: AnimationState)
    requires
        delta@[0] != i32::MIN,
        delta@[1] != i32::MIN,
    ensures
        r == resolved_state(animation.current, animation.clips@, moving, (delta@[0] as int, delta@[1] as int)),
{
    let facing = match facing_from_delta(delta) {
        Some(f) => f,
        None => facing_from_animation_state(animation.current),
    };
    let directional = directional_animation_state(moving, facing);
    assert(directional == directional_state(moving, facing));
    if has_clip(&animation.clips, directional) {
        directional
    } else if moving {
        AnimationState::Walk
    } else {
        AnimationState::Idle
    }
}

/// A controlled entity over one tick: where it stood before and after its
/// movement was applied, where its keys pointed, and its animation, if it
/// has one.
#[derive(Debug, Clone, PartialEq, Eq)]
pub struct ControlledMove {
    pub entity_id: EntityId,
    pub initial: [i32; 2],
    pub final_position: [i32; 2],
    pub intended: [i32; 2],
    pub animation: Option<LocomotionAnimation>,
}

/// What the tick decides for one controlled entity: whether it moved, and
/// the clip its animation switches to, if it switches.
#[derive(Debug, Clone, Copy, PartialEq, Eq, Structural)]
pub struct MoveOutcome {
    pub entity_id: EntityId,
    pub moved: bool,
    pub play: Option<AnimationState>,
}

/// What the tick decides for all controlled entities.
#[derive(Debug, Clone, PartialEq, Eq)]
pub struct InputMovementOutcome {
    pub player_moved: bool,
    pub moves: Vec<MoveOutcome>,
}

/// The sums of a move stay within `i32`, as the subtraction of positions
/// and the facing of a delta need.
pub open spec fn move_fits(m: ControlledMove) -> bool {
    &&& i32::MIN < m.final_position@[0] - m.initial@[0] <= i32::MAX
    &&& i32::MIN < m.final_position@[1] - m.initial@[1] <= i32::MAX
    &&& m.intended@[0] != i32::MIN
    &&& m.intended@[1] != i32::MIN
}

pub open spec fn moved(m: ControlledMove) -> bool {
    m.final_position@[0] != m.initial@[0] || m.final_position@[1] != m.initial@[1]
}

/// The clip a move switches to: none without an animation, while an action
/// clip holds it, or when the clip to play is the one playing. The facing
/// follows the actual move, or the intended one where the entity did not
/// move; it walks when its keys point somewhere.
pub open spec fn clip_switch(m: ControlledMove) -> Option<AnimationState> {
    match m.animation {
        None => None,
        Some(a) => if locks_locomotion(a.current, a.is_finished) {
            None
        } else {
            let delta = if moved(m) {
                (m.final_position@[0] - m.initial@[0], m.final_position@[1] - m.initial@[1])
            } else {
                (m.intended@[0] as int, m.intended@[1] as int)
            };
            let trying = m.intended@[0] != 0 || m.intended@[1] != 0;
            let desired = resolved_state(a.current, a.clips@, trying, delta);
            if desired == a.current { None } else { Some(desired) }
        },
    }
}

/// The clips hold every idle and walking clip of the four facings.
pub open spec fn has_all_directional_clips(clips: Seq<AnimationState>) -> bool {
    &&& clips.contains(AnimationState::IdleDown)
    &&& clips.contains(AnimationState::IdleUp)
    &&& clips.contains(AnimationState::IdleLeft)
    &&& clips.contains(AnimationState::IdleRight)
    &&& clips.contains(AnimationState::WalkDown)
    &&& clips.contains(AnimationState::WalkUp)
    &&& clips.contains(AnimationState::WalkLeft)
    &&& clips.contains(AnimationState::WalkRight)
}

/// An entity that moved, with an animation that has every directional clip
/// and is not held by an action, shows after the tick (the clip it switches
/// to, or the one it keeps) a clip that faces the way it actually moved,
/// whatever its keys pointed at; the clip walks exactly when its keys point
/// somewhere.
pub proof fn law_moved_clip_faces_actual_move(m: ControlledMove)
    requires
        m.final_position@[0] != m.initial@[0] || m.final_position@[1] != m.initial@[1],
        m.animation is Some,
        !(is_action_state(m.animation.unwrap().current) && !m.animation.unwrap().is_finished),
        has_all_directional_clips(m.animation.unwrap().clips@),
    ensures
        ({
            let a = m.animation.unwrap();
            let shown = match clip_switch(m) {
                Some(s) => s,
                None => a.current,
            };
            let dx = m.final_position@[0] - m.initial@[0];
            let dy = m.final_position@[1] - m.initial@[1];
            let trying = m.intended@[0] != 0 || m.intended@[1] != 0;
            &&& facing_of_delta(dx, dy) == Some(facing_of_state(shown))
            &&& (shown is WalkDown || shown is WalkUp || shown is WalkLeft || shown is WalkRight) == trying
            &&& (shown is IdleDown || shown is IdleUp || shown is IdleLeft || shown is IdleRight) == !trying
        }),
{
}

/// Whether the player moved among `moves`: as the last move of the player
/// says, and no where the player has none.
pub open spec fn player_moved_in(moves: Seq<ControlledMove>, player: Option<EntityId>) -> bool
    decreases moves.len(),
{
    if moves.len() == 0 {
        false
    } else if player == Some(moves.last().entity_id) {
        moved(moves.last())
    } else {
        player_moved_in(moves.drop_last(), player)
    }
}

/// The decisions of a tick: for each controlled entity, whether it moved
/// and which clip its animation switches to; and whether the player moved.
pub fn plan_input_movement_outcome(moves: &Vec<ControlledMove>, player: Option<EntityId>) -> (r: InputMovementOutcome)
    requires
        forall|i: int| 0 <= i < moves@.len() ==> move_fits(#[trigger] moves@[i]),
    ensures
        r.player_moved == player_moved_in(moves@, player),
        r.moves@.len() == moves@.len(),
        forall|i: int| 0 <= i < moves@.len() ==> #[trigger] r.moves@[i] == (MoveOutcome {
            entity_id: moves@[i].entity_id,
            moved: moved(moves@[i]),
            play: clip_switch(moves@[i]),
        }),
{
    let mut outcomes: Vec<MoveOutcome> = Vec::new();
    let mut player_moved = false;
    let mut i: usize = 0;
    while i < moves.len()
        invariant
            i <= moves@.len(),
            forall|k: int| 0 <= k < moves@.len() ==> move_fits(#[trigger] moves@[k]),
            player_moved == player_moved_in(moves@.take(i as int), player),
            outcomes@.len() == i,
            forall|k: int| 0 <= k < i ==> #[trigger] outcomes@[k] == (MoveOutcome {
                entity_id: moves@[k].entity_id,
                moved: moved(moves@[k]),
                play: clip_switch(moves@[k]),
            }),
        decreases moves.len() - i,
    {
        let m = &moves[i];
        assert(move_fits(moves@[i as int]));
        assert(moves@.take(i + 1).drop_last() == moves@.take(i as int));
        let entity_moved = m.final_position[0] != m.initial[0] || m.final_position[1] != m.initial[1];
        if player == Some(m.entity_id) {
            player_moved = entity_moved;
        }
        let play = match &m.animation {
            None => None,
            Some(a) => {
                if action_animation_locks_locomotion(a.current, a.is_finished) {
                    None
                } else {
                    let delta = if entity_moved {
                        [m.final_position[0] - m.initial[0], m.final_position[1] - m.initial[1]]
                    } else {
                        m.intended
                    };
                    let trying = m.intended[0] != 0 || m.intended[1] != 0;
                    let desired = resolve_animation_state(a, trying, delta);
                    if desired == a.current { None } else { Some(desired) }
                }
            },
        };
        outcomes.push(MoveOutcome { entity_id: m.entity_id, moved: entity_moved, play });
        i = i + 1;
    }
    assert(moves@.take(moves@.len() as int) == moves@);
    InputMovementOutcome { player_moved, moves: outcomes }
}

} // verus!
