//! How facing and animation clips follow from movement and actions.

use vstd::prelude::*;
use crate::combat::FacingDirection;
use crate::rules::AnimationState;

verus! {

/// The absolute value.
pub open spec fn abs(v: int) -> int {
    if v < 0 { -v } else { v }
}

/// The facing a move by `(dx, dy)` gives: none for no move; along x where
/// it moves further along x than along y; else along y, up for a negative
/// y (y grows down).
pub open spec fn facing_of_delta(dx: int, dy: int) -> Option<FacingDirection> {
    if dx == 0 && dy == 0 {
        None
    } else if abs(dx) > abs(dy) {
        if dx < 0 { Some(FacingDirection::Left) } else { Some(FacingDirection::Right) }
    } else if dy < 0 {
        Some(FacingDirection::Up)
    } else {
        Some(FacingDirection::Down)
    }
}

/// The facing a move gives.
pub fn facing_from_delta(delta: [i32; 2]) -> (r: Option<FacingDirection>)
    requires
        delta@[0] != i32::MIN,
        delta@[1] != i32::MIN,
    ensures
        r == facing_of_delta(delta@[0] as int, delta@[1] as int),
{
    let dx = delta[0];
    let dy = delta[1];
    if dx == 0 && dy == 0 {
        return None;
    }
    let ax = if dx < 0 { -dx } else { dx };
    let ay = if dy < 0 { -dy } else { dy };
    if ax > ay {
        if dx < 0 { Some(FacingDirection::Left) } else { Some(FacingDirection::Right) }
    } else if dy < 0 {
        Some(FacingDirection::Up)
    } else {
        Some(FacingDirection::Down)
    }
}

/// The facing a clip shows: up, left or right for the clips named so, and
/// down for the rest.
pub open spec fn facing_of_state(state: AnimationState) -> FacingDirection {
    if state is IdleUp || state is WalkUp || state is AttackUp {
        FacingDirection::Up
    } else if state is IdleLeft || state is WalkLeft || state is AttackLeft {
        FacingDirection::Left
    } else if state is IdleRight || state is WalkRight || state is AttackRight {
        FacingDirection::Right
    } else {
        FacingDirection::Down
    }
}

/// The facing a clip shows.
pub fn facing_from_animation_state(state: AnimationState) -> (r: FacingDirection)
    ensures
        r == facing_of_state(state),
{
    match state {
        AnimationState::IdleUp | AnimationState::WalkUp | AnimationState::AttackUp => FacingDirection::Up,
        AnimationState::IdleLeft | AnimationState::WalkLeft | AnimationState::AttackLeft => FacingDirection::Left,
        AnimationState::IdleRight | AnimationState::WalkRight | AnimationState::AttackRight => FacingDirection::Right,
        _ => FacingDirection::Down,
    }
}

/// The walking clip for a facing when moving, the idle one when not.
pub fn directional_animation_state(moving: bool, facing: FacingDirection) -> (r: AnimationState)
    ensures
        facing_of_state(r) == facing,
        r is WalkDown || r is WalkUp || r is WalkLeft || r is WalkRight <==> moving,
        r is IdleDown || r is IdleUp || r is IdleLeft || r is IdleRight <==> !moving,
{
    match (moving, facing) {
        (false, FacingDirection::Down) => AnimationState::IdleDown,
        (false, FacingDirection::Up) => AnimationState::IdleUp,
        (false, FacingDirection::Left) => AnimationState::IdleLeft,
        (false, FacingDirection::Right) => AnimationState::IdleRight,
        (true, FacingDirection::Down) => AnimationState::WalkDown,
        (true, FacingDirection::Up) => AnimationState::WalkUp,
        (true, FacingDirection::Left) => AnimationState::WalkLeft,
        (true, FacingDirection::Right) => AnimationState::WalkRight,
    }
}

/// The attack clip for a facing.
pub fn directional_attack_state(facing: FacingDirection) -> (r: AnimationState)
    ensures
        facing_of_state(r) == facing,
        r is AttackDown || r is AttackUp || r is AttackLeft || r is AttackRight,
{
    match facing {
        FacingDirection::Down => AnimationState::AttackDown,
        FacingDirection::Up => AnimationState::AttackUp,
        FacingDirection::Left => AnimationState::AttackLeft,
        FacingDirection::Right => AnimationState::AttackRight,
    }
}

/// The attack clips are the action clips.
pub open spec fn is_action_state(state: AnimationState) -> bool {
    state is Attack || state is AttackDown || state is AttackUp || state is AttackLeft || state is AttackRight
}

/// Whether a clip is an action clip.
pub fn is_action_animation_state(state: AnimationState) -> (r: bool)
    ensures
        r == is_action_state(state),
{
    match state {
        AnimationState::Attack
        | AnimationState::AttackDown
        | AnimationState::AttackUp
        | AnimationState::AttackLeft
        | AnimationState::AttackRight => true,
        _ => false,
    }
}

} // verus!
