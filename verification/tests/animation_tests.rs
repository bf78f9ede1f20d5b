use toki_core::animation::{
    directional_animation_state, directional_attack_state, facing_from_animation_state,
    facing_from_delta, is_action_animation_state,
};
use toki_core::combat::FacingDirection;
use toki_core::rules::AnimationState;

#[test]
fn facing_follows_the_larger_axis_of_a_move() {
    assert_eq!(facing_from_delta([0, 0]), None);
    assert_eq!(facing_from_delta([-3, 1]), Some(FacingDirection::Left));
    assert_eq!(facing_from_delta([3, -1]), Some(FacingDirection::Right));
    assert_eq!(facing_from_delta([1, -3]), Some(FacingDirection::Up));
    assert_eq!(facing_from_delta([1, 3]), Some(FacingDirection::Down));
    assert_eq!(facing_from_delta([2, -2]), Some(FacingDirection::Up));
    assert_eq!(facing_from_delta([-2, 2]), Some(FacingDirection::Down));
}

#[test]
fn clips_show_their_facing_and_undirected_clips_face_down() {
    assert_eq!(facing_from_animation_state(AnimationState::WalkUp), FacingDirection::Up);
    assert_eq!(facing_from_animation_state(AnimationState::AttackLeft), FacingDirection::Left);
    assert_eq!(facing_from_animation_state(AnimationState::IdleRight), FacingDirection::Right);
    assert_eq!(facing_from_animation_state(AnimationState::Idle), FacingDirection::Down);
    assert_eq!(facing_from_animation_state(AnimationState::Attack), FacingDirection::Down);
}

#[test]
fn directional_clips_round_trip_through_their_facing() {
    for facing in [FacingDirection::Down, FacingDirection::Up, FacingDirection::Left, FacingDirection::Right] {
        assert_eq!(facing_from_animation_state(directional_animation_state(true, facing)), facing);
        assert_eq!(facing_from_animation_state(directional_animation_state(false, facing)), facing);
        assert_eq!(facing_from_animation_state(directional_attack_state(facing)), facing);
        assert!(is_action_animation_state(directional_attack_state(facing)));
        assert!(!is_action_animation_state(directional_animation_state(true, facing)));
    }
    assert_eq!(directional_animation_state(true, FacingDirection::Left), AnimationState::WalkLeft);
    assert_eq!(directional_animation_state(false, FacingDirection::Up), AnimationState::IdleUp);
    assert!(is_action_animation_state(AnimationState::Attack));
    assert!(!is_action_animation_state(AnimationState::Idle));
}
