use toki_core::input::InputKey;
use toki_core::movement::{
    action_animation_locks_locomotion, movement_delta_from_keys, plan_input_movement_outcome,
    resolve_animation_state, ControlledMove, LocomotionAnimation, MoveOutcome,
};
use toki_core::rules::AnimationState;

fn all_walk_clips() -> Vec<AnimationState> {
    vec![
        AnimationState::IdleDown,
        AnimationState::IdleUp,
        AnimationState::IdleLeft,
        AnimationState::IdleRight,
        AnimationState::WalkDown,
        AnimationState::WalkUp,
        AnimationState::WalkLeft,
        AnimationState::WalkRight,
    ]
}

fn animation(current: AnimationState) -> LocomotionAnimation {
    LocomotionAnimation { current, is_finished: false, clips: all_walk_clips() }
}

#[test]
fn held_keys_sum_to_a_direction() {
    assert_eq!(movement_delta_from_keys(&vec![]), [0, 0]);
    assert_eq!(movement_delta_from_keys(&vec![InputKey::Up, InputKey::Right]), [1, -1]);
    assert_eq!(movement_delta_from_keys(&vec![InputKey::Left, InputKey::Right]), [0, 0]);
    assert_eq!(
        movement_delta_from_keys(&vec![InputKey::Down, InputKey::Interact, InputKey::DebugToggle]),
        [0, 1]
    );
}

#[test]
fn unfinished_attacks_hold_locomotion() {
    assert!(action_animation_locks_locomotion(AnimationState::AttackLeft, false));
    assert!(!action_animation_locks_locomotion(AnimationState::AttackLeft, true));
    assert!(!action_animation_locks_locomotion(AnimationState::WalkLeft, false));
}

#[test]
fn resolved_clip_follows_delta_or_current_facing() {
    let a = animation(AnimationState::IdleLeft);
    assert_eq!(resolve_animation_state(&a, true, [0, 1]), AnimationState::WalkDown);
    assert_eq!(resolve_animation_state(&a, false, [0, 0]), AnimationState::IdleLeft);
    let bare = LocomotionAnimation { current: AnimationState::Idle, is_finished: false, clips: vec![] };
    assert_eq!(resolve_animation_state(&bare, true, [1, 0]), AnimationState::Walk);
    assert_eq!(resolve_animation_state(&bare, false, [1, 0]), AnimationState::Idle);
}

#[test]
fn tick_outcome_reports_moves_clips_and_the_player() {
    let moves = vec![
        ControlledMove {
            entity_id: 1,
            initial: [0, 0],
            final_position: [2, 0],
            intended: [1, 0],
            animation: Some(animation(AnimationState::IdleDown)),
        },
        ControlledMove {
            entity_id: 2,
            initial: [5, 5],
            final_position: [5, 5],
            intended: [0, -1],
            animation: Some(animation(AnimationState::IdleDown)),
        },
        ControlledMove {
            entity_id: 3,
            initial: [5, 5],
            final_position: [5, 5],
            intended: [0, 0],
            animation: Some(animation(AnimationState::IdleDown)),
        },
        ControlledMove {
            entity_id: 4,
            initial: [0, 0],
            final_position: [0, 3],
            intended: [0, 1],
            animation: Some(LocomotionAnimation {
                current: AnimationState::AttackDown,
                is_finished: false,
                clips: all_walk_clips(),
            }),
        },
        ControlledMove { entity_id: 5, initial: [0, 0], final_position: [1, 1], intended: [1, 1], animation: None },
    ];
    let outcome = plan_input_movement_outcome(&moves, Some(1));
    assert!(outcome.player_moved);
    assert_eq!(
        outcome.moves,
        vec![
            MoveOutcome { entity_id: 1, moved: true, play: Some(AnimationState::WalkRight) },
            MoveOutcome { entity_id: 2, moved: false, play: Some(AnimationState::WalkUp) },
            MoveOutcome { entity_id: 3, moved: false, play: None },
            MoveOutcome { entity_id: 4, moved: true, play: None },
            MoveOutcome { entity_id: 5, moved: true, play: None },
        ]
    );
    assert!(!plan_input_movement_outcome(&moves, Some(2)).player_moved);
    assert!(!plan_input_movement_outcome(&moves, None).player_moved);
}
