use toki_core::input::{
    InputAction, InputKey, InputRuntimeState, InputStateEffect, InputSystem, MovementProfile,
    RuntimeState,
};

#[test]
fn input_runtime_state_merges_global_and_profile_keys_in_stable_order() {
    let mut state = InputRuntimeState::default();
    state.handle_key_press(InputKey::Right);
    state.handle_profile_key_press(MovementProfile::PlayerWasd, InputKey::Up);

    assert_eq!(
        state.held_keys_for_profile(MovementProfile::PlayerWasd),
        vec![InputKey::Up, InputKey::Right]
    );
}

fn pending_for(
    pending: &[(MovementProfile, Vec<InputAction>)],
    profile: MovementProfile,
) -> Option<&Vec<InputAction>> {
    pending.iter().find(|(p, _)| *p == profile).map(|(_, actions)| actions)
}

#[test]
fn profile_action_press_is_edge_triggered_until_release() {
    let mut state = InputRuntimeState::default();
    state.handle_profile_action_press(MovementProfile::PlayerWasd, InputAction::Primary);
    state.handle_profile_action_press(MovementProfile::PlayerWasd, InputAction::Primary);

    let pending = state.take_pending_profile_actions();
    assert_eq!(pending.len(), 1);
    assert!(pending_for(&pending, MovementProfile::PlayerWasd)
        .unwrap()
        .contains(&InputAction::Primary));
    assert!(state.take_pending_profile_actions().is_empty());

    state.handle_profile_action_release(MovementProfile::PlayerWasd, InputAction::Primary);
    state.handle_profile_action_press(MovementProfile::PlayerWasd, InputAction::Primary);
    assert_eq!(state.take_pending_profile_actions().len(), 1);
}

#[test]
fn debug_toggle_returns_effect_instead_of_mutating_runtime_state_directly() {
    let mut state = InputRuntimeState::default();
    let effect = state.handle_key_press(InputKey::DebugToggle);

    assert_eq!(effect, InputStateEffect::ToggleDebugCollisionRendering);
    assert!(state.all_held_keys().is_empty());
}

// ---------------------------------------------------------------------------
// Further cases
// ---------------------------------------------------------------------------

#[test]
fn held_keys_are_reported_once_in_key_order() {
    let mut state = InputRuntimeState::new();
    state.handle_key_press(InputKey::Pause);
    state.handle_key_press(InputKey::Up);
    state.handle_profile_key_press(MovementProfile::LegacyDefault, InputKey::Up);
    state.handle_profile_key_press(MovementProfile::PlayerWasd, InputKey::Left);
    assert_eq!(state.all_held_keys(), vec![InputKey::Up, InputKey::Left, InputKey::Pause]);
    assert_eq!(
        state.held_keys_for_profile(MovementProfile::LegacyDefault),
        vec![InputKey::Up, InputKey::Pause]
    );
    assert_eq!(
        state.held_keys_for_profile(MovementProfile::NoProfile),
        vec![InputKey::Up, InputKey::Pause]
    );

    state.handle_key_release(InputKey::Pause);
    state.handle_profile_key_release(MovementProfile::PlayerWasd, InputKey::Left);
    state.handle_profile_key_release(MovementProfile::PlayerWasd, InputKey::Down);
    assert_eq!(state.all_held_keys(), vec![InputKey::Up]);
}

#[test]
fn pending_actions_are_listed_in_profile_order() {
    let mut state = InputRuntimeState::new();
    state.handle_profile_action_press(MovementProfile::PlayerWasd, InputAction::Primary);
    state.handle_profile_action_press(MovementProfile::NoProfile, InputAction::Primary);
    let pending = state.take_pending_profile_actions();
    assert_eq!(
        pending,
        vec![
            (MovementProfile::NoProfile, vec![InputAction::Primary]),
            (MovementProfile::PlayerWasd, vec![InputAction::Primary]),
        ]
    );
}

#[test]
fn clear_releases_everything() {
    let mut state = InputRuntimeState::new();
    state.handle_key_press(InputKey::Down);
    state.handle_profile_key_press(MovementProfile::PlayerWasd, InputKey::Up);
    state.handle_profile_action_press(MovementProfile::PlayerWasd, InputAction::Primary);
    state.clear();
    assert!(state.all_held_keys().is_empty());
    assert!(state.take_pending_profile_actions().is_empty());
}

#[test]
fn input_system_toggles_debug_rendering_and_holds_other_keys() {
    let mut runtime = RuntimeState::default();
    assert!(!runtime.debug_collision_rendering());
    InputSystem::handle_key_press(&mut runtime, InputKey::DebugToggle);
    assert!(runtime.debug_collision_rendering());
    InputSystem::handle_key_press(&mut runtime, InputKey::DebugToggle);
    assert!(!runtime.debug_collision_rendering());

    InputSystem::handle_key_press(&mut runtime, InputKey::Interact);
    InputSystem::handle_profile_key_press(&mut runtime, MovementProfile::PlayerWasd, InputKey::Right);
    assert_eq!(
        runtime.input().held_keys_for_profile(MovementProfile::PlayerWasd),
        vec![InputKey::Right, InputKey::Interact]
    );
    InputSystem::handle_profile_key_release(&mut runtime, MovementProfile::PlayerWasd, InputKey::Right);
    InputSystem::handle_key_release(&mut runtime, InputKey::Interact);
    assert!(runtime.input().all_held_keys().is_empty());

    InputSystem::handle_profile_action_press(&mut runtime, MovementProfile::LegacyDefault, InputAction::Primary);
    InputSystem::handle_profile_action_release(&mut runtime, MovementProfile::LegacyDefault, InputAction::Primary);
    InputSystem::handle_key_press(&mut runtime, InputKey::Up);
    InputSystem::clear(&mut runtime);
    assert!(runtime.input().all_held_keys().is_empty());
}

#[test]
fn releasing_a_profile_key_undoes_its_press() {
    let mut state = InputRuntimeState::new();
    state.handle_profile_key_press(MovementProfile::PlayerWasd, InputKey::Up);
    let before = state.held_keys_for_profile(MovementProfile::PlayerWasd);
    state.handle_profile_key_press(MovementProfile::PlayerWasd, InputKey::Down);
    state.handle_profile_key_release(MovementProfile::PlayerWasd, InputKey::Down);
    assert_eq!(state.held_keys_for_profile(MovementProfile::PlayerWasd), before);
    // keys held for a profile are among all held keys
    for key in state.held_keys_for_profile(MovementProfile::PlayerWasd) {
        assert!(state.all_held_keys().contains(&key));
    }
}
