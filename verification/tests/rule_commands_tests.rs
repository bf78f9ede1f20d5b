use toki_core::input::AudioChannel;
use toki_core::rule_commands::{
    apply_rule_commands, AudioEvent, DialogStartRequest, PersistenceRequest, UiRequest,
};
use toki_core::rules::{
    AnimationCommand, AnimationState, AudioCommand, DialogRuntimeContext, EntityCommand,
    FlagValue, InventoryCommand, MotionCommand, ProgressCommand, RuleCommand, SceneCommand,
    UiCommand,
};

fn switch(scene: &str, spawn: &str) -> RuleCommand {
    RuleCommand::Scene(SceneCommand::SwitchScene {
        scene_name: scene.to_string(),
        spawn_point_id: spawn.to_string(),
        transition: None,
        duration_ms: Some(250),
    })
}

fn dialog(id: &str, speaker: u32) -> RuleCommand {
    RuleCommand::Scene(SceneCommand::StartDialog {
        dialog_id: id.to_string(),
        context: DialogRuntimeContext { interactor: Some(1), speaker: Some(speaker) },
    })
}

#[test]
fn audio_and_ui_requests_keep_their_order() {
    let commands = vec![
        RuleCommand::Audio(AudioCommand::PlayMusic { track_id: "theme".to_string() }),
        RuleCommand::Ui(UiCommand::ShowUi { ui_id: "hud".to_string() }),
        RuleCommand::Audio(AudioCommand::PlaySound {
            channel: AudioChannel::Collision,
            sound_id: "hit".to_string(),
        }),
        RuleCommand::Ui(UiCommand::UpdateUiBinding {
            ui_id: "hud".to_string(),
            binding_key: "coins".to_string(),
            value: FlagValue::Int(3),
        }),
        RuleCommand::Ui(UiCommand::HideUi { ui_id: "map".to_string() }),
    ];
    let applied = apply_rule_commands(commands);
    assert_eq!(
        applied.audio_events,
        vec![
            AudioEvent::BackgroundMusic("theme".to_string()),
            AudioEvent::PlaySound {
                channel: AudioChannel::Collision,
                sound_id: "hit".to_string(),
                source_position: None,
                hearing_radius: None,
            },
        ]
    );
    assert_eq!(
        applied.pending_ui_requests,
        vec![
            UiRequest::ShowUi { ui_id: "hud".to_string() },
            UiRequest::UpdateUiBinding {
                ui_id: "hud".to_string(),
                binding_key: "coins".to_string(),
                value: FlagValue::Int(3),
            },
            UiRequest::HideUi { ui_id: "map".to_string() },
        ]
    );
    assert!(applied.world_commands.is_empty());
}

#[test]
fn first_animation_and_velocity_per_entity_win_in_entity_order() {
    let commands = vec![
        RuleCommand::Animation(AnimationCommand::PlayAnimation { entity_id: 7, state: AnimationState::WalkLeft }),
        RuleCommand::Motion(MotionCommand::SetVelocity { entity_id: 4, velocity: [1, 0] }),
        RuleCommand::Animation(AnimationCommand::PlayAnimation { entity_id: 2, state: AnimationState::Idle }),
        RuleCommand::Animation(AnimationCommand::PlayAnimation { entity_id: 7, state: AnimationState::Attack }),
        RuleCommand::Motion(MotionCommand::SetVelocity { entity_id: 4, velocity: [0, 9] }),
        RuleCommand::Motion(MotionCommand::SetVelocity { entity_id: 1, velocity: [-2, 3] }),
    ];
    let applied = apply_rule_commands(commands);
    assert_eq!(
        applied.pending_animations,
        vec![(2, AnimationState::Idle), (7, AnimationState::WalkLeft)]
    );
    assert_eq!(applied.velocities, vec![(1, [-2, 3]), (4, [1, 0])]);
}

#[test]
fn first_valid_scene_switch_wins_and_is_trimmed() {
    let commands = vec![switch("  ", "start"), switch(" cave ", " door "), switch("town", "gate")];
    let applied = apply_rule_commands(commands);
    let request = applied.pending_scene_switch.expect("a switch");
    assert_eq!(request.scene_name, "cave");
    assert_eq!(request.spawn_point_id, "door");
    assert_eq!(request.transition, None);
    assert_eq!(request.duration_ms, Some(250));
}

#[test]
fn blank_scene_switches_are_dropped() {
    let applied = apply_rule_commands(vec![switch("cave", " "), switch("", "door")]);
    assert!(applied.pending_scene_switch.is_none());
}

#[test]
fn first_dialog_and_first_save_or_load_win() {
    let commands = vec![
        RuleCommand::Progress(ProgressCommand::LoadGame { slot: 2 }),
        dialog("intro", 5),
        RuleCommand::Progress(ProgressCommand::SaveGame { slot: 1 }),
        dialog("outro", 6),
    ];
    let applied = apply_rule_commands(commands);
    assert_eq!(
        applied.pending_dialog_start,
        Some(DialogStartRequest {
            dialog_id: "intro".to_string(),
            context: DialogRuntimeContext { interactor: Some(1), speaker: Some(5) },
        })
    );
    assert_eq!(applied.pending_persistence, Some(PersistenceRequest::LoadSlot { slot: 2 }));
    assert!(applied.world_commands.is_empty());
}

#[test]
fn world_commands_are_handed_on_in_order() {
    let commands = vec![
        RuleCommand::Entity(EntityCommand::DamageEntity { entity_id: 3, amount: 4 }),
        RuleCommand::Progress(ProgressCommand::SetFlag { flag: "door".to_string(), value: FlagValue::Bool(true) }),
        RuleCommand::Progress(ProgressCommand::SaveGame { slot: 0 }),
        RuleCommand::Inventory(InventoryCommand::AddInventoryItem {
            entity_id: 1,
            item_id: "coin".to_string(),
            count: 2,
        }),
        RuleCommand::Progress(ProgressCommand::ClearFlag { flag: "door".to_string() }),
    ];
    let applied = apply_rule_commands(commands);
    assert_eq!(
        applied.world_commands,
        vec![
            RuleCommand::Entity(EntityCommand::DamageEntity { entity_id: 3, amount: 4 }),
            RuleCommand::Progress(ProgressCommand::SetFlag { flag: "door".to_string(), value: FlagValue::Bool(true) }),
            RuleCommand::Inventory(InventoryCommand::AddInventoryItem {
                entity_id: 1,
                item_id: "coin".to_string(),
                count: 2,
            }),
            RuleCommand::Progress(ProgressCommand::ClearFlag { flag: "door".to_string() }),
        ]
    );
    assert_eq!(applied.pending_persistence, Some(PersistenceRequest::SaveSlot { slot: 0 }));
}
