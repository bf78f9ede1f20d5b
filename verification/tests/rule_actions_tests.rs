use toki_core::input::AudioChannel;
use toki_core::rules::{
    AudioCommand, EntityCommand, FlagValue, InventoryCommand, ProgressCommand, RuleAction,
    RuleCommand, RuleEngine, RuleSoundChannel, RuleSpawnEntityType, RuleTarget, SceneCommand,
    TriggerContext, UiCommand,
};

const NPC: u32 = 1;

fn buffer(action: &RuleAction, context: &TriggerContext) -> Vec<RuleCommand> {
    let engine = RuleEngine { player_id: None };
    let mut commands = Vec::new();
    engine.buffer_rule_action(action, context, &mut commands);
    commands
}

#[test]
fn start_dialog_pushes_scene_command() {
    let action = RuleAction::StartDialog { dialog_id: "intro".into() };
    let cmds = buffer(&action, &TriggerContext::empty());
    assert!(matches!(
        cmds.as_slice(),
        [RuleCommand::Scene(SceneCommand::StartDialog { dialog_id, .. })] if dialog_id.as_str() == "intro"
    ));
}

#[test]
fn start_dialog_empty_id_produces_no_command() {
    let action = RuleAction::StartDialog { dialog_id: "".into() };
    assert!(buffer(&action, &TriggerContext::empty()).is_empty());
}

#[test]
fn start_dialog_whitespace_id_produces_no_command() {
    let action = RuleAction::StartDialog { dialog_id: "   ".into() };
    assert!(buffer(&action, &TriggerContext::empty()).is_empty());
}

#[test]
fn switch_scene_pushes_scene_command() {
    let action = RuleAction::SwitchScene {
        scene_name: "overworld".into(),
        spawn_point_id: "start".to_string(),
        transition: None,
        duration_ms: None,
    };
    let cmds = buffer(&action, &TriggerContext::empty());
    assert!(matches!(
        cmds.as_slice(),
        [RuleCommand::Scene(SceneCommand::SwitchScene { scene_name, .. })] if scene_name.as_str() == "overworld"
    ));
}

#[test]
fn play_sound_pushes_audio_command() {
    let action = RuleAction::PlaySound { channel: RuleSoundChannel::Movement, sound_id: "footstep".to_string() };
    let cmds = buffer(&action, &TriggerContext::empty());
    assert!(matches!(
        cmds.as_slice(),
        [RuleCommand::Audio(AudioCommand::PlaySound { sound_id, .. })] if sound_id == "footstep"
    ));
}

#[test]
fn play_sound_empty_id_produces_no_command() {
    let action = RuleAction::PlaySound { channel: RuleSoundChannel::Movement, sound_id: "".to_string() };
    assert!(buffer(&action, &TriggerContext::empty()).is_empty());
}

#[test]
fn play_music_pushes_audio_command() {
    let action = RuleAction::PlayMusic { track_id: "battle_theme".to_string() };
    let cmds = buffer(&action, &TriggerContext::empty());
    assert!(matches!(
        cmds.as_slice(),
        [RuleCommand::Audio(AudioCommand::PlayMusic { track_id })] if track_id == "battle_theme"
    ));
}

#[test]
fn play_music_empty_id_produces_no_command() {
    let action = RuleAction::PlayMusic { track_id: "".to_string() };
    assert!(buffer(&action, &TriggerContext::empty()).is_empty());
}

#[test]
fn set_flag_pushes_progress_command() {
    let action = RuleAction::SetFlag { flag: "done".to_string(), value: Ok(FlagValue::Bool(true)) };
    let cmds = buffer(&action, &TriggerContext::empty());
    assert!(matches!(
        cmds.as_slice(),
        [RuleCommand::Progress(ProgressCommand::SetFlag { flag, value: FlagValue::Bool(true) })] if flag == "done"
    ));
}

#[test]
fn set_flag_empty_name_produces_no_command() {
    let action = RuleAction::SetFlag { flag: "  ".to_string(), value: Ok(FlagValue::Bool(true)) };
    assert!(buffer(&action, &TriggerContext::empty()).is_empty());
}

#[test]
fn increment_flag_pushes_progress_command() {
    let action = RuleAction::IncrementFlag { flag: "coins".to_string(), amount: Ok(5) };
    let cmds = buffer(&action, &TriggerContext::empty());
    assert!(matches!(
        cmds.as_slice(),
        [RuleCommand::Progress(ProgressCommand::IncrementFlag { flag, amount: 5 })] if flag == "coins"
    ));
}

#[test]
fn clear_flag_pushes_progress_command() {
    let action = RuleAction::ClearFlag { flag: "temp".to_string() };
    let cmds = buffer(&action, &TriggerContext::empty());
    assert!(matches!(
        cmds.as_slice(),
        [RuleCommand::Progress(ProgressCommand::ClearFlag { flag })] if flag == "temp"
    ));
}

#[test]
fn clear_flag_empty_name_produces_no_command() {
    let action = RuleAction::ClearFlag { flag: "".to_string() };
    assert!(buffer(&action, &TriggerContext::empty()).is_empty());
}

#[test]
fn damage_entity_pushes_entity_command() {
    let id = NPC;
    let action = RuleAction::DamageEntity { target: RuleTarget::Entity(id), amount: Ok(10) };
    let cmds = buffer(&action, &TriggerContext::empty());
    assert!(matches!(
        cmds.as_slice(),
        [RuleCommand::Entity(EntityCommand::DamageEntity { entity_id, amount: 10 })] if *entity_id == id
    ));
}

#[test]
fn damage_entity_unresolvable_target_produces_no_command() {
    let action = RuleAction::DamageEntity { target: RuleTarget::TriggerSelf, amount: Ok(10) };
    assert!(buffer(&action, &TriggerContext::empty()).is_empty());
}

#[test]
fn set_entity_active_pushes_entity_command() {
    let id = NPC;
    let action = RuleAction::SetEntityActive { target: RuleTarget::Entity(id), active: false };
    let cmds = buffer(&action, &TriggerContext::empty());
    assert!(matches!(
        cmds.as_slice(),
        [RuleCommand::Entity(EntityCommand::SetEntityActive { entity_id, active: false })] if *entity_id == id
    ));
}

#[test]
fn heal_entity_pushes_entity_command() {
    let id = NPC;
    let action = RuleAction::HealEntity { target: RuleTarget::Entity(id), amount: Ok(20) };
    let cmds = buffer(&action, &TriggerContext::empty());
    assert!(matches!(
        cmds.as_slice(),
        [RuleCommand::Entity(EntityCommand::HealEntity { entity_id, amount: 20 })] if *entity_id == id
    ));
}

#[test]
fn add_inventory_item_pushes_inventory_command() {
    let id = NPC;
    let action = RuleAction::AddInventoryItem { target: RuleTarget::Entity(id), item_id: "key".to_string(), count: 1 };
    let cmds = buffer(&action, &TriggerContext::empty());
    assert!(matches!(
        cmds.as_slice(),
        [RuleCommand::Inventory(InventoryCommand::AddInventoryItem { entity_id, item_id, count: 1 })]
            if *entity_id == id && item_id == "key"
    ));
}

#[test]
fn remove_inventory_item_pushes_inventory_command() {
    let id = NPC;
    let action = RuleAction::RemoveInventoryItem { target: RuleTarget::Entity(id), item_id: "key".to_string(), count: 1 };
    let cmds = buffer(&action, &TriggerContext::empty());
    assert!(matches!(
        cmds.as_slice(),
        [RuleCommand::Inventory(InventoryCommand::RemoveInventoryItem { entity_id, item_id, count: 1 })]
            if *entity_id == id && item_id == "key"
    ));
}

#[test]
fn spawn_pushes_entity_command() {
    let action = RuleAction::Spawn { entity_type: RuleSpawnEntityType::Npc, position: Ok([4, 8]) };
    let cmds = buffer(&action, &TriggerContext::empty());
    assert!(matches!(
        cmds.as_slice(),
        [RuleCommand::Entity(EntityCommand::Spawn { entity_type: RuleSpawnEntityType::Npc, position })]
            if position[0] == 4 && position[1] == 8
    ));
}

#[test]
fn show_ui_pushes_ui_command() {
    let action = RuleAction::ShowUi { ui_id: "hud".into() };
    let cmds = buffer(&action, &TriggerContext::empty());
    assert!(matches!(cmds.as_slice(), [RuleCommand::Ui(UiCommand::ShowUi { ui_id })] if ui_id.as_str() == "hud"));
}

#[test]
fn hide_ui_pushes_ui_command() {
    let action = RuleAction::HideUi { ui_id: "hud".into() };
    let cmds = buffer(&action, &TriggerContext::empty());
    assert!(matches!(cmds.as_slice(), [RuleCommand::Ui(UiCommand::HideUi { ui_id })] if ui_id.as_str() == "hud"));
}

#[test]
fn trigger_self_context_attached_to_start_dialog() {
    let self_id = NPC;
    let action = RuleAction::StartDialog { dialog_id: "chat".into() };
    let ctx = TriggerContext::with_self_only(self_id);
    let cmds = buffer(&action, &ctx);
    assert!(matches!(
        cmds.as_slice(),
        [RuleCommand::Scene(SceneCommand::StartDialog { dialog_id, context })]
            if dialog_id.as_str() == "chat" && context.interactor == Some(self_id)
    ));
}

// ---------------------------------------------------------------------------
// Further cases
// ---------------------------------------------------------------------------

#[test]
fn ids_are_trimmed_and_channels_mapped() {
    let action = RuleAction::PlaySound { channel: RuleSoundChannel::Collision, sound_id: "\t hit \u{3000}".to_string() };
    let cmds = buffer(&action, &TriggerContext::empty());
    assert_eq!(
        cmds,
        vec![RuleCommand::Audio(AudioCommand::PlaySound { channel: AudioChannel::Collision, sound_id: "hit".to_string() })]
    );
    let ui = RuleAction::ShowUi { ui_id: " hud ".into() };
    assert!(matches!(buffer(&ui, &TriggerContext::empty()).as_slice(), [RuleCommand::Ui(UiCommand::ShowUi { ui_id })] if ui_id == " hud "));
}

#[test]
fn targets_resolve_against_player_and_trigger() {
    let engine = RuleEngine { player_id: Some(9) };
    let ctx = TriggerContext::with_pair(3, 4);
    assert_eq!(engine.resolve_rule_target(RuleTarget::Player, &ctx), Some(9));
    assert_eq!(engine.resolve_rule_target(RuleTarget::TriggerSelf, &ctx), Some(3));
    assert_eq!(engine.resolve_rule_target(RuleTarget::TriggerOther, &ctx), Some(4));
    assert_eq!(engine.resolve_rule_target(RuleTarget::Entity(12), &ctx), Some(12));
    assert_eq!(engine.resolve_rule_target(RuleTarget::RuleOwner, &ctx), None);
}

#[test]
fn teleport_needs_resolved_non_negative_tiles() {
    let engine = RuleEngine { player_id: Some(9) };
    let mut cmds = Vec::new();
    engine.buffer_entity_mutation_action(
        &RuleAction::TeleportEntity { target: RuleTarget::Player, tile_x: Ok(2), tile_y: Ok(3) },
        &TriggerContext::empty(),
        &mut cmds,
    );
    engine.buffer_entity_mutation_action(
        &RuleAction::TeleportEntity { target: RuleTarget::Player, tile_x: Ok(-1), tile_y: Ok(3) },
        &TriggerContext::empty(),
        &mut cmds,
    );
    engine.buffer_entity_mutation_action(
        &RuleAction::TeleportEntity { target: RuleTarget::Player, tile_x: Err("bad".to_string()), tile_y: Ok(3) },
        &TriggerContext::empty(),
        &mut cmds,
    );
    assert_eq!(cmds, vec![RuleCommand::Entity(EntityCommand::TeleportEntity { entity_id: 9, tile_x: 2, tile_y: 3 })]);
}

#[test]
fn unresolved_values_buffer_nothing() {
    let action = RuleAction::SetFlag { flag: "done".to_string(), value: Err("no such path".to_string()) };
    assert!(buffer(&action, &TriggerContext::empty()).is_empty());
    let save = RuleAction::SaveGame { slot: 2 };
    assert_eq!(buffer(&save, &TriggerContext::empty()), vec![RuleCommand::Progress(ProgressCommand::SaveGame { slot: 2 })]);
}
