//! Rule actions and the commands they are buffered as.
//!
//! A rule that passes turns each of its actions into at most one command:
//! the target entity is resolved from the trigger, text ids are trimmed, and
//! an action whose target, id or value does not resolve buffers nothing.
//! Expression-valued fields (amounts, positions, flag values) hold what
//! resolving the expression against the game gave, a value or its error.

use vstd::prelude::*;
use crate::input::AudioChannel;
use crate::text::{trimmed, trim_text};

verus! {

/// The id of an entity of the game.
pub type EntityId = u32;

/// Which entity an action applies to.
#[derive(Debug, Clone, Copy, PartialEq, Eq, Structural)]
pub enum RuleTarget {
    Player,
    Entity(EntityId),
    TriggerSelf,
    TriggerOther,
    RuleOwner,
}

/// The entities involved in the event that triggered a rule.
#[derive(Debug, Clone, Copy, PartialEq, Eq, Structural)]
pub struct TriggerContext {
    pub trigger_self: Option<EntityId>,
    pub trigger_other: Option<EntityId>,
}

impl TriggerContext {
    /// A trigger with no entities.
    pub fn empty() -> (r: Self)
        ensures
            r.trigger_self is None && r.trigger_other is None,
    {
        TriggerContext { trigger_self: None, trigger_other: None }
    }

    /// A trigger with only its own entity.
    pub fn with_self_only(trigger_self: EntityId) -> (r: Self)
        ensures
            r.trigger_self == Some(trigger_self) && r.trigger_other is None,
    {
        TriggerContext { trigger_self: Some(trigger_self), trigger_other: None }
    }

    /// A trigger between its own entity and another.
    pub fn with_pair(trigger_self: EntityId, trigger_other: EntityId) -> (r: Self)
        ensures
            r.trigger_self == Some(trigger_self) && r.trigger_other == Some(trigger_other),
    {
        TriggerContext { trigger_self: Some(trigger_self), trigger_other: Some(trigger_other) }
    }
}

#[derive(Debug, Clone, Copy, PartialEq, Eq, Structural)]
pub enum RuleSoundChannel {
    Movement,
    Collision,
}

/// The animation an entity plays.
#[derive(Debug, Clone, Copy, PartialEq, Eq, Structural)]
pub enum AnimationState {
    Idle,
    IdleUp,
    IdleDown,
    IdleLeft,
    IdleRight,
    Walk,
    WalkUp,
    WalkDown,
    WalkLeft,
    WalkRight,
    Attack,
    AttackUp,
    AttackDown,
    AttackLeft,
    AttackRight,
}

/// The value of a game flag.
#[derive(Debug, Clone, Copy, PartialEq, Eq, Structural)]
pub enum FlagValue {
    Bool(bool),
    Int(i32),
}

/// How the screen changes when the scene switches.
#[derive(Debug, Clone, Copy, PartialEq, Eq, Structural)]
pub enum SceneTransitionEffect {
    Fade,
}

/// What kind of entity a rule spawns.
#[derive(Debug, Clone, Copy, PartialEq, Eq, Structural)]
pub enum RuleSpawnEntityType {
    Npc,
    PlayerLikeNpc,
    Item,
    Decoration,
    Trigger,
}

/// An action of a rule.
#[derive(Debug, PartialEq, Eq)]
pub enum RuleAction {
    PlaySound { channel: RuleSoundChannel, sound_id: String },
    PlayMusic { track_id: String },
    PlayAnimation { target: RuleTarget, state: AnimationState },
    SetVelocity { target: RuleTarget, velocity: Result<[i32; 2], String> },
    SwitchScene {
        scene_name: String,
        spawn_point_id: String,
        transition: Option<SceneTransitionEffect>,
        duration_ms: Option<u32>,
    },
    StartDialog { dialog_id: String },
    ShowUi { ui_id: String },
    HideUi { ui_id: String },
    UpdateUiBinding { ui_id: String, binding_key: String, value: Result<FlagValue, String> },
    SaveGame { slot: u8 },
    LoadGame { slot: u8 },
    Spawn { entity_type: RuleSpawnEntityType, position: Result<[i32; 2], String> },
    DestroySelf { target: RuleTarget },
    DamageEntity { target: RuleTarget, amount: Result<i32, String> },
    HealEntity { target: RuleTarget, amount: Result<i32, String> },
    SetEntityActive { target: RuleTarget, active: bool },
    TeleportEntity { target: RuleTarget, tile_x: Result<i32, String>, tile_y: Result<i32, String> },
    AddInventoryItem { target: RuleTarget, item_id: String, count: u32 },
    RemoveInventoryItem { target: RuleTarget, item_id: String, count: u32 },
    SetFlag { flag: String, value: Result<FlagValue, String> },
    IncrementFlag { flag: String, amount: Result<i32, String> },
    ClearFlag { flag: String },
}

/// Who takes part in a dialog a rule starts.
#[derive(Debug, Clone, Copy, PartialEq, Eq, Structural)]
pub struct DialogRuntimeContext {
    pub interactor: Option<EntityId>,
    pub speaker: Option<EntityId>,
}

/// A buffered command to be executed by the rule system.
#[derive(Debug, Clone, PartialEq, Eq)]
pub enum RuleCommand {
    Audio(AudioCommand),
    Animation(AnimationCommand),
    Motion(MotionCommand),
    Entity(EntityCommand),
    Inventory(InventoryCommand),
    Ui(UiCommand),
    Scene(SceneCommand),
    Progress(ProgressCommand),
}

#[derive(Debug, Clone, PartialEq, Eq)]
pub enum AudioCommand {
    PlaySound { channel: AudioChannel, sound_id: String },
    PlayMusic { track_id: String },
}

#[derive(Debug, Clone, PartialEq, Eq)]
pub enum AnimationCommand {
    PlayAnimation { entity_id: EntityId, state: AnimationState },
}

#[derive(Debug, Clone, PartialEq, Eq)]
pub enum MotionCommand {
    SetVelocity { entity_id: EntityId, velocity: [i32; 2] },
}

#[derive(Debug, Clone, PartialEq, Eq)]
pub enum EntityCommand {
    Spawn { entity_type: RuleSpawnEntityType, position: [i32; 2] },
    DestroySelf { entity_id: EntityId },
    DamageEntity { entity_id: EntityId, amount: i32 },
    HealEntity { entity_id: EntityId, amount: i32 },
    SetEntityActive { entity_id: EntityId, active: bool },
    TeleportEntity { entity_id: EntityId, tile_x: u32, tile_y: u32 },
}

#[derive(Debug, Clone, PartialEq, Eq)]
pub enum InventoryCommand {
    AddInventoryItem { entity_id: EntityId, item_id: String, count: u32 },
    RemoveInventoryItem { entity_id: EntityId, item_id: String, count: u32 },
}

#[derive(Debug, Clone, PartialEq, Eq)]
pub enum UiCommand {
    ShowUi { ui_id: String },
    HideUi { ui_id: String },
    UpdateUiBinding { ui_id: String, binding_key: String, value: FlagValue },
}

#[derive(Debug, Clone, PartialEq, Eq)]
pub enum SceneCommand {
    SwitchScene {
        scene_name: String,
        spawn_point_id: String,
        transition: Option<SceneTransitionEffect>,
        duration_ms: Option<u32>,
    },
    StartDialog { dialog_id: String, context: DialogRuntimeContext },
}

#[derive(Debug, Clone, PartialEq, Eq)]
pub enum ProgressCommand {
    SetFlag { flag: String, value: FlagValue },
    IncrementFlag { flag: String, amount: i32 },
    ClearFlag { flag: String },
    SaveGame { slot: u8 },
    LoadGame { slot: u8 },
}

/// The entity a target names: the player, a fixed entity, or one of the
/// trigger's entities; a rule's owner names none.
pub open spec fn resolved_target(target: RuleTarget, context: TriggerContext, player_id: Option<EntityId>) -> Option<EntityId> {
    match target {
        RuleTarget::Player => player_id,
        RuleTarget::Entity(entity_id) => Some(entity_id),
        RuleTarget::TriggerSelf => context.trigger_self,
        RuleTarget::TriggerOther => context.trigger_other,
        RuleTarget::RuleOwner => None,
    }
}

pub open spec fn audio_channel_of(channel: RuleSoundChannel) -> AudioChannel {
    match channel {
        RuleSoundChannel::Movement => AudioChannel::Movement,
        RuleSoundChannel::Collision => AudioChannel::Collision,
    }
}

/// Whether an action buffers a command: its text ids are not blank after
/// trimming, its values resolved, its target names an entity, and a
/// teleport's tile is not negative.
pub open spec fn emits(action: RuleAction, context: TriggerContext, player_id: Option<EntityId>) -> bool {
    match action {
        RuleAction::PlaySound { channel: _, sound_id } => trimmed(sound_id@).len() > 0,
        RuleAction::PlayMusic { track_id } => trimmed(track_id@).len() > 0,
        RuleAction::PlayAnimation { target, state: _ } => resolved_target(target, context, player_id) is Some,
        RuleAction::SetVelocity { target, velocity } => velocity is Ok && resolved_target(target, context, player_id) is Some,
        RuleAction::SwitchScene { .. } => true,
        RuleAction::StartDialog { dialog_id } => trimmed(dialog_id@).len() > 0,
        RuleAction::ShowUi { ui_id } => trimmed(ui_id@).len() > 0,
        RuleAction::HideUi { ui_id } => trimmed(ui_id@).len() > 0,
        RuleAction::UpdateUiBinding { ui_id, binding_key, value } =>
            trimmed(ui_id@).len() > 0 && trimmed(binding_key@).len() > 0 && value is Ok,
        RuleAction::SaveGame { .. } => true,
        RuleAction::LoadGame { .. } => true,
        RuleAction::Spawn { entity_type: _, position } => position is Ok,
        RuleAction::DestroySelf { target } => resolved_target(target, context, player_id) is Some,
        RuleAction::DamageEntity { target, amount } => amount is Ok && resolved_target(target, context, player_id) is Some,
        RuleAction::HealEntity { target, amount } => amount is Ok && resolved_target(target, context, player_id) is Some,
        RuleAction::SetEntityActive { target, active: _ } => resolved_target(target, context, player_id) is Some,
        RuleAction::TeleportEntity { target, tile_x, tile_y } => {
            &&& tile_x matches Ok(x) && x >= 0
            &&& tile_y matches Ok(y) && y >= 0
            &&& resolved_target(target, context, player_id) is Some
        },
        RuleAction::AddInventoryItem { target, .. } => resolved_target(target, context, player_id) is Some,
        RuleAction::RemoveInventoryItem { target, .. } => resolved_target(target, context, player_id) is Some,
        RuleAction::SetFlag { flag, value } => trimmed(flag@).len() > 0 && value is Ok,
        RuleAction::IncrementFlag { flag, amount } => trimmed(flag@).len() > 0 && amount is Ok,
        RuleAction::ClearFlag { flag } => trimmed(flag@).len() > 0,
    }
}

/// `cmd` is the command an emitting action buffers: ids trimmed where the
/// action trims them, the resolved entity and values filled in.
pub open spec fn is_command_for(cmd: RuleCommand, action: RuleAction, context: TriggerContext, player_id: Option<EntityId>) -> bool {
    let entity = resolved_target_of(action, context, player_id);
    match action {
        RuleAction::PlaySound { channel, sound_id } =>
            cmd matches RuleCommand::Audio(AudioCommand::PlaySound { channel: c, sound_id: s })
                && c == audio_channel_of(channel) && s@ == trimmed(sound_id@),
        RuleAction::PlayMusic { track_id } =>
            cmd matches RuleCommand::Audio(AudioCommand::PlayMusic { track_id: t }) && t@ == trimmed(track_id@),
        RuleAction::PlayAnimation { target: _, state } =>
            cmd == RuleCommand::Animation(AnimationCommand::PlayAnimation { entity_id: entity, state }),
        RuleAction::SetVelocity { target: _, velocity } =>
            cmd == RuleCommand::Motion(MotionCommand::SetVelocity { entity_id: entity, velocity: velocity->Ok_0 }),
        RuleAction::SwitchScene { scene_name, spawn_point_id, transition, duration_ms } =>
            cmd matches RuleCommand::Scene(SceneCommand::SwitchScene { scene_name: n, spawn_point_id: p, transition: t, duration_ms: d })
                && n@ == scene_name@ && p@ == spawn_point_id@ && t == transition && d == duration_ms,
        RuleAction::StartDialog { dialog_id } =>
            cmd matches RuleCommand::Scene(SceneCommand::StartDialog { dialog_id: d, context: c })
                && d@ == trimmed(dialog_id@)
                && c == (DialogRuntimeContext { interactor: context.trigger_self, speaker: context.trigger_other }),
        RuleAction::ShowUi { ui_id } =>
            cmd matches RuleCommand::Ui(UiCommand::ShowUi { ui_id: u }) && u@ == ui_id@,
        RuleAction::HideUi { ui_id } =>
            cmd matches RuleCommand::Ui(UiCommand::HideUi { ui_id: u }) && u@ == ui_id@,
        RuleAction::UpdateUiBinding { ui_id, binding_key, value } =>
            cmd matches RuleCommand::Ui(UiCommand::UpdateUiBinding { ui_id: u, binding_key: k, value: v })
                && u@ == ui_id@ && k@ == trimmed(binding_key@) && v == value->Ok_0,
        RuleAction::SaveGame { slot } => cmd == RuleCommand::Progress(ProgressCommand::SaveGame { slot }),
        RuleAction::LoadGame { slot } => cmd == RuleCommand::Progress(ProgressCommand::LoadGame { slot }),
        RuleAction::Spawn { entity_type, position } =>
            cmd == RuleCommand::Entity(EntityCommand::Spawn { entity_type, position: position->Ok_0 }),
        RuleAction::DestroySelf { target: _ } =>
            cmd == RuleCommand::Entity(EntityCommand::DestroySelf { entity_id: entity }),
        RuleAction::DamageEntity { target: _, amount } =>
            cmd == RuleCommand::Entity(EntityCommand::DamageEntity { entity_id: entity, amount: amount->Ok_0 }),
        RuleAction::HealEntity { target: _, amount } =>
            cmd == RuleCommand::Entity(EntityCommand::HealEntity { entity_id: entity, amount: amount->Ok_0 }),
        RuleAction::SetEntityActive { target: _, active } =>
            cmd == RuleCommand::Entity(EntityCommand::SetEntityActive { entity_id: entity, active }),
        RuleAction::TeleportEntity { target: _, tile_x, tile_y } =>
            cmd == RuleCommand::Entity(EntityCommand::TeleportEntity {
                entity_id: entity,
                tile_x: tile_x->Ok_0 as u32,
                tile_y: tile_y->Ok_0 as u32,
            }),
        RuleAction::AddInventoryItem { target: _, item_id, count } =>
            cmd matches RuleCommand::Inventory(InventoryCommand::AddInventoryItem { entity_id: e, item_id: i, count: n })
                && e == entity && i@ == item_id@ && n == count,
        RuleAction::RemoveInventoryItem { target: _, item_id, count } =>
            cmd matches RuleCommand::Inventory(InventoryCommand::RemoveInventoryItem { entity_id: e, item_id: i, count: n })
                && e == entity && i@ == item_id@ && n == count,
        RuleAction::SetFlag { flag, value } =>
            cmd matches RuleCommand::Progress(ProgressCommand::SetFlag { flag: f, value: v })
                && f@ == trimmed(flag@) && v == value->Ok_0,
        RuleAction::IncrementFlag { flag, amount } =>
            cmd matches RuleCommand::Progress(ProgressCommand::IncrementFlag { flag: f, amount: a })
                && f@ == trimmed(flag@) && a == amount->Ok_0,
        RuleAction::ClearFlag { flag } =>
            cmd matches RuleCommand::Progress(ProgressCommand::ClearFlag { flag: f }) && f@ == trimmed(flag@),
    }
}

/// The entity an action's target resolves to (arbitrary for actions
/// without a target or whose target names none).
pub open spec fn resolved_target_of(action: RuleAction, context: TriggerContext, player_id: Option<EntityId>) -> EntityId {
    match action {
        RuleAction::PlayAnimation { target, .. }
        | RuleAction::SetVelocity { target, .. }
        | RuleAction::DestroySelf { target }
        | RuleAction::DamageEntity { target, .. }
        | RuleAction::HealEntity { target, .. }
        | RuleAction::SetEntityActive { target, .. }
        | RuleAction::TeleportEntity { target, .. }
        | RuleAction::AddInventoryItem { target, .. }
        | RuleAction::RemoveInventoryItem { target, .. } => resolved_target(target, context, player_id)->Some_0,
        _ => 0,
    }
}

/// `after` is `before` with the action's command appended when it emits
/// one, and unchanged otherwise.
pub open spec fn buffered(before: Seq<RuleCommand>, after: Seq<RuleCommand>, action: RuleAction, context: TriggerContext, player_id: Option<EntityId>) -> bool {
    if emits(action, context, player_id) {
        &&& after.len() == before.len() + 1
        &&& after.subrange(0, before.len() as int) == before
        &&& is_command_for(after[before.len() as int], action, context, player_id)
    } else {
        after == before
    }
}

pub open spec fn is_audio_or_motion(action: RuleAction) -> bool {
    action is PlaySound || action is PlayMusic || action is PlayAnimation || action is SetVelocity
}

pub open spec fn is_scene_dialog_or_persistence(action: RuleAction) -> bool {
    action is SwitchScene || action is StartDialog || action is ShowUi || action is HideUi
        || action is UpdateUiBinding || action is SaveGame || action is LoadGame
}

pub open spec fn is_entity_mutation(action: RuleAction) -> bool {
    action is Spawn || action is DestroySelf || action is DamageEntity || action is HealEntity
        || action is SetEntityActive || action is TeleportEntity
}

pub open spec fn is_inventory_or_flag(action: RuleAction) -> bool {
    action is AddInventoryItem || action is RemoveInventoryItem || action is SetFlag
        || action is IncrementFlag || action is ClearFlag
}

fn push_command(command_buffer: &mut Vec<RuleCommand>, cmd: RuleCommand)
    ensures
        final(command_buffer)@ == old(command_buffer)@.push(cmd),
        final(command_buffer)@.subrange(0, old(command_buffer)@.len() as int) == old(command_buffer)@,
{
    command_buffer.push(cmd);
    assert(command_buffer@.subrange(0, old(command_buffer)@.len() as int) =~= old(command_buffer)@);
}

fn is_blank(s: &String) -> (r: bool)
    ensures
        r == (s@.len() == 0),
{
    s.as_str().unicode_len() == 0
}

/// Turns passed rules' actions into commands, resolving targets against
/// the player and the trigger.
pub struct RuleEngine {
    pub player_id: Option<EntityId>,
}

impl RuleEngine {
    /// The entity a target names for this trigger.
    pub fn resolve_rule_target(&self, target: RuleTarget, context: &TriggerContext) -> (r: Option<EntityId>)
        ensures
            r == resolved_target(target, *context, self.player_id),
    {
        match target {
            RuleTarget::Player => self.player_id,
            RuleTarget::Entity(entity_id) => Some(entity_id),
            RuleTarget::TriggerSelf => context.trigger_self,
            RuleTarget::TriggerOther => context.trigger_other,
            RuleTarget::RuleOwner => None,
        }
    }

    /// Buffers the command an action of a passed rule stands for, if any.
    pub fn buffer_rule_action(&self, action: &RuleAction, context: &TriggerContext, command_buffer: &mut Vec<RuleCommand>)
        ensures
            buffered(old(command_buffer)@, final(command_buffer)@, *action, *context, self.player_id),
    {
        match action {
            RuleAction::PlaySound { .. }
            | RuleAction::PlayMusic { .. }
            | RuleAction::PlayAnimation { .. }
            | RuleAction::SetVelocity { .. } => {
                self.buffer_audio_or_motion_action(action, context, command_buffer);
            },
            RuleAction::SwitchScene { .. }
            | RuleAction::StartDialog { .. }
            | RuleAction::ShowUi { .. }
            | RuleAction::HideUi { .. }
            | RuleAction::UpdateUiBinding { .. }
            | RuleAction::SaveGame { .. }
            | RuleAction::LoadGame { .. } => {
                self.buffer_scene_dialog_or_persistence_action(action, context, command_buffer);
            },
            RuleAction::Spawn { .. }
            | RuleAction::DestroySelf { .. }
            | RuleAction::DamageEntity { .. }
            | RuleAction::HealEntity { .. }
            | RuleAction::SetEntityActive { .. }
            | RuleAction::TeleportEntity { .. } => {
                self.buffer_entity_mutation_action(action, context, command_buffer);
            },
            RuleAction::AddInventoryItem { .. }
            | RuleAction::RemoveInventoryItem { .. }
            | RuleAction::SetFlag { .. }
            | RuleAction::IncrementFlag { .. }
            | RuleAction::ClearFlag { .. } => {
                self.buffer_inventory_or_flag_action(action, context, command_buffer);
            },
        }
    }

    fn buffer_audio_or_motion_action(&self, action: &RuleAction, context: &TriggerContext, command_buffer: &mut Vec<RuleCommand>)
        requires
            is_audio_or_motion(*action),
        ensures
            buffered(old(command_buffer)@, final(command_buffer)@, *action, *context, self.player_id),
    {
        match action {
            RuleAction::PlaySound { channel, sound_id } => {
                let sound_id = trim_text(sound_id.as_str());
                if !is_blank(&sound_id) {
                    let channel = match channel {
                        RuleSoundChannel::Movement => AudioChannel::Movement,
                        RuleSoundChannel::Collision => AudioChannel::Collision,
                    };
                    push_command(command_buffer, RuleCommand::Audio(AudioCommand::PlaySound { channel, sound_id }));
                }
            },
            RuleAction::PlayMusic { track_id } => {
                let track_id = trim_text(track_id.as_str());
                if !is_blank(&track_id) {
                    push_command(command_buffer, RuleCommand::Audio(AudioCommand::PlayMusic { track_id }));
                }
            },
            RuleAction::PlayAnimation { target, state } => {
                if let Some(entity_id) = self.resolve_rule_target(*target, context) {
                    push_command(command_buffer, RuleCommand::Animation(AnimationCommand::PlayAnimation { entity_id, state: *state }));
                }
            },
            RuleAction::SetVelocity { target, velocity } => {
                if let Ok(velocity) = velocity {
                    if let Some(entity_id) = self.resolve_rule_target(*target, context) {
                        push_command(command_buffer, RuleCommand::Motion(MotionCommand::SetVelocity { entity_id, velocity: *velocity }));
                    }
                }
            },
            _ => {},
        }
    }

    fn buffer_scene_dialog_or_persistence_action(&self, action: &RuleAction, context: &TriggerContext, command_buffer: &mut Vec<RuleCommand>)
        requires
            is_scene_dialog_or_persistence(*action),
        ensures
            buffered(old(command_buffer)@, final(command_buffer)@, *action, *context, self.player_id),
    {
        match action {
            RuleAction::SwitchScene { scene_name, spawn_point_id, transition, duration_ms } => {
                push_command(command_buffer, RuleCommand::Scene(SceneCommand::SwitchScene {
                    scene_name: scene_name.clone(),
                    spawn_point_id: spawn_point_id.clone(),
                    transition: *transition,
                    duration_ms: *duration_ms,
                }));
            },
            RuleAction::StartDialog { dialog_id } => {
                let dialog_id = trim_text(dialog_id.as_str());
                if !is_blank(&dialog_id) {
                    push_command(command_buffer, RuleCommand::Scene(SceneCommand::StartDialog {
                        dialog_id,
                        context: DialogRuntimeContext { interactor: context.trigger_self, speaker: context.trigger_other },
                    }));
                }
            },
            RuleAction::ShowUi { ui_id } => {
                if !is_blank(&trim_text(ui_id.as_str())) {
                    push_command(command_buffer, RuleCommand::Ui(UiCommand::ShowUi { ui_id: ui_id.clone() }));
                }
            },
            RuleAction::HideUi { ui_id } => {
                if !is_blank(&trim_text(ui_id.as_str())) {
                    push_command(command_buffer, RuleCommand::Ui(UiCommand::HideUi { ui_id: ui_id.clone() }));
                }
            },
            RuleAction::UpdateUiBinding { ui_id, binding_key, value } => {
                let binding_key = trim_text(binding_key.as_str());
                if !is_blank(&trim_text(ui_id.as_str())) && !is_blank(&binding_key) {
                    if let Ok(value) = value {
                        push_command(command_buffer, RuleCommand::Ui(UiCommand::UpdateUiBinding {
                            ui_id: ui_id.clone(),
                            binding_key,
                            value: *value,
                        }));
                    }
                }
            },
            RuleAction::SaveGame { slot } => {
                push_command(command_buffer, RuleCommand::Progress(ProgressCommand::SaveGame { slot: *slot }));
            },
            RuleAction::LoadGame { slot } => {
                push_command(command_buffer, RuleCommand::Progress(ProgressCommand::LoadGame { slot: *slot }));
            },
            _ => {},
        }
    }

    /// Buffers the entity command of a spawn, destroy, damage, heal,
    /// activation or teleport action.
    pub fn buffer_entity_mutation_action(&self, action: &RuleAction, context: &TriggerContext, command_buffer: &mut Vec<RuleCommand>)
        requires
            is_entity_mutation(*action),
        ensures
            buffered(old(command_buffer)@, final(command_buffer)@, *action, *context, self.player_id),
    {
        match action {
            RuleAction::Spawn { entity_type, position } => {
                if let Ok(position) = position {
                    push_command(command_buffer, RuleCommand::Entity(EntityCommand::Spawn { entity_type: *entity_type, position: *position }));
                }
            },
            RuleAction::DestroySelf { target } => {
                if let Some(entity_id) = self.resolve_rule_target(*target, context) {
                    push_command(command_buffer, RuleCommand::Entity(EntityCommand::DestroySelf { entity_id }));
                }
            },
            RuleAction::DamageEntity { target, amount } => {
                if let Ok(amount) = amount {
                    if let Some(entity_id) = self.resolve_rule_target(*target, context) {
                        push_command(command_buffer, RuleCommand::Entity(EntityCommand::DamageEntity { entity_id, amount: *amount }));
                    }
                }
            },
            RuleAction::HealEntity { target, amount } => {
                if let Ok(amount) = amount {
                    if let Some(entity_id) = self.resolve_rule_target(*target, context) {
                        push_command(command_buffer, RuleCommand::Entity(EntityCommand::HealEntity { entity_id, amount: *amount }));
                    }
                }
            },
            RuleAction::SetEntityActive { target, active } => {
                if let Some(entity_id) = self.resolve_rule_target(*target, context) {
                    push_command(command_buffer, RuleCommand::Entity(EntityCommand::SetEntityActive { entity_id, active: *active }));
                }
            },
            RuleAction::TeleportEntity { target, tile_x, tile_y } => {
                if let (Ok(x), Ok(y)) = (tile_x, tile_y) {
                    if *x >= 0 && *y >= 0 {
                        if let Some(entity_id) = self.resolve_rule_target(*target, context) {
                            push_command(command_buffer, RuleCommand::Entity(EntityCommand::TeleportEntity {
                                entity_id,
                                tile_x: *x as u32,
                                tile_y: *y as u32,
                            }));
                        }
                    }
                }
            },
            _ => {},
        }
    }

    fn buffer_inventory_or_flag_action(&self, action: &RuleAction, context: &TriggerContext, command_buffer: &mut Vec<RuleCommand>)
        requires
            is_inventory_or_flag(*action),
        ensures
            buffered(old(command_buffer)@, final(command_buffer)@, *action, *context, self.player_id),
    {
        match action {
            RuleAction::AddInventoryItem { target, item_id, count } => {
                if let Some(entity_id) = self.resolve_rule_target(*target, context) {
                    push_command(command_buffer, RuleCommand::Inventory(InventoryCommand::AddInventoryItem {
                        entity_id,
                        item_id: item_id.clone(),
                        count: *count,
                    }));
                }
            },
            RuleAction::RemoveInventoryItem { target, item_id, count } => {
                if let Some(entity_id) = self.resolve_rule_target(*target, context) {
                    push_command(command_buffer, RuleCommand::Inventory(InventoryCommand::RemoveInventoryItem {
                        entity_id,
                        item_id: item_id.clone(),
                        count: *count,
                    }));
                }
            },
            RuleAction::SetFlag { flag, value } => {
                let flag = trim_text(flag.as_str());
                if !is_blank(&flag) {
                    if let Ok(value) = value {
                        push_command(command_buffer, RuleCommand::Progress(ProgressCommand::SetFlag { flag, value: *value }));
                    }
                }
            },
            RuleAction::IncrementFlag { flag, amount } => {
                let flag = trim_text(flag.as_str());
                if !is_blank(&flag) {
                    if let Ok(amount) = amount {
                        push_command(command_buffer, RuleCommand::Progress(ProgressCommand::IncrementFlag { flag, amount: *amount }));
                    }
                }
            },
            RuleAction::ClearFlag { flag } => {
                let flag = trim_text(flag.as_str());
                if !is_blank(&flag) {
                    push_command(command_buffer, RuleCommand::Progress(ProgressCommand::ClearFlag { flag }));
                }
            },
            _ => {},
        }
    }
}

} // verus!
