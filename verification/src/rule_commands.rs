//! Applying the commands that rules buffered in a frame: what goes out to
//! audio, animation, motion, scenes, dialogs, saves and UI, and what is
//! left for the world to carry out.

use vstd::prelude::*;
use crate::input::AudioChannel;
use crate::rules::{
    AnimationCommand, AnimationState, AudioCommand, DialogRuntimeContext, EntityId, FlagValue,
    MotionCommand, ProgressCommand, RuleCommand, SceneCommand, SceneTransitionEffect, UiCommand,
};
use crate::text::{trimmed, trim_text};

verus! {

/// A sound for the audio system.
#[derive(Debug, Clone, PartialEq, Eq)]
pub enum AudioEvent {
    /// A one-shot sound on a channel, from a position heard within a radius
    /// where they are given.
    PlaySound {
        channel: AudioChannel,
        sound_id: String,
        source_position: Option<[i32; 2]>,
        hearing_radius: Option<u32>,
    },
    /// Background music to start.
    BackgroundMusic(String),
}

/// A request to the UI layer.
#[derive(Debug, Clone, PartialEq, Eq)]
pub enum UiRequest {
    ShowUi { ui_id: String },
    HideUi { ui_id: String },
    UpdateUiBinding { ui_id: String, binding_key: String, value: FlagValue },
}

/// A request to save to or load from a slot.
#[derive(Debug, Clone, Copy, PartialEq, Eq, Structural)]
pub enum PersistenceRequest {
    SaveSlot { slot: u8 },
    LoadSlot { slot: u8 },
}

/// A request to switch to a scene, arriving at a spawn point.
#[derive(Debug, Clone, PartialEq, Eq)]
pub struct SceneSwitchRequest {
    pub scene_name: String,
    pub spawn_point_id: String,
    pub transition: Option<SceneTransitionEffect>,
    pub duration_ms: Option<u32>,
}

/// A request to start a dialog.
#[derive(Debug, Clone, PartialEq, Eq)]
pub struct DialogStartRequest {
    pub dialog_id: String,
    pub context: DialogRuntimeContext,
}

/// What applying a frame's commands gives: the audio events in order; for
/// each entity the first animation and the first velocity asked for, in
/// increasing entity id; the first scene switch, dialog and save or load
/// asked for; the UI requests in order; and, in order, the commands that
/// change the world (entities, inventories, flags) for it to carry out.
#[derive(Debug, Clone, PartialEq, Eq)]
pub struct AppliedRuleCommands {
    pub audio_events: Vec<AudioEvent>,
    pub pending_animations: Vec<(EntityId, AnimationState)>,
    pub velocities: Vec<(EntityId, [i32; 2])>,
    pub pending_scene_switch: Option<SceneSwitchRequest>,
    pub pending_dialog_start: Option<DialogStartRequest>,
    pub pending_persistence: Option<PersistenceRequest>,
    pub pending_ui_requests: Vec<UiRequest>,
    pub world_commands: Vec<RuleCommand>,
}

/// The audio events of `commands`, in order.
pub open spec fn audio_events(commands: Seq<RuleCommand>) -> Seq<AudioEvent>
    decreases commands.len(),
{
    if commands.len() == 0 {
        Seq::empty()
    } else {
        let earlier = audio_events(commands.drop_last());
        match commands.last() {
            RuleCommand::Audio(AudioCommand::PlaySound { channel, sound_id }) => earlier.push(
                AudioEvent::PlaySound { channel, sound_id, source_position: None, hearing_radius: None },
            ),
            RuleCommand::Audio(AudioCommand::PlayMusic { track_id }) => earlier.push(AudioEvent::BackgroundMusic(track_id)),
            _ => earlier,
        }
    }
}

/// For each entity, the first animation `commands` ask for.
pub open spec fn first_animations(commands: Seq<RuleCommand>) -> Map<EntityId, AnimationState>
    decreases commands.len(),
{
    if commands.len() == 0 {
        Map::empty()
    } else {
        let earlier = first_animations(commands.drop_last());
        match commands.last() {
            RuleCommand::Animation(AnimationCommand::PlayAnimation { entity_id, state }) =>
                if earlier.contains_key(entity_id) { earlier } else { earlier.insert(entity_id, state) },
            _ => earlier,
        }
    }
}

/// For each entity, the first velocity `commands` ask for.
pub open spec fn first_velocities(commands: Seq<RuleCommand>) -> Map<EntityId, [i32; 2]>
    decreases commands.len(),
{
    if commands.len() == 0 {
        Map::empty()
    } else {
        let earlier = first_velocities(commands.drop_last());
        match commands.last() {
            RuleCommand::Motion(MotionCommand::SetVelocity { entity_id, velocity }) =>
                if earlier.contains_key(entity_id) { earlier } else { earlier.insert(entity_id, velocity) },
            _ => earlier,
        }
    }
}

/// The scene switch a command asks for, by the views of the trimmed scene
/// name and spawn point: none unless both are non-blank.
pub open spec fn scene_switch_of(command: RuleCommand) -> Option<(Seq<char>, Seq<char>, Option<SceneTransitionEffect>, Option<u32>)> {
    match command {
        RuleCommand::Scene(SceneCommand::SwitchScene { scene_name, spawn_point_id, transition, duration_ms }) =>
            if trimmed(scene_name@).len() > 0 && trimmed(spawn_point_id@).len() > 0 {
                Some((trimmed(scene_name@), trimmed(spawn_point_id@), transition, duration_ms))
            } else {
                None
            },
        _ => None,
    }
}

/// The first scene switch that `commands` ask for.
pub open spec fn first_scene_switch(commands: Seq<RuleCommand>) -> Option<(Seq<char>, Seq<char>, Option<SceneTransitionEffect>, Option<u32>)>
    decreases commands.len(),
{
    if commands.len() == 0 {
        None
    } else {
        let earlier = first_scene_switch(commands.drop_last());
        if earlier is Some { earlier } else { scene_switch_of(commands.last()) }
    }
}

pub open spec fn scene_switch_view(r: Option<SceneSwitchRequest>) -> Option<(Seq<char>, Seq<char>, Option<SceneTransitionEffect>, Option<u32>)> {
    match r {
        Some(s) => Some((s.scene_name@, s.spawn_point_id@, s.transition, s.duration_ms)),
        None => None,
    }
}

/// The first dialog that `commands` ask to start.
pub open spec fn first_dialog_start(commands: Seq<RuleCommand>) -> Option<DialogStartRequest>
    decreases commands.len(),
{
    if commands.len() == 0 {
        None
    } else {
        let earlier = first_dialog_start(commands.drop_last());
        match (earlier, commands.last()) {
            (None, RuleCommand::Scene(SceneCommand::StartDialog { dialog_id, context })) =>
                Some(DialogStartRequest { dialog_id, context }),
            _ => earlier,
        }
    }
}

/// The first save or load that `commands` ask for.
pub open spec fn first_persistence(commands: Seq<RuleCommand>) -> Option<PersistenceRequest>
    decreases commands.len(),
{
    if commands.len() == 0 {
        None
    } else {
        let earlier = first_persistence(commands.drop_last());
        match (earlier, commands.last()) {
            (None, RuleCommand::Progress(ProgressCommand::SaveGame { slot })) => Some(PersistenceRequest::SaveSlot { slot }),
            (None, RuleCommand::Progress(ProgressCommand::LoadGame { slot })) => Some(PersistenceRequest::LoadSlot { slot }),
            _ => earlier,
        }
    }
}

/// The UI requests of `commands`, in order.
pub open spec fn ui_requests(commands: Seq<RuleCommand>) -> Seq<UiRequest>
    decreases commands.len(),
{
    if commands.len() == 0 {
        Seq::empty()
    } else {
        let earlier = ui_requests(commands.drop_last());
        match commands.last() {
            RuleCommand::Ui(UiCommand::ShowUi { ui_id }) => earlier.push(UiRequest::ShowUi { ui_id }),
            RuleCommand::Ui(UiCommand::HideUi { ui_id }) => earlier.push(UiRequest::HideUi { ui_id }),
            RuleCommand::Ui(UiCommand::UpdateUiBinding { ui_id, binding_key, value }) =>
                earlier.push(UiRequest::UpdateUiBinding { ui_id, binding_key, value }),
            _ => earlier,
        }
    }
}

/// A command that the world carries out: one on entities or inventories,
/// or one that sets, increments or clears a flag.
pub open spec fn changes_world(command: RuleCommand) -> bool {
    match command {
        RuleCommand::Entity(_) | RuleCommand::Inventory(_) => true,
        RuleCommand::Progress(p) => !(p is SaveGame || p is LoadGame),
        _ => false,
    }
}

/// The commands of `commands` that the world carries out, in order.
pub open spec fn world_commands(commands: Seq<RuleCommand>) -> Seq<RuleCommand>
    decreases commands.len(),
{
    if commands.len() == 0 {
        Seq::empty()
    } else {
        let earlier = world_commands(commands.drop_last());
        if changes_world(commands.last()) { earlier.push(commands.last()) } else { earlier }
    }
}

/// `entries` lists `m` in strictly increasing key.
pub open spec fn lists_map<T>(entries: Seq<(EntityId, T)>, m: Map<EntityId, T>) -> bool {
    &&& forall|a: int, b: int| 0 <= a < b < entries.len() ==> (#[trigger] entries[a]).0 < (#[trigger] entries[b]).0
    &&& forall|e: (EntityId, T)| entries.contains(e) <==> (m.contains_key(e.0) && m[e.0] == e.1)
}

/// Keeps `entries` listing `m` after `id` is offered `value`: the first
/// value offered for an id stays.
fn offer_first<T: Copy>(entries: &mut Vec<(EntityId, T)>, id: EntityId, value: T, Ghost(m): Ghost<Map<EntityId, T>>)
    requires
        lists_map(old(entries)@, m),
    ensures
        lists_map(final(entries)@, if m.contains_key(id) { m } else { m.insert(id, value) }),
{
    let ghost m2 = if m.contains_key(id) { m } else { m.insert(id, value) };
    let mut p: usize = 0;
    while p < entries.len() && entries[p].0 < id
        invariant
            p <= entries@.len(),
            forall|k: int| 0 <= k < p ==> (#[trigger] entries@[k]).0 < id,
        decreases entries.len() - p,
    {
        p = p + 1;
    }
    let ghost before = entries@;
    if p < entries.len() && entries[p].0 == id {
        assert(before.contains(before[p as int]));
        return;
    }
    assert(!m.contains_key(id)) by {
        if m.contains_key(id) {
            assert(before.contains((id, m[id])));
            let k = choose|k: int| 0 <= k < before.len() && before[k] == (id, m[id]);
            if k < p {
            } else if k > p {
                assert(before[p as int].0 < before[k].0);
            }
        }
    }
    entries.insert(p, (id, value));
    let ghost after = entries@;
    assert(after == before.insert(p as int, (id, value)));
    assert forall|a: int, b: int| 0 <= a < b < after.len() implies (#[trigger] after[a]).0 < (#[trigger] after[b]).0 by {
        if p < before.len() {
            assert(before[p as int].0 > id);
        }
        if b < p {
        } else if b == p {
        } else if a < p {
            assert(before[p as int].0 <= before[b - 1].0);
        } else if a == p {
            assert(before[p as int].0 <= before[b - 1].0);
        } else {
        }
    }
    assert forall|e: (EntityId, T)| after.contains(e) <==> (m2.contains_key(e.0) && m2[e.0] == e.1) by {
        if after.contains(e) {
            let k = choose|k: int| 0 <= k < after.len() && after[k] == e;
            if k < p {
                assert(before[k] == e);
                assert(before.contains(e));
            } else if k > p {
                assert(before[k - 1] == e);
                assert(before.contains(e));
            }
        }
        if m2.contains_key(e.0) && m2[e.0] == e.1 {
            if e.0 == id {
                assert(after[p as int] == e);
            } else {
                assert(before.contains(e));
                let k = choose|k: int| 0 <= k < before.len() && before[k] == e;
                if k < p {
                    assert(after[k] == e);
                } else {
                    assert(after[k + 1] == e);
                }
            }
        }
    }
}

/// Applies a frame's commands in order; see `AppliedRuleCommands` for what
/// each kind of command gives.
pub fn apply_rule_commands(commands: Vec<RuleCommand>) -> (r: AppliedRuleCommands)
    ensures
        r.audio_events@ == audio_events(commands@),
        lists_map(r.pending_animations@, first_animations(commands@)),
        lists_map(r.velocities@, first_velocities(commands@)),
        scene_switch_view(r.pending_scene_switch) == first_scene_switch(commands@),
        r.pending_dialog_start == first_dialog_start(commands@),
        r.pending_persistence == first_persistence(commands@),
        r.pending_ui_requests@ == ui_requests(commands@),
        r.world_commands@ == world_commands(commands@),
{
    let ghost start = commands@;
    let mut rest = commands;
    let mut out = AppliedRuleCommands {
        audio_events: Vec::new(),
        pending_animations: Vec::new(),
        velocities: Vec::new(),
        pending_scene_switch: None,
        pending_dialog_start: None,
        pending_persistence: None,
        pending_ui_requests: Vec::new(),
        world_commands: Vec::new(),
    };
    let ghost mut i: int = 0;
    while rest.len() > 0
        invariant
            0 <= i <= start.len(),
            rest@ == start.subrange(i, start.len() as int),
            out.audio_events@ == audio_events(start.subrange(0, i)),
            lists_map(out.pending_animations@, first_animations(start.subrange(0, i))),
            lists_map(out.velocities@, first_velocities(start.subrange(0, i))),
            scene_switch_view(out.pending_scene_switch) == first_scene_switch(start.subrange(0, i)),
            out.pending_dialog_start == first_dialog_start(start.subrange(0, i)),
            out.pending_persistence == first_persistence(start.subrange(0, i)),
            out.pending_ui_requests@ == ui_requests(start.subrange(0, i)),
            out.world_commands@ == world_commands(start.subrange(0, i)),
        decreases rest.len(),
    {
        let command = rest.remove(0);
        let ghost prefix = start.subrange(0, i);
        let ghost next = start.subrange(0, i + 1);
        assert(next.drop_last() == prefix);
        assert(command == start[i]);
        assert(next.last() == command);
        proof {
            i = i + 1;
        }
        assert(rest@ == start.subrange(i, start.len() as int));
        match command {
            RuleCommand::Audio(AudioCommand::PlaySound { channel, sound_id }) => {
                out.audio_events.push(AudioEvent::PlaySound { channel, sound_id, source_position: None, hearing_radius: None });
            },
            RuleCommand::Audio(AudioCommand::PlayMusic { track_id }) => {
                out.audio_events.push(AudioEvent::BackgroundMusic(track_id));
            },
            RuleCommand::Animation(AnimationCommand::PlayAnimation { entity_id, state }) => {
                offer_first(&mut out.pending_animations, entity_id, state, Ghost(first_animations(prefix)));
            },
            RuleCommand::Motion(MotionCommand::SetVelocity { entity_id, velocity }) => {
                offer_first(&mut out.velocities, entity_id, velocity, Ghost(first_velocities(prefix)));
            },
            RuleCommand::Scene(SceneCommand::SwitchScene { scene_name, spawn_point_id, transition, duration_ms }) => {
                if out.pending_scene_switch.is_none() {
                    let target = trim_text(scene_name.as_str());
                    let spawn = trim_text(spawn_point_id.as_str());
                    if target.as_str().unicode_len() > 0 && spawn.as_str().unicode_len() > 0 {
                        out.pending_scene_switch = Some(SceneSwitchRequest {
                            scene_name: target,
                            spawn_point_id: spawn,
                            transition,
                            duration_ms,
                        });
                    }
                }
            },
            RuleCommand::Scene(SceneCommand::StartDialog { dialog_id, context }) => {
                if out.pending_dialog_start.is_none() {
                    out.pending_dialog_start = Some(DialogStartRequest { dialog_id, context });
                }
            },
            RuleCommand::Ui(UiCommand::ShowUi { ui_id }) => {
                out.pending_ui_requests.push(UiRequest::ShowUi { ui_id });
            },
            RuleCommand::Ui(UiCommand::HideUi { ui_id }) => {
                out.pending_ui_requests.push(UiRequest::HideUi { ui_id });
            },
            RuleCommand::Ui(UiCommand::UpdateUiBinding { ui_id, binding_key, value }) => {
                out.pending_ui_requests.push(UiRequest::UpdateUiBinding { ui_id, binding_key, value });
            },
            RuleCommand::Progress(ProgressCommand::SaveGame { slot }) => {
                if out.pending_persistence.is_none() {
                    out.pending_persistence = Some(PersistenceRequest::SaveSlot { slot });
                }
            },
            RuleCommand::Progress(ProgressCommand::LoadGame { slot }) => {
                if out.pending_persistence.is_none() {
                    out.pending_persistence = Some(PersistenceRequest::LoadSlot { slot });
                }
            },
            other => {
                out.world_commands.push(other);
            },
        }
    }
    assert(start.subrange(0, i) == start);
    out
}

} // verus!
