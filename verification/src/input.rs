//! Platform-independent input: the keys and actions the game knows, the
//! keys held globally and per movement profile, and edge-triggered actions.

use vstd::prelude::*;

verus! {

/// Core input keys abstraction (platform-independent).
#[derive(Debug, Clone, Copy, PartialEq, Eq, Hash, Structural)]
pub enum InputKey {
    Up,
    Down,
    Left,
    Right,
    DebugToggle,
    Interact,
    AttackPrimary,
    AttackSecondary,
    Inventory,
    Pause,
}

/// Profile-scoped action buttons that can be mapped independently from movement.
#[derive(Debug, Clone, Copy, PartialEq, Eq, Hash, Structural)]
pub enum InputAction {
    Primary,
}

/// Which control scheme drives an entity's movement.
#[derive(Debug, Clone, Copy, PartialEq, Eq, Hash, Structural)]
pub enum MovementProfile {
    NoProfile,
    LegacyDefault,
    PlayerWasd,
}

#[derive(Debug, Clone, Copy, PartialEq, Eq, Structural)]
pub enum AudioChannel {
    Movement,
    Collision,
}

#[derive(Debug, Clone, Copy, PartialEq, Eq, Structural)]
pub enum InputStateEffect {
    NoEffect,
    ToggleDebugCollisionRendering,
}

/// The fixed order in which held keys are reported.
pub open spec fn key_order(key: InputKey) -> int {
    match key {
        InputKey::Up => 0,
        InputKey::Down => 1,
        InputKey::Left => 2,
        InputKey::Right => 3,
        InputKey::DebugToggle => 4,
        InputKey::Interact => 5,
        InputKey::AttackPrimary => 6,
        InputKey::AttackSecondary => 7,
        InputKey::Inventory => 8,
        InputKey::Pause => 9,
    }
}

pub open spec fn key_at(i: int) -> InputKey {
    if i == 0 { InputKey::Up }
    else if i == 1 { InputKey::Down }
    else if i == 2 { InputKey::Left }
    else if i == 3 { InputKey::Right }
    else if i == 4 { InputKey::DebugToggle }
    else if i == 5 { InputKey::Interact }
    else if i == 6 { InputKey::AttackPrimary }
    else if i == 7 { InputKey::AttackSecondary }
    else if i == 8 { InputKey::Inventory }
    else { InputKey::Pause }
}

pub fn input_key_order(key: InputKey) -> (r: u8)
    ensures
        r as int == key_order(key),
{
    match key {
        InputKey::Up => 0,
        InputKey::Down => 1,
        InputKey::Left => 2,
        InputKey::Right => 3,
        InputKey::DebugToggle => 4,
        InputKey::Interact => 5,
        InputKey::AttackPrimary => 6,
        InputKey::AttackSecondary => 7,
        InputKey::Inventory => 8,
        InputKey::Pause => 9,
    }
}

fn key_for_order(i: usize) -> (k: InputKey)
    requires
        i < 10,
    ensures
        k == key_at(i as int),
        key_order(k) == i,
{
    if i == 0 { InputKey::Up }
    else if i == 1 { InputKey::Down }
    else if i == 2 { InputKey::Left }
    else if i == 3 { InputKey::Right }
    else if i == 4 { InputKey::DebugToggle }
    else if i == 5 { InputKey::Interact }
    else if i == 6 { InputKey::AttackPrimary }
    else if i == 7 { InputKey::AttackSecondary }
    else if i == 8 { InputKey::Inventory }
    else { InputKey::Pause }
}

pub open spec fn profile_index(p: MovementProfile) -> int {
    match p {
        MovementProfile::NoProfile => 0,
        MovementProfile::LegacyDefault => 1,
        MovementProfile::PlayerWasd => 2,
    }
}

pub open spec fn profile_at(i: int) -> MovementProfile {
    if i == 0 { MovementProfile::NoProfile } else if i == 1 { MovementProfile::LegacyDefault } else { MovementProfile::PlayerWasd }
}

fn profile_slot(p: MovementProfile) -> (i: usize)
    ensures
        i as int == profile_index(p),
        i < 3,
{
    match p {
        MovementProfile::NoProfile => 0,
        MovementProfile::LegacyDefault => 1,
        MovementProfile::PlayerWasd => 2,
    }
}

fn profile_for_slot(i: usize) -> (p: MovementProfile)
    requires
        i < 3,
    ensures
        p == profile_at(i as int),
        profile_index(p) == i,
{
    if i == 0 { MovementProfile::NoProfile } else if i == 1 { MovementProfile::LegacyDefault } else { MovementProfile::PlayerWasd }
}

/// The first `n` keys in the fixed key order.
pub open spec fn keys_in_order(n: nat) -> Seq<InputKey> {
    Seq::new(n, |i: int| key_at(i))
}

/// Membership in `keys`, as a predicate.
pub open spec fn member_of(keys: Set<InputKey>) -> spec_fn(InputKey) -> bool {
    |k: InputKey| keys.contains(k)
}

/// `keys` listed once each in the fixed key order.
pub open spec fn ordered_keys(keys: Set<InputKey>) -> Seq<InputKey> {
    keys_in_order(10).filter(member_of(keys))
}

/// What the input state holds: the keys held globally, the keys and
/// actions held per profile, and the action presses not yet taken. A
/// profile appears in a map only while its set is not empty.
pub struct InputModel {
    pub keys: Set<InputKey>,
    pub profile_keys: Map<MovementProfile, Set<InputKey>>,
    pub actions_held: Map<MovementProfile, Set<InputAction>>,
    pub pending: Map<MovementProfile, Set<InputAction>>,
}

/// The set a map holds for `p`, empty where it holds none.
pub open spec fn entry_of<T>(m: Map<MovementProfile, Set<T>>, p: MovementProfile) -> Set<T> {
    if m.contains_key(p) { m[p] } else { Set::empty() }
}

/// `m` with the set for `p` replaced by `s`; an empty set drops the entry.
pub open spec fn with_entry<T>(m: Map<MovementProfile, Set<T>>, p: MovementProfile, s: Set<T>) -> Map<MovementProfile, Set<T>> {
    if s == Set::<T>::empty() { m.remove(p) } else { m.insert(p, s) }
}

/// The keys held for a profile: the global ones and the profile's own.
pub open spec fn held_for(m: InputModel, profile: MovementProfile) -> Set<InputKey> {
    m.keys.union(entry_of(m.profile_keys, profile))
}

/// Every key held, globally or for any profile.
pub open spec fn held_anywhere(m: InputModel) -> Set<InputKey> {
    Set::new(|k: InputKey| m.keys.contains(k) || exists|p: MovementProfile| #[trigger] entry_of(m.profile_keys, p).contains(k))
}

pub open spec fn empty_model() -> InputModel {
    InputModel {
        keys: Set::empty(),
        profile_keys: Map::empty(),
        actions_held: Map::empty(),
        pending: Map::empty(),
    }
}

/// The state after an action of `profile` is pressed: the action is held,
/// and queued as pending only if it was not held before.
pub open spec fn after_action_press(m: InputModel, profile: MovementProfile, action: InputAction) -> InputModel {
    InputModel {
        actions_held: with_entry(m.actions_held, profile, entry_of(m.actions_held, profile).insert(action)),
        pending: if entry_of(m.actions_held, profile).contains(action) {
            m.pending
        } else {
            with_entry(m.pending, profile, entry_of(m.pending, profile).insert(action))
        },
        ..m
    }
}

/// The state after an action of `profile` is released.
pub open spec fn after_action_release(m: InputModel, profile: MovementProfile, action: InputAction) -> InputModel {
    InputModel {
        actions_held: with_entry(m.actions_held, profile, entry_of(m.actions_held, profile).remove(action)),
        ..m
    }
}

/// The actions of `s` in their fixed order.
pub open spec fn ordered_actions(s: Set<InputAction>) -> Seq<InputAction> {
    if s.contains(InputAction::Primary) { seq![InputAction::Primary] } else { Seq::empty() }
}

/// The first `n` profiles in their fixed order.
pub open spec fn profiles_in_order(n: nat) -> Seq<MovementProfile> {
    Seq::new(n, |i: int| profile_at(i))
}

pub open spec fn has_entry<T>(m: Map<MovementProfile, Set<T>>) -> spec_fn(MovementProfile) -> bool {
    |p: MovementProfile| m.contains_key(p)
}

/// The profiles that have an entry in `m`, in their fixed order.
pub open spec fn ordered_profiles<T>(m: Map<MovementProfile, Set<T>>) -> Seq<MovementProfile> {
    profiles_in_order(3).filter(has_entry(m))
}

/// The runtime input state of a game.
#[derive(Debug)]
pub struct InputRuntimeState {
    keys_held: Vec<bool>,
    profile_keys_held: Vec<bool>,
    profile_actions_held: Vec<bool>,
    pending_profile_actions: Vec<bool>,
}

pub open spec fn key_flags(flags: Seq<bool>, base: int) -> Set<InputKey> {
    Set::new(|k: InputKey| flags[base + key_order(k)])
}

pub open spec fn action_flags(held: bool) -> Set<InputAction> {
    if held { set![InputAction::Primary] } else { Set::empty() }
}

pub proof fn lemma_key_order(k: InputKey)
    ensures
        0 <= key_order(k) < 10,
        key_at(key_order(k)) == k,
{
}

pub proof fn lemma_profile_index(p: MovementProfile)
    ensures
        0 <= profile_index(p) < 3,
        profile_at(profile_index(p)) == p,
{
}

impl View for InputRuntimeState {
    type V = InputModel;

    closed spec fn view(&self) -> InputModel {
        InputModel {
            keys: key_flags(self.keys_held@, 0),
            profile_keys: Map::new(
                |p: MovementProfile| key_flags(self.profile_keys_held@, 10 * profile_index(p)) != Set::<InputKey>::empty(),
                |p: MovementProfile| key_flags(self.profile_keys_held@, 10 * profile_index(p)),
            ),
            actions_held: Map::new(
                |p: MovementProfile| self.profile_actions_held@[profile_index(p)],
                |p: MovementProfile| action_flags(true),
            ),
            pending: Map::new(
                |p: MovementProfile| self.pending_profile_actions@[profile_index(p)],
                |p: MovementProfile| action_flags(true),
            ),
        }
    }
}

fn false_flags(n: usize) -> (v: Vec<bool>)
    ensures
        v@.len() == n,
        forall|i: int| 0 <= i < n ==> !#[trigger] v@[i],
{
    let mut v: Vec<bool> = Vec::new();
    let mut i: usize = 0;
    while i < n
        invariant
            i <= n,
            v@.len() == i,
            forall|j: int| 0 <= j < i ==> !#[trigger] v@[j],
        decreases n - i,
    {
        v.push(false);
        i = i + 1;
    }
    v
}

impl InputRuntimeState {
    /// The representation has a flag for every key of every profile.
    #[verifier::type_invariant]
    closed spec fn wf(self) -> bool {
        &&& self.keys_held@.len() == 10
        &&& self.profile_keys_held@.len() == 30
        &&& self.profile_actions_held@.len() == 3
        &&& self.pending_profile_actions@.len() == 3
    }

    proof fn lemma_flags_unchanged_elsewhere(old_flags: Seq<bool>, new_flags: Seq<bool>, base: int, at: int)
        requires
            old_flags.len() == new_flags.len(),
            0 <= base,
            base + 10 <= old_flags.len(),
            forall|i: int| 0 <= i < old_flags.len() && i != at ==> old_flags[i] == new_flags[i],
            at < base || base + 10 <= at,
        ensures
            key_flags(new_flags, base) == key_flags(old_flags, base),
    {
        assert forall|k: InputKey| key_flags(new_flags, base).contains(k) == key_flags(old_flags, base).contains(k) by {
            lemma_key_order(k);
        }
        assert(key_flags(new_flags, base) =~= key_flags(old_flags, base));
    }

    /// A state where nothing is held or pending.
    pub fn new() -> (r: Self)
        ensures
            r@ == empty_model(),
    {
        let r = InputRuntimeState {
            keys_held: false_flags(10),
            profile_keys_held: false_flags(30),
            profile_actions_held: false_flags(3),
            pending_profile_actions: false_flags(3),
        };
        assert forall|k: InputKey| !r@.keys.contains(k) by {
            lemma_key_order(k);
        }
        assert(r@.keys =~= Set::<InputKey>::empty());
        assert forall|p: MovementProfile| !r@.profile_keys.contains_key(p) by {
            lemma_profile_index(p);
            let base = 10 * profile_index(p);
            assert forall|k: InputKey| !key_flags(r.profile_keys_held@, base).contains(k) by {
                lemma_key_order(k);
            }
            assert(key_flags(r.profile_keys_held@, base) =~= Set::<InputKey>::empty());
        }
        assert(r@.profile_keys =~= Map::<MovementProfile, Set<InputKey>>::empty());
        assert forall|p: MovementProfile| !r@.actions_held.contains_key(p) && !r@.pending.contains_key(p) by {
            lemma_profile_index(p);
        }
        assert(r@.actions_held =~= Map::<MovementProfile, Set<InputAction>>::empty());
        assert(r@.pending =~= Map::<MovementProfile, Set<InputAction>>::empty());
        r
    }

    /// Releases every key and action and drops pending presses.
    pub fn clear(&mut self)
        ensures
            final(self)@ == empty_model(),
    {
        *self = InputRuntimeState::new();
    }

    /// Presses a global key. The debug toggle is not held: it is handed
    /// back as an effect for the caller to apply.
    pub fn handle_key_press(&mut self, key: InputKey) -> (effect: InputStateEffect)
        ensures
            key == InputKey::DebugToggle ==> effect == InputStateEffect::ToggleDebugCollisionRendering
                && final(self)@ == old(self)@,
            key != InputKey::DebugToggle ==> effect == InputStateEffect::NoEffect
                && final(self)@ == (InputModel { keys: old(self)@.keys.insert(key), ..old(self)@ }),
    {
        match key {
            InputKey::DebugToggle => InputStateEffect::ToggleDebugCollisionRendering,
            _ => {
                self.set_key_flag(key, true);
                InputStateEffect::NoEffect
            },
        }
    }

    /// Releases a global key.
    pub fn handle_key_release(&mut self, key: InputKey)
        ensures
            final(self)@ == (InputModel { keys: old(self)@.keys.remove(key), ..old(self)@ }),
    {
        self.set_key_flag(key, false);
    }

    fn set_key_flag(&mut self, key: InputKey, held: bool)
        ensures
            final(self)@ == (InputModel {
                keys: if held { old(self)@.keys.insert(key) } else { old(self)@.keys.remove(key) },
                ..old(self)@
            }),
    {
        proof {
            use_type_invariant(&*self);
            lemma_key_order(key);
        }
        let ghost before = *self;
        let i = input_key_order(key) as usize;
        let mut flags = self.keys_held.clone();
        flags.set(i, held);
        self.keys_held = flags;
        proof {
            assert forall|k: InputKey| self@.keys.contains(k) == (if held { before@.keys.insert(key) } else { before@.keys.remove(key) }).contains(k) by {
                lemma_key_order(k);
            }
            assert(self@.keys =~= (if held { before@.keys.insert(key) } else { before@.keys.remove(key) }));
            assert(self@.profile_keys =~= before@.profile_keys);
            assert(self@.actions_held =~= before@.actions_held);
            assert(self@.pending =~= before@.pending);
        }
    }

    /// Presses a key for one movement profile.
    pub fn handle_profile_key_press(&mut self, profile: MovementProfile, key: InputKey)
        ensures
            final(self)@ == (InputModel {
                profile_keys: with_entry(old(self)@.profile_keys, profile, entry_of(old(self)@.profile_keys, profile).insert(key)),
                ..old(self)@
            }),
    {
        self.set_profile_key_flag(profile, key, true);
    }

    /// Releases a key of one movement profile; a profile with no key left
    /// has no entry.
    pub fn handle_profile_key_release(&mut self, profile: MovementProfile, key: InputKey)
        ensures
            final(self)@ == (InputModel {
                profile_keys: with_entry(old(self)@.profile_keys, profile, entry_of(old(self)@.profile_keys, profile).remove(key)),
                ..old(self)@
            }),
    {
        self.set_profile_key_flag(profile, key, false);
    }

    fn set_profile_key_flag(&mut self, profile: MovementProfile, key: InputKey, held: bool)
        ensures
            final(self)@ == (InputModel {
                profile_keys: with_entry(
                    old(self)@.profile_keys,
                    profile,
                    if held { entry_of(old(self)@.profile_keys, profile).insert(key) } else { entry_of(old(self)@.profile_keys, profile).remove(key) },
                ),
                ..old(self)@
            }),
    {
        proof {
            use_type_invariant(&*self);
            lemma_key_order(key);
            lemma_profile_index(profile);
        }
        let ghost before = *self;
        let slot = profile_slot(profile);
        let i = slot * 10 + input_key_order(key) as usize;
        let mut flags = self.profile_keys_held.clone();
        flags.set(i, held);
        self.profile_keys_held = flags;
        proof {
            let new_entry = if held { entry_of(before@.profile_keys, profile).insert(key) } else { entry_of(before@.profile_keys, profile).remove(key) };
            let base = 10 * profile_index(profile);
            assert forall|k: InputKey| key_flags(self.profile_keys_held@, base).contains(k) == new_entry.contains(k) by {
                lemma_key_order(k);
                if !before@.profile_keys.contains_key(profile) {
                    if key_flags(before.profile_keys_held@, base).contains(k) {
                        assert(key_flags(before.profile_keys_held@, base).contains(k));
                    }
                }
            }
            assert(key_flags(self.profile_keys_held@, base) =~= new_entry);
            assert forall|p: MovementProfile| p != profile implies
                key_flags(self.profile_keys_held@, 10 * profile_index(p)) == key_flags(before.profile_keys_held@, 10 * profile_index(p)) by {
                lemma_profile_index(p);
                Self::lemma_flags_unchanged_elsewhere(before.profile_keys_held@, self.profile_keys_held@, 10 * profile_index(p), i as int);
            }
            assert(self@.profile_keys =~= with_entry(before@.profile_keys, profile, new_entry));
            assert(self@.keys =~= before@.keys);
            assert(self@.actions_held =~= before@.actions_held);
            assert(self@.pending =~= before@.pending);
        }
    }

    /// Presses an action for one profile. Only a press of an action not
    /// already held is queued as pending: holding it down does not repeat.
    pub fn handle_profile_action_press(&mut self, profile: MovementProfile, action: InputAction)
        ensures
            final(self)@ == after_action_press(old(self)@, profile, action),
    {
        proof {
            use_type_invariant(&*self);
            lemma_profile_index(profile);
        }
        let ghost before = *self;
        let slot = profile_slot(profile);
        let already = self.profile_actions_held[slot];
        let mut flags = self.profile_actions_held.clone();
        flags.set(slot, true);
        self.profile_actions_held = flags;
        if !already {
            let mut flags = self.pending_profile_actions.clone();
            flags.set(slot, true);
            self.pending_profile_actions = flags;
        }
        proof {
            assert(action == InputAction::Primary);
            assert(set![InputAction::Primary] != Set::<InputAction>::empty()) by {
                assert(set![InputAction::Primary].contains(InputAction::Primary));
            }
            assert(entry_of(before@.actions_held, profile).insert(action) =~= set![InputAction::Primary]);
            assert(entry_of(before@.pending, profile).insert(action) =~= set![InputAction::Primary]);
            assert forall|p: MovementProfile| #![trigger profile_index(p)] p != profile implies profile_index(p) != profile_index(profile) by {
                lemma_profile_index(p);
            }
            assert(self@.actions_held =~= with_entry(before@.actions_held, profile, entry_of(before@.actions_held, profile).insert(action)));
            if entry_of(before@.actions_held, profile).contains(action) {
                assert(self@.pending =~= before@.pending);
            } else {
                assert(self@.pending =~= with_entry(before@.pending, profile, entry_of(before@.pending, profile).insert(action)));
            }
            assert(self@.keys =~= before@.keys);
            assert(self@.profile_keys =~= before@.profile_keys);
        }
    }

    /// Releases an action of one profile; a later press is pending again.
    pub fn handle_profile_action_release(&mut self, profile: MovementProfile, action: InputAction)
        ensures
            final(self)@ == after_action_release(old(self)@, profile, action),
    {
        proof {
            use_type_invariant(&*self);
            lemma_profile_index(profile);
        }
        let ghost before = *self;
        let slot = profile_slot(profile);
        let mut flags = self.profile_actions_held.clone();
        flags.set(slot, false);
        self.profile_actions_held = flags;
        proof {
            assert(action == InputAction::Primary);
            assert(entry_of(before@.actions_held, profile).remove(action) =~= Set::<InputAction>::empty());
            assert forall|p: MovementProfile| #![trigger profile_index(p)] p != profile implies profile_index(p) != profile_index(profile) by {
                lemma_profile_index(p);
            }
            assert(self@.actions_held =~= before@.actions_held.remove(profile));
            assert(self@.keys =~= before@.keys);
            assert(self@.profile_keys =~= before@.profile_keys);
            assert(self@.pending =~= before@.pending);
        }
    }

    /// Hands out the pending action presses, one entry per profile in the
    /// fixed profile order, and leaves none pending.
    pub fn take_pending_profile_actions(&mut self) -> (taken: Vec<(MovementProfile, Vec<InputAction>)>)
        ensures
            taken@.len() == ordered_profiles(old(self)@.pending).len(),
            forall|i: int| 0 <= i < taken@.len() ==> {
                &&& (#[trigger] taken@[i]).0 == ordered_profiles(old(self)@.pending)[i]
                &&& taken@[i].1@ == ordered_actions(old(self)@.pending[taken@[i].0])
            },
            final(self)@ == (InputModel { pending: Map::empty(), ..old(self)@ }),
    {
        proof {
            use_type_invariant(&*self);
        }
        let ghost before = *self;
        let mut taken: Vec<(MovementProfile, Vec<InputAction>)> = Vec::new();
        let mut slot: usize = 0;
        while slot < 3
            invariant
                0 <= slot <= 3,
                self.pending_profile_actions@.len() == 3,
                before.pending_profile_actions@ == self.pending_profile_actions@,
                taken@.len() == profiles_in_order(slot as nat).filter(has_entry(before@.pending)).len(),
                forall|i: int| 0 <= i < taken@.len() ==> {
                    &&& (#[trigger] taken@[i]).0 == profiles_in_order(slot as nat).filter(has_entry(before@.pending))[i]
                    &&& taken@[i].1@ == seq![InputAction::Primary]
                },
            decreases 3 - slot,
        {
            let ghost prefix = profiles_in_order(slot as nat);
            let profile = profile_for_slot(slot);
            proof {
                assert(profiles_in_order((slot + 1) as nat) =~= prefix.push(profile));
                prefix.lemma_filter_push(profile, has_entry(before@.pending));
            }
            if self.pending_profile_actions[slot] {
                let mut actions: Vec<InputAction> = Vec::new();
                actions.push(InputAction::Primary);
                assert(actions@ =~= seq![InputAction::Primary]);
                taken.push((profile, actions));
            }
            slot = slot + 1;
        }
        self.pending_profile_actions = false_flags(3);
        proof {
            assert(profiles_in_order(3) =~= profiles_in_order(slot as nat));
            assert forall|i: int| 0 <= i < taken@.len() implies
                taken@[i].1@ == ordered_actions(before@.pending[taken@[i].0]) by {
                let p = taken@[i].0;
                profiles_in_order(3).lemma_filter_pred(has_entry(before@.pending), i);
                assert(before@.pending.contains_key(p));
                assert(set![InputAction::Primary].contains(InputAction::Primary));
            }
            assert forall|p: MovementProfile| !self@.pending.contains_key(p) by {
                lemma_profile_index(p);
            }
            assert(self@.pending =~= Map::<MovementProfile, Set<InputAction>>::empty());
            assert(self@.keys =~= before@.keys);
            assert(self@.profile_keys =~= before@.profile_keys);
            assert(self@.actions_held =~= before@.actions_held);
        }
        taken
    }
}

impl InputRuntimeState {
    proof fn lemma_profile_entry(&self, profile: MovementProfile)
        ensures
            entry_of(self@.profile_keys, profile) == key_flags(self.profile_keys_held@, 10 * profile_index(profile)),
    {
        if !self@.profile_keys.contains_key(profile) {
            assert(key_flags(self.profile_keys_held@, 10 * profile_index(profile)) == Set::<InputKey>::empty());
        }
    }

    /// The keys held for a profile, global and its own, each once, in the
    /// fixed key order.
    pub fn held_keys_for_profile(&self, movement_profile: MovementProfile) -> (keys: Vec<InputKey>)
        ensures
            keys@ == ordered_keys(held_for(self@, movement_profile)),
    {
        proof {
            use_type_invariant(self);
            lemma_profile_index(movement_profile);
            self.lemma_profile_entry(movement_profile);
        }
        let ghost wanted = held_for(self@, movement_profile);
        let slot = profile_slot(movement_profile);
        let mut keys: Vec<InputKey> = Vec::new();
        let mut i: usize = 0;
        while i < 10
            invariant
                i <= 10,
                slot < 3,
                slot as int == profile_index(movement_profile),
                self.keys_held@.len() == 10,
                self.profile_keys_held@.len() == 30,
                wanted == held_for(self@, movement_profile),
                entry_of(self@.profile_keys, movement_profile) == key_flags(self.profile_keys_held@, 10 * profile_index(movement_profile)),
                keys@ == keys_in_order(i as nat).filter(member_of(wanted)),
            decreases 10 - i,
        {
            let key = key_for_order(i);
            proof {
                assert(keys_in_order((i + 1) as nat) =~= keys_in_order(i as nat).push(key));
                keys_in_order(i as nat).lemma_filter_push(key, member_of(wanted));
            }
            if self.keys_held[i] || self.profile_keys_held[slot * 10 + i] {
                keys.push(key);
            }
            i = i + 1;
        }
        keys
    }

    /// Every key held, globally or for any profile, each once, in the fixed
    /// key order.
    pub fn all_held_keys(&self) -> (keys: Vec<InputKey>)
        ensures
            keys@ == ordered_keys(held_anywhere(self@)),
    {
        proof {
            use_type_invariant(self);
            self.lemma_profile_entry(MovementProfile::NoProfile);
            self.lemma_profile_entry(MovementProfile::LegacyDefault);
            self.lemma_profile_entry(MovementProfile::PlayerWasd);
        }
        let ghost wanted = held_anywhere(self@);
        let mut keys: Vec<InputKey> = Vec::new();
        let mut i: usize = 0;
        while i < 10
            invariant
                i <= 10,
                self.keys_held@.len() == 10,
                self.profile_keys_held@.len() == 30,
                wanted == held_anywhere(self@),
                forall|p: MovementProfile| entry_of(self@.profile_keys, p) == key_flags(self.profile_keys_held@, 10 * profile_index(p)),
                keys@ == keys_in_order(i as nat).filter(member_of(wanted)),
            decreases 10 - i,
        {
            let key = key_for_order(i);
            proof {
                assert(keys_in_order((i + 1) as nat) =~= keys_in_order(i as nat).push(key));
                keys_in_order(i as nat).lemma_filter_push(key, member_of(wanted));
                let flags = self.profile_keys_held@;
                if flags[i as int] {
                    assert(entry_of(self@.profile_keys, MovementProfile::NoProfile).contains(key));
                }
                if flags[10 + i] {
                    assert(entry_of(self@.profile_keys, MovementProfile::LegacyDefault).contains(key));
                }
                if flags[20 + i] {
                    assert(entry_of(self@.profile_keys, MovementProfile::PlayerWasd).contains(key));
                }
                if exists|p: MovementProfile| #[trigger] entry_of(self@.profile_keys, p).contains(key) {
                    let p = choose|p: MovementProfile| #[trigger] entry_of(self@.profile_keys, p).contains(key);
                    assert(flags[10 * profile_index(p) + i]);
                }
            }
            if self.keys_held[i] || self.profile_keys_held[i] || self.profile_keys_held[10 + i]
                || self.profile_keys_held[20 + i] {
                keys.push(key);
            }
            i = i + 1;
        }
        keys
    }
}

/// Pressing an action that is already held changes nothing: an action is
/// queued once per press, however long it is held.
pub proof fn law_action_press_is_edge_triggered(m: InputModel, profile: MovementProfile, action: InputAction)
    ensures
        after_action_press(after_action_press(m, profile, action), profile, action) == after_action_press(m, profile, action),
{
    let once = after_action_press(m, profile, action);
    assert(entry_of(m.actions_held, profile).insert(action).contains(action));
    assert(entry_of(m.actions_held, profile).insert(action) != Set::<InputAction>::empty());
    assert(entry_of(once.actions_held, profile).insert(action) =~= entry_of(m.actions_held, profile).insert(action));
    assert(once.actions_held.insert(profile, entry_of(m.actions_held, profile).insert(action)) =~= once.actions_held);
}

/// After an action is released, pressing it again queues it as pending.
pub proof fn law_release_rearms_action(m: InputModel, profile: MovementProfile, action: InputAction)
    ensures
        entry_of(after_action_press(after_action_release(m, profile, action), profile, action).pending, profile).contains(action),
{
    let released = after_action_release(m, profile, action);
    let rest = entry_of(m.actions_held, profile).remove(action);
    if rest == Set::<InputAction>::empty() {
        assert(!released.actions_held.contains_key(profile));
    } else {
        assert(entry_of(released.actions_held, profile) == rest);
    }
    assert(!entry_of(released.actions_held, profile).contains(action));
    let queued = entry_of(released.pending, profile).insert(action);
    assert(queued.contains(action));
    assert(queued != Set::<InputAction>::empty());
}

/// Every key held for a profile is among the keys held anywhere.
pub proof fn law_profile_keys_are_among_all_held_keys(m: InputModel, profile: MovementProfile)
    ensures
        held_for(m, profile).subset_of(held_anywhere(m)),
{
    assert forall|k: InputKey| held_for(m, profile).contains(k) implies held_anywhere(m).contains(k) by {
        if entry_of(m.profile_keys, profile).contains(k) {
            assert(exists|p: MovementProfile| #[trigger] entry_of(m.profile_keys, p).contains(k));
        }
    }
}

/// Releasing a key undoes pressing it: afterwards the key is not held, and
/// the other keys are as they were.
pub proof fn law_release_undoes_press(keys: Set<InputKey>, key: InputKey)
    ensures
        keys.insert(key).remove(key) == keys.remove(key),
        !keys.insert(key).remove(key).contains(key),
{
    assert(keys.insert(key).remove(key) =~= keys.remove(key));
}

/// Releasing a profile's key undoes pressing it: the profile's keys are as
/// a release alone would leave them.
pub proof fn law_profile_release_undoes_press(m: Map<MovementProfile, Set<InputKey>>, profile: MovementProfile, key: InputKey)
    ensures
        ({
            let pressed = with_entry(m, profile, entry_of(m, profile).insert(key));
            with_entry(pressed, profile, entry_of(pressed, profile).remove(key))
                == with_entry(m, profile, entry_of(m, profile).remove(key))
        }),
{
    let e = entry_of(m, profile);
    assert(e.insert(key).contains(key));
    assert(e.insert(key) != Set::<InputKey>::empty());
    let pressed = m.insert(profile, e.insert(key));
    assert(entry_of(pressed, profile) == e.insert(key));
    assert(e.insert(key).remove(key) =~= e.remove(key));
    let rest = e.remove(key);
    if rest == Set::<InputKey>::empty() {
        assert(pressed.remove(profile) =~= m.remove(profile));
    } else {
        assert(pressed.insert(profile, rest) =~= m.insert(profile, rest));
    }
}

/// With nothing pending, taking the pending actions hands out nothing.
pub proof fn law_nothing_pending_gives_nothing()
    ensures
        ordered_profiles(Map::<MovementProfile, Set<InputAction>>::empty()).len() == 0,
{
    let pred = has_entry(Map::<MovementProfile, Set<InputAction>>::empty());
    profiles_in_order(3).lemma_filter_len(pred);
    if ordered_profiles(Map::<MovementProfile, Set<InputAction>>::empty()).len() > 0 {
        profiles_in_order(3).lemma_filter_pred(pred, 0);
    }
}

/// What the game's runtime state holds of input: the input state and
/// whether collision shapes are drawn for debugging.
pub struct RuntimeModel {
    pub input: InputModel,
    pub debug_collision_rendering: bool,
}

/// The parts of the game's runtime state that input drives.
#[derive(Debug)]
pub struct RuntimeState {
    input: InputRuntimeState,
    debug_collision_rendering: bool,
}

impl View for RuntimeState {
    type V = RuntimeModel;

    closed spec fn view(&self) -> RuntimeModel {
        RuntimeModel { input: self.input@, debug_collision_rendering: self.debug_collision_rendering }
    }
}

impl RuntimeState {
    pub fn new() -> (r: Self)
        ensures
            r@.input == empty_model(),
            !r@.debug_collision_rendering,
    {
        RuntimeState { input: InputRuntimeState::new(), debug_collision_rendering: false }
    }

    pub fn debug_collision_rendering(&self) -> (on: bool)
        ensures
            on == self@.debug_collision_rendering,
    {
        self.debug_collision_rendering
    }

    pub fn input(&self) -> (input: &InputRuntimeState)
        ensures
            input@ == self@.input,
    {
        &self.input
    }
}

impl Default for RuntimeState {
    fn default() -> (r: Self)
        ensures
            r@.input == empty_model(),
            !r@.debug_collision_rendering,
    {
        RuntimeState::new()
    }
}

/// Routes input events into the runtime state.
pub struct InputSystem;

impl InputSystem {
    pub fn clear(runtime: &mut RuntimeState)
        ensures
            final(runtime)@ == (RuntimeModel { input: empty_model(), ..old(runtime)@ }),
    {
        runtime.input.clear();
    }

    /// A global key press; the debug toggle flips collision rendering
    /// instead of being held.
    pub fn handle_key_press(runtime: &mut RuntimeState, key: InputKey)
        ensures
            key == InputKey::DebugToggle ==> final(runtime)@ == (RuntimeModel {
                debug_collision_rendering: !old(runtime)@.debug_collision_rendering,
                ..old(runtime)@
            }),
            key != InputKey::DebugToggle ==> final(runtime)@ == (RuntimeModel {
                input: InputModel { keys: old(runtime)@.input.keys.insert(key), ..old(runtime)@.input },
                ..old(runtime)@
            }),
    {
        match runtime.input.handle_key_press(key) {
            InputStateEffect::ToggleDebugCollisionRendering => {
                runtime.debug_collision_rendering = !runtime.debug_collision_rendering;
            },
            InputStateEffect::NoEffect => {},
        }
    }

    pub fn handle_key_release(runtime: &mut RuntimeState, key: InputKey)
        ensures
            final(runtime)@ == (RuntimeModel {
                input: InputModel { keys: old(runtime)@.input.keys.remove(key), ..old(runtime)@.input },
                ..old(runtime)@
            }),
    {
        runtime.input.handle_key_release(key);
    }

    pub fn handle_profile_key_press(runtime: &mut RuntimeState, profile: MovementProfile, key: InputKey)
        ensures
            final(runtime)@ == (RuntimeModel {
                input: InputModel {
                    profile_keys: with_entry(old(runtime)@.input.profile_keys, profile, entry_of(old(runtime)@.input.profile_keys, profile).insert(key)),
                    ..old(runtime)@.input
                },
                ..old(runtime)@
            }),
    {
        runtime.input.handle_profile_key_press(profile, key);
    }

    pub fn handle_profile_key_release(runtime: &mut RuntimeState, profile: MovementProfile, key: InputKey)
        ensures
            final(runtime)@ == (RuntimeModel {
                input: InputModel {
                    profile_keys: with_entry(old(runtime)@.input.profile_keys, profile, entry_of(old(runtime)@.input.profile_keys, profile).remove(key)),
                    ..old(runtime)@.input
                },
                ..old(runtime)@
            }),
    {
        runtime.input.handle_profile_key_release(profile, key);
    }

    pub fn handle_profile_action_press(runtime: &mut RuntimeState, profile: MovementProfile, action: InputAction)
        ensures
            final(runtime)@ == (RuntimeModel { input: after_action_press(old(runtime)@.input, profile, action), ..old(runtime)@ }),
    {
        runtime.input.handle_profile_action_press(profile, action);
    }

    pub fn handle_profile_action_release(runtime: &mut RuntimeState, profile: MovementProfile, action: InputAction)
        ensures
            final(runtime)@ == (RuntimeModel { input: after_action_release(old(runtime)@.input, profile, action), ..old(runtime)@ }),
    {
        runtime.input.handle_profile_action_release(profile, action);
    }
}

impl Default for InputRuntimeState {
    fn default() -> (r: Self)
        ensures
            r@ == empty_model(),
    {
        InputRuntimeState::new()
    }
}

} // verus!
