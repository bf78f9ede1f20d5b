//! The pause menu: screen definitions, the navigation state machine and
//! the rendered view of the current screen.

use vstd::prelude::*;
use crate::text::{decimal, push_decimal, push_str, string_from_str, index_after_prefix};

verus! {

#[derive(Debug, Clone, PartialEq, Eq)]
pub struct MenuSettings {
    pub pause_root_screen_id: String,
    pub gate_gameplay_when_open: bool,
    pub screens: Vec<MenuScreenDefinition>,
}

#[derive(Debug, Clone, PartialEq, Eq)]
pub struct MenuScreenDefinition {
    pub id: String,
    pub title: String,
    pub items: Vec<MenuItemDefinition>,
}

#[derive(Debug, Clone, PartialEq, Eq)]
pub enum MenuItemDefinition {
    Label { text: String },
    Button { text: String, action: MenuAction },
    DynamicList { heading: Option<String>, source: MenuListSource, empty_text: String },
}

#[derive(Debug, Clone, PartialEq, Eq)]
pub enum MenuAction {
    CloseMenu,
    OpenScreen { screen_id: String },
    Back,
}

#[derive(Debug, Clone, PartialEq, Eq)]
pub enum MenuListSource {
    PlayerInventory,
}

#[derive(Debug, Clone, Copy, PartialEq, Eq, Structural)]
pub enum MenuInput {
    Up,
    Down,
    Confirm,
    Back,
}

#[derive(Debug, Clone, PartialEq, Eq)]
pub struct MenuView {
    pub screen_id: String,
    pub title: String,
    pub entries: Vec<MenuViewEntry>,
}

#[derive(Debug, Clone, PartialEq, Eq)]
pub struct MenuViewEntry {
    pub text: String,
    pub selected: bool,
    pub selectable: bool,
}

#[derive(Debug, Clone, PartialEq, Eq)]
pub struct InventoryEntry {
    pub item_id: String,
    pub count: u32,
}

// ---------------------------------------------------------------------------
// Specification of screens and selection
// ---------------------------------------------------------------------------

/// The positions of the buttons (the selectable items) among `items`,
/// in increasing order.
pub open spec fn buttons(items: Seq<MenuItemDefinition>) -> Seq<int>
    decreases items.len(),
{
    if items.len() == 0 {
        Seq::empty()
    } else {
        let rest = buttons(items.drop_last());
        if items.last() is Button {
            rest.push(items.len() - 1)
        } else {
            rest
        }
    }
}

/// The selection a screen starts with: its first button, or 0 when it has
/// none.
pub open spec fn initial_selection(items: Seq<MenuItemDefinition>) -> int {
    if buttons(items).len() > 0 {
        buttons(items)[0]
    } else {
        0
    }
}

/// Where the selection of a screen moves to when it steps `direction`
/// (+1 down, -1 up) through the buttons, wrapping around at either end.
/// A selection that is not on a button counts as being on the first one.
pub open spec fn moved_selection(items: Seq<MenuItemDefinition>, current: int, direction: int) -> int {
    let b = buttons(items);
    if b.len() == 0 {
        current
    } else {
        let pos = if b.contains(current) { b.index_of(current) } else { 0 };
        b[(pos + direction) % (b.len() as int)]
    }
}

/// The navigation state of a menu: its screens (each id once), the
/// selected item of each screen, and the stack of open screen ids.
pub struct MenuModel {
    pub screens: Seq<MenuScreenDefinition>,
    pub selection: Seq<int>,
    pub stack: Seq<Seq<char>>,
}

/// `j` is the last screen with `id`: the one that stands for the id when
/// several screens share it.
pub open spec fn is_last_with(screens: Seq<MenuScreenDefinition>, id: Seq<char>, j: int) -> bool {
    &&& 0 <= j < screens.len()
    &&& screens[j].id@ == id
    &&& forall|k: int| j < k < screens.len() ==> (#[trigger] screens[k]).id@ != id
}

/// The position of the screen that `id` names, if any.
pub open spec fn screen_pos(screens: Seq<MenuScreenDefinition>, id: Seq<char>) -> Option<int> {
    if exists|j: int| is_last_with(screens, id, j) {
        Some(choose|j: int| is_last_with(screens, id, j))
    } else {
        None
    }
}

impl MenuModel {
    pub open spec fn wf(self) -> bool {
        &&& self.selection.len() == self.screens.len()
        &&& forall|k: int| 0 <= k < self.stack.len() ==> #[trigger] screen_pos(self.screens, self.stack[k]) is Some
    }

    pub open spec fn is_open(self) -> bool {
        self.stack.len() > 0
    }

    pub open spec fn current(self) -> Seq<char> {
        self.stack.last()
    }

    pub open spec fn closed(self) -> MenuModel {
        MenuModel { stack: Seq::empty(), ..self }
    }

    /// Leaves the current screen: back to the one below it, or closed when
    /// it was the only one.
    pub open spec fn gone_back(self) -> MenuModel {
        if self.stack.len() > 1 {
            MenuModel { stack: self.stack.drop_last(), ..self }
        } else {
            self.closed()
        }
    }

    /// Carries out a button's action.
    pub open spec fn acted(self, action: MenuAction) -> MenuModel {
        match action {
            MenuAction::CloseMenu => self.closed(),
            MenuAction::OpenScreen { screen_id } => {
                if screen_pos(self.screens, screen_id@) is Some {
                    MenuModel { stack: self.stack.push(screen_id@), ..self }
                } else {
                    self
                }
            },
            MenuAction::Back => self.gone_back(),
        }
    }

    /// The state after one input; inputs do nothing while the menu is closed.
    pub open spec fn step(self, input: MenuInput) -> MenuModel {
        if !self.is_open() || screen_pos(self.screens, self.current()) is None {
            self
        } else {
            let j = screen_pos(self.screens, self.current()).unwrap();
            let items = self.screens[j].items@;
            let sel = self.selection[j];
            match input {
                MenuInput::Up => MenuModel { selection: self.selection.update(j, moved_selection(items, sel, -1)), ..self },
                MenuInput::Down => MenuModel { selection: self.selection.update(j, moved_selection(items, sel, 1)), ..self },
                MenuInput::Confirm => {
                    if 0 <= sel < items.len() && items[sel] is Button {
                        self.acted(items[sel]->action)
                    } else {
                        self
                    }
                },
                MenuInput::Back => self.gone_back(),
            }
        }
    }
}

/// The text shown for an inventory entry: `"{item_id} x{count}"`.
pub open spec fn inventory_text(e: InventoryEntry) -> Seq<char> {
    e.item_id@ + " x"@ + decimal(e.count as nat)
}

/// A rendered entry as (text, selected, selectable).
pub open spec fn entry_model(e: MenuViewEntry) -> (Seq<char>, bool, bool) {
    (e.text@, e.selected, e.selectable)
}

/// The entries one item renders to: a label, a button (selected when it
/// is the screen's selection), or a dynamic list with its optional heading
/// and one entry per inventory item, or its empty text.
pub open spec fn item_entries(item: MenuItemDefinition, index: int, selected: int, inventory: Seq<InventoryEntry>) -> Seq<(Seq<char>, bool, bool)> {
    match item {
        MenuItemDefinition::Label { text } => seq![(text@, false, false)],
        MenuItemDefinition::Button { text, action: _ } => seq![(text@, index == selected, true)],
        MenuItemDefinition::DynamicList { heading, source: _, empty_text } => {
            let head = match heading {
                Some(h) => seq![(h@, false, false)],
                None => Seq::empty(),
            };
            let body = if inventory.len() == 0 {
                seq![(empty_text@, false, false)]
            } else {
                inventory.map_values(|e: InventoryEntry| (inventory_text(e), false, false))
            };
            head + body
        },
    }
}

/// The entries the first `n` items render to.
pub open spec fn view_entries(items: Seq<MenuItemDefinition>, n: int, selected: int, inventory: Seq<InventoryEntry>) -> Seq<(Seq<char>, bool, bool)>
    decreases n,
{
    if n <= 0 {
        Seq::empty()
    } else {
        view_entries(items, n - 1, selected, inventory) + item_entries(items[n - 1], n - 1, selected, inventory)
    }
}

fn copy_string(s: &String) -> (r: String)
    ensures
        r@ == s@,
{
    s.clone()
}

fn push_entry(entries: &mut Vec<MenuViewEntry>, text: String, selected: bool, selectable: bool)
    ensures
        final(entries)@.map_values(|e: MenuViewEntry| entry_model(e))
            == old(entries)@.map_values(|e: MenuViewEntry| entry_model(e)).push((text@, selected, selectable)),
{
    let e = MenuViewEntry { text, selected, selectable };
    entries.push(e);
    assert(final(entries)@.map_values(|e: MenuViewEntry| entry_model(e))
        =~= old(entries)@.map_values(|e: MenuViewEntry| entry_model(e)).push((e.text@, selected, selectable)));
}

fn inventory_entry_text(e: &InventoryEntry) -> (r: String)
    ensures
        r@ == inventory_text(*e),
{
    let mut t = copy_string(&e.item_id);
    push_str(&mut t, " x");
    push_decimal(&mut t, e.count as u64);
    t
}

fn render_item(entries: &mut Vec<MenuViewEntry>, item: &MenuItemDefinition, index: usize, selected: usize, inventory: &[InventoryEntry])
    ensures
        final(entries)@.map_values(|e: MenuViewEntry| entry_model(e))
            == old(entries)@.map_values(|e: MenuViewEntry| entry_model(e))
                + item_entries(*item, index as int, selected as int, inventory@),
{
    let ghost start = old(entries)@.map_values(|e: MenuViewEntry| entry_model(e));
    match item {
        MenuItemDefinition::Label { text } => {
            push_entry(entries, copy_string(text), false, false);
            assert(start.push((text@, false, false)) =~= start + seq![(text@, false, false)]);
        },
        MenuItemDefinition::Button { text, action: _ } => {
            push_entry(entries, copy_string(text), index == selected, true);
            assert(start.push((text@, index == selected, true)) =~= start + seq![(text@, index == selected, true)]);
        },
        MenuItemDefinition::DynamicList { heading, source: _, empty_text } => {
            let ghost head: Seq<(Seq<char>, bool, bool)> = match heading {
                Some(h) => seq![(h@, false, false)],
                None => Seq::empty(),
            };
            match heading {
                Some(h) => {
                    push_entry(entries, copy_string(h), false, false);
                    assert(start.push((h@, false, false)) =~= start + head);
                },
                None => {
                    assert(start =~= start + head);
                },
            }
            let ghost body_spec = inventory@.map_values(|e: InventoryEntry| (inventory_text(e), false, false));
            if inventory.len() == 0 {
                push_entry(entries, copy_string(empty_text), false, false);
                assert((start + head).push((empty_text@, false, false)) =~= start + (head + seq![(empty_text@, false, false)]));
            } else {
                let mut i: usize = 0;
                while i < inventory.len()
                    invariant
                        i <= inventory@.len(),
                        body_spec == inventory@.map_values(|e: InventoryEntry| (inventory_text(e), false, false)),
                        entries@.map_values(|e: MenuViewEntry| entry_model(e)) == start + head + body_spec.subrange(0, i as int),
                    decreases inventory.len() - i,
                {
                    let t = inventory_entry_text(&inventory[i]);
                    push_entry(entries, t, false, false);
                    assert(start + head + body_spec.subrange(0, i as int) + seq![body_spec[i as int]]
                        =~= start + head + body_spec.subrange(0, (i + 1) as int));
                    assert((start + head + body_spec.subrange(0, i as int)).push(body_spec[i as int])
                        =~= start + head + body_spec.subrange(0, i as int) + seq![body_spec[i as int]]);
                    i = i + 1;
                }
                assert(body_spec.subrange(0, inventory@.len() as int) =~= body_spec);
                assert(start + head + body_spec =~= start + (head + body_spec));
            }
        },
    }
}

#[derive(Debug, Clone, PartialEq, Eq)]
pub struct MenuController {
    settings: MenuSettings,
    stack: Vec<String>,
    selection: Vec<usize>,
}

impl View for MenuController {
    type V = MenuModel;

    closed spec fn view(&self) -> MenuModel {
        MenuModel {
            screens: self.settings.screens@,
            selection: self.selection@.map_values(|x: usize| x as int),
            stack: self.stack@.map_values(|s: String| s@),
        }
    }
}

impl MenuController {
    /// The settings the controller was made with.
    pub closed spec fn settings_spec(&self) -> MenuSettings {
        self.settings
    }

    /// The controller's state is consistent: one selection per screen and
    /// only known screens on the stack.
    pub closed spec fn wf(&self) -> bool {
        self@.wf() && self.settings.screens@.len() <= usize::MAX
    }

    fn screen_index(&self, id: &String) -> (r: Option<usize>)
        ensures
            r matches Some(j) ==> screen_pos(self@.screens, id@) == Some(j as int),
            r is None ==> screen_pos(self@.screens, id@) is None,
    {
        let screens = &self.settings.screens;
        let mut j: usize = screens.len();
        while j > 0
            invariant
                j <= screens@.len(),
                screens@ == self@.screens,
                forall|k: int| j <= k < screens@.len() ==> (#[trigger] screens@[k]).id@ != id@,
            decreases j,
        {
            if screens[j - 1].id == *id {
                proof {
                    assert(is_last_with(screens@, id@, j - 1));
                    let c = choose|c: int| is_last_with(screens@, id@, c);
                    assert(is_last_with(screens@, id@, c));
                    if c < j - 1 {
                        assert(screens@[j - 1].id@ != id@);
                    } else if c > j - 1 {
                        assert(screens@[c].id@ != id@);
                    }
                    assert(c == j - 1);
                    assert(screen_pos(screens@, id@) == Some(c));
                }
                return Some(j - 1);
            }
            j = j - 1;
        }
        None
    }

    fn first_selectable_index(items: &Vec<MenuItemDefinition>) -> (r: usize)
        ensures
            r as int == initial_selection(items@),
    {
        let mut i: usize = 0;
        while i < items.len()
            invariant
                i <= items@.len(),
                buttons(items@.subrange(0, i as int)).len() == 0,
            decreases items.len() - i,
        {
            if let MenuItemDefinition::Button { .. } = items[i] {
                proof {
                    lemma_buttons_prefix_first(items@, i as int);
                }
                return i;
            }
            proof {
                assert(items@.subrange(0, i + 1).drop_last() =~= items@.subrange(0, i as int));
            }
            i = i + 1;
        }
        assert(items@.subrange(0, items@.len() as int) =~= items@);
        0
    }

    pub fn new(settings: MenuSettings) -> (r: Self)
        requires
            settings.screens@.len() <= usize::MAX,
        ensures
            r.wf(),
            r@.wf(),
            r.settings_spec() == settings,
            r@.screens == settings.screens@,
            r@.stack.len() == 0,
            forall|j: int| 0 <= j < r@.screens.len() ==> #[trigger] r@.selection[j] == initial_selection(r@.screens[j].items@),
    {
        let mut selection: Vec<usize> = Vec::new();
        let mut j: usize = 0;
        while j < settings.screens.len()
            invariant
                j <= settings.screens@.len(),
                selection@.len() == j,
                forall|k: int| 0 <= k < j ==> #[trigger] selection@[k] as int == initial_selection(settings.screens@[k].items@),
            decreases settings.screens.len() - j,
        {
            selection.push(Self::first_selectable_index(&settings.screens[j].items));
            j = j + 1;
        }
        MenuController { settings, stack: Vec::new(), selection }
    }

    pub fn settings(&self) -> (r: &MenuSettings)
        ensures
            *r == self.settings_spec(),
    {
        &self.settings
    }

    pub fn is_open(&self) -> (r: bool)
        ensures
            r == self@.is_open(),
    {
        self.stack.len() > 0
    }

    /// Opens the pause root screen, if the settings define it.
    pub fn open_pause_root(&mut self)
        requires
            old(self).wf(),
        ensures
            final(self).wf(),
            final(self)@.wf(),
            final(self).settings_spec() == old(self).settings_spec(),
            final(self)@ == (if screen_pos(old(self)@.screens, old(self).settings_spec().pause_root_screen_id@) is Some {
                MenuModel { stack: seq![old(self).settings_spec().pause_root_screen_id@], ..old(self)@ }
            } else {
                old(self)@
            }),
    {
        let root = copy_string(&self.settings.pause_root_screen_id);
        if self.screen_index(&root).is_some() {
            self.stack.clear();
            self.stack.push(root);
            assert(self@.stack =~= seq![root@]);
        }
    }

    /// Opens the pause root screen if the menu is closed and the settings
    /// define that screen; an open menu stays as it is.
    pub fn open(&mut self)
        requires
            old(self).wf(),
        ensures
            final(self).wf(),
            final(self)@.wf(),
            final(self).settings_spec() == old(self).settings_spec(),
            final(self)@ == (if !old(self)@.is_open()
                && screen_pos(old(self)@.screens, old(self).settings_spec().pause_root_screen_id@) is Some {
                MenuModel { stack: seq![old(self).settings_spec().pause_root_screen_id@], ..old(self)@ }
            } else {
                old(self)@
            }),
    {
        if self.stack.len() == 0 {
            self.open_pause_root();
        }
    }

    pub fn close(&mut self)
        requires
            old(self).wf(),
        ensures
            final(self).wf(),
            final(self)@.wf(),
            final(self).settings_spec() == old(self).settings_spec(),
            final(self)@ == old(self)@.closed(),
    {
        self.stack.clear();
        assert(self@.stack =~= Seq::<Seq<char>>::empty());
    }

    pub fn current_screen_id(&self) -> (r: Option<&str>)
        ensures
            r is Some <==> self@.is_open(),
            r matches Some(id) ==> id@ == self@.current(),
    {
        if self.stack.len() == 0 {
            None
        } else {
            Some(self.stack[self.stack.len() - 1].as_str())
        }
    }

    /// The rendered current screen, with the inventory listed where the
    /// screen asks for it.
    pub fn current_view(&self, inventory: &[InventoryEntry]) -> (r: Option<MenuView>)
        requires
            self.wf(),
        ensures
            r is Some <==> self@.is_open(),
            r matches Some(v) ==> {
                let j = screen_pos(self@.screens, self@.current()).unwrap();
                let items = self@.screens[j].items@;
                &&& v.screen_id@ == self@.current()
                &&& v.title@ == self@.screens[j].title@
                &&& v.entries@.map_values(|e: MenuViewEntry| entry_model(e))
                    == view_entries(items, items.len() as int, self@.selection[j], inventory@)
            },
    {
        if self.stack.len() == 0 {
            return None;
        }
        let screen_id = copy_string(&self.stack[self.stack.len() - 1]);
        proof {
            assert(screen_pos(self@.screens, self@.stack[self@.stack.len() - 1]) is Some);
        }
        let j = match self.screen_index(&screen_id) {
            Some(j) => j,
            None => return None,
        };
        let screen = &self.settings.screens[j];
        let selected = self.selection[j];
        let mut entries: Vec<MenuViewEntry> = Vec::new();
        let mut i: usize = 0;
        while i < screen.items.len()
            invariant
                i <= screen.items@.len(),
                entries@.map_values(|e: MenuViewEntry| entry_model(e))
                    == view_entries(screen.items@, i as int, selected as int, inventory@),
            decreases screen.items.len() - i,
        {
            render_item(&mut entries, &screen.items[i], i, selected, inventory);
            i = i + 1;
        }
        Some(MenuView { screen_id, title: copy_string(&screen.title), entries })
    }
}

/// The buttons of a list of items are increasing positions of buttons.
pub proof fn lemma_buttons_shape(items: Seq<MenuItemDefinition>)
    ensures
        forall|k: int| 0 <= k < buttons(items).len() ==>
            0 <= #[trigger] buttons(items)[k] < items.len() && items[buttons(items)[k]] is Button,
        forall|a: int, b: int| 0 <= a < b < buttons(items).len() ==> buttons(items)[a] < buttons(items)[b],
        forall|i: int| 0 <= i < items.len() && items[i] is Button ==> #[trigger] buttons(items).contains(i),
    decreases items.len(),
{
    if items.len() > 0 {
        let rest = items.drop_last();
        lemma_buttons_shape(rest);
        assert forall|i: int| 0 <= i < items.len() && items[i] is Button implies #[trigger] buttons(items).contains(i) by {
            if i < items.len() - 1 {
                assert(rest[i] == items[i]);
                assert(buttons(rest).contains(i));
                let k = choose|k: int| 0 <= k < buttons(rest).len() && buttons(rest)[k] == i;
                assert(buttons(items)[k] == i);
            } else {
                assert(buttons(items)[buttons(items).len() - 1] == i);
            }
        }
    }
}

impl MenuController {
    fn button_positions(items: &Vec<MenuItemDefinition>) -> (b: Vec<usize>)
        ensures
            b@.map_values(|x: usize| x as int) == buttons(items@),
    {
        let mut b: Vec<usize> = Vec::new();
        let mut i: usize = 0;
        assert(b@.map_values(|x: usize| x as int) =~= buttons(items@.subrange(0, 0)));
        while i < items.len()
            invariant
                i <= items@.len(),
                b@.map_values(|x: usize| x as int) == buttons(items@.subrange(0, i as int)),
            decreases items.len() - i,
        {
            assert(items@.subrange(0, i + 1).drop_last() =~= items@.subrange(0, i as int));
            if let MenuItemDefinition::Button { .. } = items[i] {
                b.push(i);
                assert(b@.map_values(|x: usize| x as int) =~= buttons(items@.subrange(0, i as int)).push(i as int));
            }
            i = i + 1;
        }
        assert(items@.subrange(0, items@.len() as int) =~= items@);
        b
    }

    fn move_selection(&mut self, j: usize, forward: bool)
        requires
            old(self).wf(),
            j < old(self)@.screens.len(),
        ensures
            final(self).wf(),
            final(self)@.wf(),
            final(self).settings_spec() == old(self).settings_spec(),
            final(self)@ == (MenuModel {
                selection: old(self)@.selection.update(
                    j as int,
                    moved_selection(old(self)@.screens[j as int].items@, old(self)@.selection[j as int], if forward { 1 } else { -1 }),
                ),
                ..old(self)@
            }),
    {
        let b = Self::button_positions(&self.settings.screens[j].items);
        let ghost items = self@.screens[j as int].items@;
        let ghost bs = buttons(items);
        proof {
            lemma_buttons_shape(items);
        }
        if b.len() == 0 {
            assert(self@.selection.update(j as int, self@.selection[j as int]) =~= self@.selection);
            return;
        }
        let current = self.selection[j];
        let mut pos: usize = 0;
        let mut found = false;
        let mut k: usize = 0;
        while k < b.len()
            invariant
                k <= b@.len(),
                b@.map_values(|x: usize| x as int) == bs,
                !found ==> pos == 0,
                found ==> pos < b@.len() && b@[pos as int] == current,
                !found ==> forall|t: int| 0 <= t < k ==> b@[t] != current,
            decreases b.len() - k,
        {
            if !found && b[k] == current {
                pos = k;
                found = true;
            }
            k = k + 1;
        }
        proof {
            assert(bs.len() == b@.len());
            if found {
                assert(bs[pos as int] == current as int);
                assert(bs.contains(current as int));
                let c = bs.index_of(current as int);
                if c < pos {
                    assert(bs[c] < bs[pos as int]);
                } else if c > pos {
                    assert(bs[pos as int] < bs[c]);
                }
            } else {
                assert(!bs.contains(current as int)) by {
                    if bs.contains(current as int) {
                        let c = choose|c: int| 0 <= c < bs.len() && bs[c] == current as int;
                        assert(b@[c] == current);
                    }
                }
            }
        }
        let len = b.len();
        let next = if forward {
            if pos + 1 == len { 0 } else { pos + 1 }
        } else {
            if pos == 0 { len - 1 } else { pos - 1 }
        };
        assert(next as int == (pos as int + (if forward { 1int } else { -1int })) % (len as int)) by (nonlinear_arith)
            requires
                pos < len,
                forward ==> next == (if pos + 1 == len { 0 } else { pos + 1 }),
                !forward ==> next == (if pos == 0 { len - 1 } else { pos - 1 });
        let v = b[next];
        self.selection.set(j, v);
        assert(self@.selection =~= old(self)@.selection.update(
            j as int,
            moved_selection(items, old(self)@.selection[j as int], if forward { 1 } else { -1 }),
        ));
    }

    fn go_back(&mut self)
        requires
            old(self).wf(),
        ensures
            final(self).wf(),
            final(self)@.wf(),
            final(self).settings_spec() == old(self).settings_spec(),
            final(self)@ == old(self)@.gone_back(),
    {
        if self.stack.len() > 1 {
            self.stack.pop();
            assert(self@.stack =~= old(self)@.stack.drop_last());
        } else {
            self.stack.clear();
            assert(self@.stack =~= Seq::<Seq<char>>::empty());
        }
    }

    fn confirm_current_selection(&mut self, j: usize)
        requires
            old(self).wf(),
            j < old(self)@.screens.len(),
        ensures
            final(self).wf(),
            final(self)@.wf(),
            final(self).settings_spec() == old(self).settings_spec(),
            final(self)@ == ({
                let items = old(self)@.screens[j as int].items@;
                let sel = old(self)@.selection[j as int];
                if 0 <= sel < items.len() && items[sel] is Button {
                    old(self)@.acted(items[sel]->action)
                } else {
                    old(self)@
                }
            }),
    {
        let sel = self.selection[j];
        if sel >= self.settings.screens[j].items.len() {
            return;
        }
        let target: Option<String> = match &self.settings.screens[j].items[sel] {
            MenuItemDefinition::Button { text: _, action } => match action {
                MenuAction::CloseMenu => {
                    self.stack.clear();
                    assert(self@.stack =~= Seq::<Seq<char>>::empty());
                    return;
                },
                MenuAction::Back => {
                    self.go_back();
                    return;
                },
                MenuAction::OpenScreen { screen_id } => Some(copy_string(screen_id)),
            },
            _ => None,
        };
        if let Some(id) = target {
            if self.screen_index(&id).is_some() {
                let ghost before = self@;
                self.stack.push(id);
                assert(self@.stack =~= before.stack.push(id@));
            }
        }
    }

    /// Applies one navigation input: Up and Down move the selection over the
    /// screen's buttons (wrapping), Confirm performs the selected button's
    /// action, Back leaves the current screen. Inputs do nothing while the
    /// menu is closed.
    pub fn handle_input(&mut self, input: MenuInput)
        requires
            old(self).wf(),
        ensures
            final(self).wf(),
            final(self)@.wf(),
            final(self).settings_spec() == old(self).settings_spec(),
            final(self)@ == old(self)@.step(input),
    {
        if self.stack.len() == 0 {
            return;
        }
        let current = copy_string(&self.stack[self.stack.len() - 1]);
        let j = match self.screen_index(&current) {
            Some(j) => j,
            None => return,
        };
        match input {
            MenuInput::Up => self.move_selection(j, false),
            MenuInput::Down => self.move_selection(j, true),
            MenuInput::Confirm => self.confirm_current_selection(j),
            MenuInput::Back => self.go_back(),
        }
    }
}

/// A closed menu ignores every input.
pub proof fn law_closed_menu_ignores_input(m: MenuModel, input: MenuInput)
    requires
        !m.is_open(),
    ensures
        m.step(input) == m,
{
}

/// Back on the only open screen closes the menu.
pub proof fn law_back_on_root_closes(m: MenuModel)
    requires
        m.wf(),
        m.stack.len() == 1,
    ensures
        !m.step(MenuInput::Back).is_open(),
{
}

/// Opening a sub-screen with Confirm and then pressing Back returns to the
/// screen it was opened from, with every selection as it was.
pub proof fn law_back_undoes_open(m: MenuModel)
    requires
        m.wf(),
        m.is_open(),
        ({
            let j = screen_pos(m.screens, m.current()).unwrap();
            let items = m.screens[j].items@;
            let sel = m.selection[j];
            &&& 0 <= sel < items.len()
            &&& items[sel] matches MenuItemDefinition::Button { text: _, action: MenuAction::OpenScreen { screen_id } }
            &&& screen_pos(m.screens, screen_id@) is Some
        }),
    ensures
        m.step(MenuInput::Confirm).step(MenuInput::Back) == m,
{
    assert(screen_pos(m.screens, m.stack[m.stack.len() - 1]) is Some);
    let opened = m.step(MenuInput::Confirm);
    assert(opened.stack.len() == m.stack.len() + 1);
    assert(opened.stack.drop_last() =~= m.stack);
}

/// Up and Down always leave the selection of a screen that has buttons on
/// one of its buttons.
pub proof fn law_navigation_lands_on_button(m: MenuModel, input: MenuInput)
    requires
        m.wf(),
        m.is_open(),
        input == MenuInput::Up || input == MenuInput::Down,
        buttons(m.screens[screen_pos(m.screens, m.current()).unwrap()].items@).len() > 0,
    ensures
        ({
            let j = screen_pos(m.screens, m.current()).unwrap();
            let items = m.screens[j].items@;
            let sel = m.step(input).selection[j];
            0 <= sel < items.len() && items[sel] is Button
        }),
{
    assert(screen_pos(m.screens, m.stack[m.stack.len() - 1]) is Some);
    let j = screen_pos(m.screens, m.current()).unwrap();
    let items = m.screens[j].items@;
    lemma_buttons_shape(items);
    let b = buttons(items);
    let d: int = if input == MenuInput::Up { -1 } else { 1 };
    let pos = if b.contains(m.selection[j]) { b.index_of(m.selection[j]) } else { 0 };
    assert(0 <= (pos + d) % (b.len() as int) < b.len()) by (nonlinear_arith)
        requires b.len() > 0;
}

// ---------------------------------------------------------------------------
// Defaults
// ---------------------------------------------------------------------------

pub fn default_pause_root_screen_id() -> (r: String)
    ensures
        r@ == "pause_menu"@,
{
    string_from_str("pause_menu")
}

pub fn default_gate_gameplay_when_open() -> (r: bool)
    ensures
        r,
{
    true
}

/// The two screens a project gets when it defines none: a pause screen
/// with Resume and Inventory buttons, and an inventory screen listing the
/// player's items above a Back button.
pub open spec fn is_default_menu_screens(s: Seq<MenuScreenDefinition>) -> bool {
    &&& s.len() == 2
    &&& s[0].id@ == "pause_menu"@
    &&& s[0].title@ == "Paused"@
    &&& s[0].items@.len() == 2
    &&& s[0].items@[0] matches MenuItemDefinition::Button { text, action: MenuAction::CloseMenu } && text@ == "Resume"@
    &&& s[0].items@[1] matches MenuItemDefinition::Button { text, action: MenuAction::OpenScreen { screen_id } }
        && text@ == "Inventory"@ && screen_id@ == "inventory_menu"@
    &&& s[1].id@ == "inventory_menu"@
    &&& s[1].title@ == "Inventory"@
    &&& s[1].items@.len() == 2
    &&& s[1].items@[0] matches MenuItemDefinition::DynamicList { heading: Some(h), source: MenuListSource::PlayerInventory, empty_text }
        && h@ == "Items"@ && empty_text@ == "Inventory is empty"@
    &&& s[1].items@[1] matches MenuItemDefinition::Button { text, action: MenuAction::Back } && text@ == "Back"@
}

pub fn default_menu_screens() -> (r: Vec<MenuScreenDefinition>)
    ensures
        is_default_menu_screens(r@),
{
    let mut pause_items: Vec<MenuItemDefinition> = Vec::new();
    pause_items.push(MenuItemDefinition::Button { text: string_from_str("Resume"), action: MenuAction::CloseMenu });
    pause_items.push(MenuItemDefinition::Button {
        text: string_from_str("Inventory"),
        action: MenuAction::OpenScreen { screen_id: string_from_str("inventory_menu") },
    });
    let mut inventory_items: Vec<MenuItemDefinition> = Vec::new();
    inventory_items.push(MenuItemDefinition::DynamicList {
        heading: Some(string_from_str("Items")),
        source: MenuListSource::PlayerInventory,
        empty_text: string_from_str("Inventory is empty"),
    });
    inventory_items.push(MenuItemDefinition::Button { text: string_from_str("Back"), action: MenuAction::Back });
    let mut screens: Vec<MenuScreenDefinition> = Vec::new();
    screens.push(MenuScreenDefinition { id: string_from_str("pause_menu"), title: string_from_str("Paused"), items: pause_items });
    screens.push(MenuScreenDefinition {
        id: string_from_str("inventory_menu"),
        title: string_from_str("Inventory"),
        items: inventory_items,
    });
    screens
}

impl Default for MenuSettings {
    fn default() -> (r: Self)
        ensures
            r.pause_root_screen_id@ == "pause_menu"@,
            r.gate_gameplay_when_open,
            is_default_menu_screens(r.screens@),
    {
        MenuSettings {
            pause_root_screen_id: default_pause_root_screen_id(),
            gate_gameplay_when_open: default_gate_gameplay_when_open(),
            screens: default_menu_screens(),
        }
    }
}

pub fn default_menu_font_family() -> (r: String)
    ensures
        r@ == "Sans"@,
{
    string_from_str("Sans")
}

pub fn default_menu_font_size_px() -> (r: u16)
    ensures
        r == 14,
{
    14
}

pub fn default_menu_width_percent() -> (r: u16)
    ensures
        r == 88,
{
    88
}

pub fn default_menu_height_percent() -> (r: u16)
    ensures
        r == 70,
{
    70
}

pub fn default_menu_title_spacing_px() -> (r: u16)
    ensures
        r == 8,
{
    8
}

pub fn default_menu_button_spacing_px() -> (r: u16)
    ensures
        r == 8,
{
    8
}

pub fn default_menu_footer_spacing_px() -> (r: u16)
    ensures
        r == 16,
{
    16
}

pub fn default_menu_opacity_percent() -> (r: u16)
    ensures
        r == 100,
{
    100
}

pub fn default_menu_border_color_hex() -> (r: String)
    ensures
        r@ == "#7CFF7C"@,
{
    string_from_str("#7CFF7C")
}

pub fn default_menu_text_color_hex() -> (r: String)
    ensures
        r@ == "#FFFFFF"@,
{
    string_from_str("#FFFFFF")
}

pub fn default_menu_background_color_hex() -> (r: String)
    ensures
        r@ == "#142914"@,
{
    string_from_str("#142914")
}

pub fn default_menu_title_background_color_hex() -> (r: String)
    ensures
        r@ == "#143614"@,
{
    string_from_str("#143614")
}

pub fn default_menu_entry_background_color_hex() -> (r: String)
    ensures
        r@ == "#0F1F0F"@,
{
    string_from_str("#0F1F0F")
}

pub fn default_menu_footer_text() -> (r: String)
    ensures
        r@ == "Esc: Back   Enter/Space: Select"@,
{
    string_from_str("Esc: Back   Enter/Space: Select")
}

/// Project overrides of the menu's layout and opacity.
#[derive(Debug, Clone, PartialEq, Eq)]
pub struct MenuThemeOverride {
    pub menu_width_percent: u16,
    pub menu_height_percent: u16,
    pub title_spacing_px: u16,
    pub button_spacing_px: u16,
    pub footer_spacing_px: u16,
    pub opacity_percent: u16,
    pub footer_text: String,
}

impl Default for MenuThemeOverride {
    fn default() -> (r: Self)
        ensures
            r.menu_width_percent == 88,
            r.menu_height_percent == 70,
            r.title_spacing_px == 8,
            r.button_spacing_px == 8,
            r.footer_spacing_px == 16,
            r.opacity_percent == 100,
            r.footer_text@ == "Esc: Back   Enter/Space: Select"@,
    {
        MenuThemeOverride {
            menu_width_percent: default_menu_width_percent(),
            menu_height_percent: default_menu_height_percent(),
            title_spacing_px: default_menu_title_spacing_px(),
            button_spacing_px: default_menu_button_spacing_px(),
            footer_spacing_px: default_menu_footer_spacing_px(),
            opacity_percent: default_menu_opacity_percent(),
            footer_text: default_menu_footer_text(),
        }
    }
}

/// Font settings of one kind of menu text.
#[derive(Debug, Clone, PartialEq, Eq)]
pub struct MenuTextAppearance {
    pub font_family: String,
    pub font_size_px: u16,
    pub bold: bool,
    pub cursive: bool,
}

impl Default for MenuTextAppearance {
    fn default() -> (r: Self)
        ensures
            r.font_family@ == "Sans"@,
            r.font_size_px == 14,
            !r.bold,
            !r.cursive,
    {
        MenuTextAppearance {
            font_family: default_menu_font_family(),
            font_size_px: default_menu_font_size_px(),
            bold: false,
            cursive: false,
        }
    }
}

#[derive(Debug, Clone, Copy, PartialEq, Eq, Structural)]
pub enum MenuBorderStyle {
    Borderless,
    Square,
}

impl Default for MenuBorderStyle {
    fn default() -> (r: Self)
        ensures
            r == MenuBorderStyle::Square,
    {
        MenuBorderStyle::Square
    }
}

#[derive(Debug, Clone, Copy, PartialEq, Eq, Structural)]
pub enum MenuDialogPosition {
    Top,
    Bottom,
    Left,
    Right,
}

impl Default for MenuDialogPosition {
    fn default() -> (r: Self)
        ensures
            r == MenuDialogPosition::Top,
    {
        MenuDialogPosition::Top
    }
}

/// The rendered entry index a menu widget id names: the number after the
/// `menu_entry_` prefix.
pub fn menu_entry_index_from_widget_id(widget_id: &str) -> (r: Option<usize>)
    ensures
        r == index_after_prefix(widget_id@, "menu_entry_"@),
{
    crate::text::index_after_prefix_exec(widget_id, "menu_entry_")
}

/// Reading back a menu entry widget id gives the index written after its
/// prefix.
pub proof fn law_menu_entry_widget_id_reads_back(index: usize)
    ensures
        index_after_prefix("menu_entry_"@ + decimal(index as nat), "menu_entry_"@) == Some(index),
        index_after_prefix("dialog_entry_"@ + decimal(index as nat), "dialog_entry_"@) == Some(index),
{
    crate::text::law_parse_reads_back_decimal(index);
    let p = "menu_entry_"@;
    let q = "dialog_entry_"@;
    let d = decimal(index as nat);
    assert((p + d).subrange(0, p.len() as int) =~= p);
    assert((p + d).subrange(p.len() as int, (p + d).len() as int) =~= d);
    assert((q + d).subrange(0, q.len() as int) =~= q);
    assert((q + d).subrange(q.len() as int, (q + d).len() as int) =~= d);
}

/// The dialog entry index a dialog widget id names: the number after the
/// `dialog_entry_` prefix.
pub fn dialog_entry_index_from_widget_id(widget_id: &str) -> (r: Option<usize>)
    ensures
        r == index_after_prefix(widget_id@, "dialog_entry_"@),
{
    crate::text::index_after_prefix_exec(widget_id, "dialog_entry_")
}

proof fn lemma_buttons_prefix_first(items: Seq<MenuItemDefinition>, i: int)
    requires
        0 <= i < items.len(),
        items[i] is Button,
        buttons(items.subrange(0, i)).len() == 0,
    ensures
        buttons(items).len() > 0,
        buttons(items)[0] == i,
{
    lemma_buttons_extend(items, i);
}

/// The buttons of a longer list begin with those of a prefix.
proof fn lemma_buttons_extend(items: Seq<MenuItemDefinition>, i: int)
    requires
        0 <= i < items.len(),
        items[i] is Button,
        buttons(items.subrange(0, i)).len() == 0,
    ensures
        buttons(items).len() > 0,
        buttons(items)[0] == i,
    decreases items.len(),
{
    if items.len() == i + 1 {
        assert(items.drop_last() =~= items.subrange(0, i));
    } else {
        assert(items.drop_last().subrange(0, i) =~= items.subrange(0, i));
        lemma_buttons_extend(items.drop_last(), i);
    }
}

} // verus!
