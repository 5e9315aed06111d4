//! What a key can ask of the running multiplexer, and the map from key
//! bindings to those actions that a configuration gives.

use crate::config::{keybind_for, lookup, pairs_view};
use crate::keybind::{normalize, normalized, parse_keybinding, parse_spec, KeyBinding, KeyEvent};
use vstd::prelude::*;

verus! {

/// What a key can ask of the running multiplexer.
#[derive(Debug, Clone, Copy, PartialEq, Eq, Hash, Structural)]
pub enum Action {
    SplitVertical,
    SplitHorizontal,
    ResizeLeft,
    ResizeRight,
    ResizeUp,
    ResizeDown,
    SwapVertical,
    SwapHorizontal,
    SaveState,
    RestoreState,
    FocusNext,
    Quit,
}

/// The map that a list of bindings stands for: a later entry for a key takes
/// the place of an earlier one.
pub open spec fn bound(entries: Seq<(KeyBinding, Action)>) -> Map<KeyBinding, Action>
    decreases entries.len(),
{
    if entries.len() == 0 {
        Map::empty()
    } else {
        bound(entries.drop_last()).insert(entries.last().0, entries.last().1)
    }
}

/// The actions bound to keys.
#[derive(Debug, Clone)]
pub struct ActionMap {
    entries: Vec<(KeyBinding, Action)>,
}

impl View for ActionMap {
    type V = Map<KeyBinding, Action>;

    closed spec fn view(&self) -> Map<KeyBinding, Action> {
        bound(self.entries@)
    }
}

/// What a map holds for a key, if anything.
pub open spec fn action_for(map: Map<KeyBinding, Action>, key: KeyBinding) -> Option<Action> {
    if map.dom().contains(key) {
        Some(map[key])
    } else {
        None
    }
}

/// `map` with the key that the configuration gives the action `name` bound
/// to `action`; `map` itself where the configuration names no key for it or
/// one that cannot be read.
pub open spec fn bind_named(
    map: Map<KeyBinding, Action>,
    keybinds: Seq<(Seq<char>, Seq<char>)>,
    name: Seq<char>,
    action: Action,
) -> Map<KeyBinding, Action> {
    match lookup(keybinds, name) {
        Some(text) => match parse_spec(text) {
            Some(binding) => map.insert(normalized(binding.code, binding.modifiers), action),
            None => map,
        },
        None => map,
    }
}

/// The map that a configuration's bindings give: each action bound to the
/// key configured under its name, the actions taken in the order written
/// here, so that of two actions configured with one key the later has it.
pub open spec fn actions_spec(keybinds: Seq<(Seq<char>, Seq<char>)>) -> Map<KeyBinding, Action> {
    let m0 = Map::<KeyBinding, Action>::empty();
    let m1 = bind_named(m0, keybinds, "split_vertical"@, Action::SplitVertical);
    let m2 = bind_named(m1, keybinds, "split_horizontal"@, Action::SplitHorizontal);
    let m3 = bind_named(m2, keybinds, "resize_left"@, Action::ResizeLeft);
    let m4 = bind_named(m3, keybinds, "resize_right"@, Action::ResizeRight);
    let m5 = bind_named(m4, keybinds, "resize_up"@, Action::ResizeUp);
    let m6 = bind_named(m5, keybinds, "resize_down"@, Action::ResizeDown);
    let m7 = bind_named(m6, keybinds, "swap_vertical"@, Action::SwapVertical);
    let m8 = bind_named(m7, keybinds, "swap_horizontal"@, Action::SwapHorizontal);
    let m9 = bind_named(m8, keybinds, "save_state"@, Action::SaveState);
    let m10 = bind_named(m9, keybinds, "restore_state"@, Action::RestoreState);
    let m11 = bind_named(m10, keybinds, "focus_next"@, Action::FocusNext);
    bind_named(m11, keybinds, "quit"@, Action::Quit)
}

impl ActionMap {
    /// A map that binds nothing.
    pub fn new() -> (map: ActionMap)
        ensures
            map@ == Map::<KeyBinding, Action>::empty(),
    {
        ActionMap { entries: Vec::new() }
    }

    /// Binds `action` to the key that `binding` names, in place of what was
    /// bound to it. A binding of `BackTab` is kept as Shift+Tab.
    pub fn bind(&mut self, binding: KeyBinding, action: Action)
        ensures
            final(self)@ == old(self)@.insert(normalized(binding.code, binding.modifiers), action),
    {
        let key = normalize(binding.code, binding.modifiers);
        self.entries.push((key, action));
        assert(self.entries@.drop_last() == old(self).entries@);
    }

    /// The action bound to the key that was pressed, if any.
    pub fn get(&self, ev: KeyEvent) -> (found: Option<Action>)
        ensures
            found == action_for(self@, normalized(ev.code, ev.modifiers)),
    {
        let key = normalize(ev.code, ev.modifiers);
        let mut i: usize = self.entries.len();
        let ghost all = self.entries@;
        proof {
            assert(all.take(i as int) == all);
        }
        while i > 0
            invariant
                i <= self.entries.len(),
                all == self.entries@,
                key == normalized(ev.code, ev.modifiers),
                action_for(bound(all), key) == action_for(bound(all.take(i as int)), key),
            decreases i,
        {
            let ghost upto = all.take(i as int);
            proof {
                assert(upto.last() == all[i - 1]);
                assert(upto.drop_last() == all.take(i - 1));
            }
            let entry = self.entries[i - 1];
            if entry.0 == key {
                return Some(entry.1);
            }
            i -= 1;
        }
        None
    }

    /// Whether the key that was pressed is bound to quitting.
    pub fn is_quit_key(&self, ev: KeyEvent) -> (quit: bool)
        ensures
            quit == (action_for(self@, normalized(ev.code, ev.modifiers)) == Some(Action::Quit)),
    {
        match self.get(ev) {
            Some(Action::Quit) => true,
            _ => false,
        }
    }

    fn bind_configured(&mut self, keybinds: &Vec<(String, String)>, name: &str, action: Action)
        ensures
            final(self)@ == bind_named(old(self)@, pairs_view(keybinds@), name@, action),
    {
        match keybind_for(keybinds, name) {
            Some(text) => match parse_keybinding(text) {
                Some(binding) => {
                    self.bind(binding, action);
                },
                None => {},
            },
            None => {},
        }
    }
}

/// The actions that a configuration binds to keys. Only the keys that the
/// configuration names are bound: an action without one that can be read
/// has no key.
pub fn actions_from_config(keybinds: &Vec<(String, String)>) -> (map: ActionMap)
    ensures
        map@ == actions_spec(pairs_view(keybinds@)),
{
    let mut map = ActionMap::new();
    map.bind_configured(keybinds, "split_vertical", Action::SplitVertical);
    map.bind_configured(keybinds, "split_horizontal", Action::SplitHorizontal);
    map.bind_configured(keybinds, "resize_left", Action::ResizeLeft);
    map.bind_configured(keybinds, "resize_right", Action::ResizeRight);
    map.bind_configured(keybinds, "resize_up", Action::ResizeUp);
    map.bind_configured(keybinds, "resize_down", Action::ResizeDown);
    map.bind_configured(keybinds, "swap_vertical", Action::SwapVertical);
    map.bind_configured(keybinds, "swap_horizontal", Action::SwapHorizontal);
    map.bind_configured(keybinds, "save_state", Action::SaveState);
    map.bind_configured(keybinds, "restore_state", Action::RestoreState);
    map.bind_configured(keybinds, "focus_next", Action::FocusNext);
    map.bind_configured(keybinds, "quit", Action::Quit);
    map
}

} // verus!
