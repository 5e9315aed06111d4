//! The running multiplexer: what each key does to the layout, the focus and
//! the prompt, and what the program has to do about it. The state kept here
//! is all but the children themselves; starting them, writing to them and
//! touching the disk is the program's part, which it is told by an
//! [`Effect`] and reports back on.

pub mod actions;
pub mod key_to_bytes;
pub mod pane_process;
pub mod prompt;
pub mod screen;

pub use actions::{
    resize_plan, spawn_plan, Effect, PaneSize, SpawnRequest, RESIZE_STEP_RATIO, SPLIT_RATIO,
};
pub use key_to_bytes::key_to_bytes;
pub use pane_process::{ingest, pane_size, take_lines, OutputBuffer, OUTPUT_LIMIT, PENDING_CHAR_LIMIT};
pub use prompt::{InputPrompt, PromptMode};
pub use screen::{centered_rect, main_area, status_area};

use crate::action::{action_for, actions_from_config, actions_spec, Action, ActionMap};
use crate::config::{Config, ConfigView};
use crate::input::{buffer_after, type_key, typed, Typed, TypedView};
use crate::keybind::{normalized, KeyBinding, KeyEvent};
use crate::layout::geometry::Rect;
use crate::layout::manipulation::{
    next_id, next_id_spec, resize_from_bite, resize_spec, rollback_split_bite, rollback_spec,
    split_bite, split_sibling, split_sibling_spec, split_spec, swap_adjacent_bites, swap_spec,
};
use crate::layout::navigation::{collect_bites, first_bite, layout_rects, rects};
use crate::layout::search::find_bite;
use crate::model::{Direction, Node, Template, TemplateView, Tree};
use crate::text::{blank, followed_by};
use actions::{
    bite_command, find_rect, rect_of, request_for, requests_view, sizes, spawn_plan_spec,
    EffectView,
};
use key_to_bytes::key_bytes;
use prompt::{restore_prompt, save_prompt, PromptView};
use vstd::prelude::*;

verus! {

/// The state of the running multiplexer.
#[derive(Debug)]
pub struct RuntimeApp {
    pub template: Template,
    pub config: Config,
    pub actions: ActionMap,
    pub active_id: u64,
    pub prompt: Option<InputPrompt>,
    pub status: String,
}

/// The mathematical value of a [`RuntimeApp`].
pub ghost struct RuntimeView {
    pub template: TemplateView,
    pub config: ConfigView,
    pub actions: Map<KeyBinding, Action>,
    pub active_id: u64,
    pub prompt: Option<PromptView>,
    pub status: Seq<char>,
}

impl View for RuntimeApp {
    type V = RuntimeView;

    open spec fn view(&self) -> RuntimeView {
        RuntimeView {
            template: self.template@,
            config: self.config@,
            actions: self.actions@,
            active_id: self.active_id,
            prompt: match self.prompt {
                Some(prompt) => Some(prompt@),
                None => None,
            },
            status: self.status@,
        }
    }
}

/// The place of the first `id` in `ids`, if it is there.
pub open spec fn position(ids: Seq<u64>, id: u64) -> Option<int>
    decreases ids.len(),
{
    if ids.len() == 0 {
        None
    } else if ids[0] == id {
        Some(0)
    } else {
        match position(ids.drop_first(), id) {
            Some(i) => Some(i + 1),
            None => None,
        }
    }
}

/// The bite that has the focus after `active`: the next in the order of the
/// bites, the first after the last, and the first where `active` is none of
/// them.
pub open spec fn focus_after(bites: Seq<u64>, active: u64) -> u64 {
    if bites.len() == 0 {
        active
    } else {
        match position(bites, active) {
            Some(at) => bites[(at + 1) % (bites.len() as int)],
            None => bites[0],
        }
    }
}

/// The bite that has the focus in a tree for which `wanted` was asked:
/// `wanted` where it is a bite of the tree, else the tree's first bite.
pub open spec fn focus_in(t: Tree, wanted: u64) -> u64 {
    if t.has_bite(wanted) {
        wanted
    } else {
        t.bites()[0]
    }
}

/// Where the focus is after the split for the bite `new_id` was undone: on
/// the bite that was split where it was on the new bite, else where it was.
pub open spec fn focus_after_rollback(t: Tree, new_id: u64, active: u64) -> u64 {
    if active == new_id {
        match split_sibling_spec(t, new_id) {
            Some(sibling) => sibling,
            None => active,
        }
    } else {
        active
    }
}

/// The direction and the step of a resize action.
pub open spec fn resize_of(action: Action) -> Option<(Direction, int)> {
    match action {
        Action::ResizeLeft => Some((Direction::Vertical, -(RESIZE_STEP_RATIO as int))),
        Action::ResizeRight => Some((Direction::Vertical, RESIZE_STEP_RATIO as int)),
        Action::ResizeUp => Some((Direction::Horizontal, -(RESIZE_STEP_RATIO as int))),
        Action::ResizeDown => Some((Direction::Horizontal, RESIZE_STEP_RATIO as int)),
        _ => None,
    }
}

/// The state with another tree.
pub open spec fn with_root(s: RuntimeView, root: Tree) -> RuntimeView {
    RuntimeView { template: TemplateView { name: s.template.name, root }, ..s }
}

/// What a split of the focused bite does: the tree is split in half with
/// the next free id and the configured command, and the child of the new
/// bite is to be started in a terminal the size of its pane. Nothing happens
/// where the focus is on no bite or the ids have run out.
pub open spec fn after_split(s: RuntimeView, orientation: Direction, main: Rect) -> (
    RuntimeView,
    EffectView,
) {
    let root = s.template.root;
    let new_id = next_id_spec(root);
    if new_id < u64::MAX && root.has_bite(s.active_id) {
        let grown = split_spec(
            root,
            s.active_id,
            orientation,
            SPLIT_RATIO as int,
            new_id,
            s.config.default_command,
        ).0;
        (
            with_root(s, grown),
            EffectView::Spawn(request_for(grown, new_id, rect_of(rects(grown, main), new_id)->0)),
        )
    } else {
        (s, EffectView::Nothing)
    }
}

/// What an action does to the state, and what it asks of the program.
pub open spec fn after_action(s: RuntimeView, action: Action, main: Rect) -> (
    RuntimeView,
    EffectView,
) {
    let root = s.template.root;
    match action {
        Action::SplitVertical => after_split(s, Direction::Vertical, main),
        Action::SplitHorizontal => after_split(s, Direction::Horizontal, main),
        Action::ResizeLeft | Action::ResizeRight | Action::ResizeUp | Action::ResizeDown => {
            let how = resize_of(action)->0;
            let moved = resize_spec(root, s.active_id, how.0, how.1).0;
            (with_root(s, moved), EffectView::Resize(sizes(moved, main)))
        },
        Action::SwapVertical => (
            with_root(s, swap_spec(root, s.active_id, Direction::Vertical).0),
            EffectView::Nothing,
        ),
        Action::SwapHorizontal => (
            with_root(s, swap_spec(root, s.active_id, Direction::Horizontal).0),
            EffectView::Nothing,
        ),
        Action::SaveState => (RuntimeView { prompt: Some(save_prompt()), ..s }, EffectView::Nothing),
        Action::RestoreState => (
            RuntimeView { prompt: Some(restore_prompt()), ..s },
            EffectView::Nothing,
        ),
        Action::FocusNext => (
            RuntimeView { active_id: focus_after(root.bites(), s.active_id), ..s },
            EffectView::Nothing,
        ),
        Action::Quit => (s, EffectView::Quit),
    }
}

/// What a key does while a prompt is open: it is typed into the prompt.
/// Enter closes the prompt and asks for the state of the name typed to be
/// saved or read, unless the name is empty; escape closes it.
pub open spec fn after_prompt_key(s: RuntimeView, prompt: PromptView, key: KeyEvent) -> (
    RuntimeView,
    EffectView,
) {
    match typed(prompt.buffer, key) {
        TypedView::Commit(name) => (
            RuntimeView { prompt: None, ..s },
            if name.len() == 0 {
                EffectView::Nothing
            } else {
                match prompt.mode {
                    PromptMode::Save => EffectView::SaveState { name },
                    PromptMode::Restore => EffectView::LoadState { name },
                }
            },
        ),
        TypedView::Cancel => (RuntimeView { prompt: None, ..s }, EffectView::Nothing),
        TypedView::Open => (
            RuntimeView {
                prompt: Some(PromptView { buffer: buffer_after(prompt.buffer, key), ..prompt }),
                ..s
            },
            EffectView::Nothing,
        ),
    }
}

/// What a key does. The key bound to quitting comes first, so that no
/// prompt can take it. Then an open prompt takes the key. Else the action
/// bound to the key is done; a key bound to none is handed on to the child
/// of the focused pane.
pub open spec fn after_key(s: RuntimeView, key: KeyEvent, main: Rect) -> (RuntimeView, EffectView) {
    let bound = action_for(s.actions, normalized(key.code, key.modifiers));
    if bound == Some(Action::Quit) {
        (s, EffectView::Quit)
    } else {
        match s.prompt {
            Some(prompt) => after_prompt_key(s, prompt, key),
            None => match bound {
                Some(action) => after_action(s, action, main),
                None => (
                    s,
                    match key_bytes(key.code) {
                        Some(bytes) => EffectView::Write { id: s.active_id, bytes },
                        None => EffectView::Nothing,
                    },
                ),
            },
        }
    }
}

/// The place of the first `id` in `ids`.
pub fn find_position(ids: &Vec<u64>, id: u64) -> (found: Option<usize>)
    ensures
        match found {
            Some(at) => at < ids.len() && position(ids@, id) == Some(at as int),
            None => position(ids@, id) is None,
        },
{
    let mut i: usize = 0;
    proof {
        assert(ids@.skip(0) == ids@);
    }
    while i < ids.len()
        invariant
            i <= ids.len(),
            match position(ids@.skip(i as int), id) {
                Some(at) => position(ids@, id) == Some(at + i),
                None => position(ids@, id) is None,
            },
        decreases ids.len() - i,
    {
        proof {
            assert(ids@.skip(i as int)[0] == ids@[i as int]);
            assert(ids@.skip(i as int).drop_first() == ids@.skip(i + 1));
        }
        if ids[i] == id {
            return Some(i);
        }
        i += 1;
    }
    None
}

fn focus_for(node: &Node, wanted: u64) -> (id: u64)
    ensures
        id == focus_in(node@, wanted),
        node@.has_bite(id),
{
    proof {
        crate::layout::navigation::lemma_bite_count(node@);
        assert(node@.bites().contains(node@.bites()[0]));
    }
    if find_bite(node, wanted).is_some() {
        wanted
    } else {
        first_bite(node)
    }
}

impl RuntimeApp {
    /// The tree is valid, and so will every tree be that a split makes of
    /// it: the command that new bites run is not blank.
    pub open spec fn sound(&self) -> bool {
        self.template@.root.valid() && !blank(self.config@.default_command)
    }

    /// The focus is on a bite of the tree.
    pub open spec fn focused(&self) -> bool {
        self.template@.root.has_bite(self.active_id)
    }

    /// The state in which a template starts to run: the actions that the
    /// configuration binds, the focus on the root where it is a bite and on
    /// the first bite else, no prompt and no status.
    pub fn new(template: Template, config: Config) -> (app: RuntimeApp)
        ensures
            app@ == (RuntimeView {
                template: template@,
                config: config@,
                actions: actions_spec(config@.keybinds),
                active_id: focus_in(template@.root, template@.root.id()),
                prompt: None,
                status: Seq::empty(),
            }),
            app.focused(),
    {
        let actions = actions_from_config(&config.keybinds);
        let active_id = focus_for(&template.root, template.root.id());
        RuntimeApp { template, config, actions, active_id, prompt: None, status: String::new() }
    }

    /// The children to start for the template, laid out in `main`.
    pub fn spawn_all(&self, main: Rect) -> (plan: Vec<SpawnRequest>)
        ensures
            requests_view(plan@) == spawn_plan_spec(self@.template.root, main),
    {
        spawn_plan(&self.template.root, main)
    }

    /// The size of each pane's terminal, the template laid out in `main`:
    /// what the panes are to be given after the screen changed its size or a
    /// child was started.
    pub fn resize_all(&self, main: Rect) -> (plan: Vec<PaneSize>)
        ensures
            plan@ == sizes(self@.template.root, main),
    {
        resize_plan(&self.template.root, main)
    }

    /// Whether the key is bound to quitting.
    pub fn is_quit_key(&self, key: KeyEvent) -> (quit: bool)
        ensures
            quit == (action_for(self@.actions, normalized(key.code, key.modifiers)) == Some(
                Action::Quit,
            )),
    {
        self.actions.is_quit_key(key)
    }

    /// Moves the focus to the next bite, and from the last to the first.
    pub fn focus_next(&mut self)
        ensures
            final(self)@ == (RuntimeView {
                active_id: focus_after(old(self)@.template.root.bites(), old(self)@.active_id),
                ..old(self)@
            }),
            final(self).focused(),
    {
        let mut ids: Vec<u64> = Vec::new();
        collect_bites(&self.template.root, &mut ids);
        proof {
            crate::layout::navigation::lemma_bite_count(self.template.root@);
            assert(ids@ == self.template.root@.bites());
        }
        if ids.len() == 0 {
            return ;
        }
        let next = match find_position(&ids, self.active_id) {
            Some(at) => ids[(at + 1) % ids.len()],
            None => ids[0],
        };
        assert(ids@.contains(next));
        self.active_id = next;
    }

    fn split_active(&mut self, orientation: Direction, main: Rect) -> (effect: Effect)
        ensures
            final(self)@ == after_split(old(self)@, orientation, main).0,
            effect@ == after_split(old(self)@, orientation, main).1,
            old(self).focused() ==> final(self).focused(),
            old(self).sound() ==> final(self).sound(),
    {
        let new_id = next_id(&self.template.root);
        proof {
            if self.sound() && new_id < u64::MAX {
                crate::layout::laws::lemma_next_ids_fresh(self.template.root@);
                crate::layout::laws::lemma_split_keeps_valid(
                    self.template.root@,
                    self.active_id,
                    orientation,
                    SPLIT_RATIO as int,
                    new_id,
                    self.config.default_command@,
                );
            }
        }
        let did = split_bite(
            &mut self.template.root,
            self.active_id,
            orientation,
            SPLIT_RATIO,
            new_id,
            self.config.default_command.as_str(),
        );
        if !did {
            return Effect::Nothing;
        }
        proof {
            let before = old(self).template.root@;
            let command = old(self).config.default_command@;
            let target = old(self).active_id;
            crate::layout::laws::lemma_split_keeps_bites(
                before,
                target,
                orientation,
                SPLIT_RATIO as int,
                new_id,
                command,
                target,
            );
            crate::layout::laws::lemma_split_adds_bite(
                before,
                target,
                orientation,
                SPLIT_RATIO as int,
                new_id,
                command,
            );
            actions::lemma_bite_has_rect(self.template.root@, main, new_id);
            crate::layout::search::lemma_bite_with(self.template.root@, new_id);
        }
        let mut placed: Vec<(u64, Rect)> = Vec::new();
        layout_rects(&self.template.root, main, &mut placed);
        assert(placed@ == rects(self.template.root@, main));
        let (rows, cols) = match find_rect(&placed, new_id) {
            Some(rect) => pane_size(rect),
            None => (0, 0),
        };
        let command = match bite_command(&self.template.root, new_id) {
            Some(command) => command,
            None => String::new(),
        };
        Effect::Spawn(SpawnRequest { id: new_id, command, rows, cols })
    }

    fn resize_active(&mut self, orientation: Direction, delta: i64, main: Rect) -> (effect: Effect)
        ensures
            final(self)@ == with_root(
                old(self)@,
                resize_spec(old(self)@.template.root, old(self)@.active_id, orientation, delta as int).0,
            ),
            effect@ == EffectView::Resize(sizes(final(self)@.template.root, main)),
            old(self).focused() ==> final(self).focused(),
            old(self).sound() ==> final(self).sound(),
    {
        proof {
            if self.sound() {
                crate::layout::laws::lemma_resize_keeps_valid(
                    self.template.root@,
                    self.active_id,
                    orientation,
                    delta as int,
                );
            }
            crate::layout::laws::lemma_resize_ids(
                self.template.root@,
                self.active_id,
                orientation,
                delta as int,
            );
        }
        let _ = resize_from_bite(&mut self.template.root, self.active_id, orientation, delta);
        Effect::Resize(self.resize_all(main))
    }

    fn swap_active(&mut self, orientation: Direction)
        ensures
            final(self)@ == with_root(
                old(self)@,
                swap_spec(old(self)@.template.root, old(self)@.active_id, orientation).0,
            ),
            old(self).focused() ==> final(self).focused(),
            old(self).sound() ==> final(self).sound(),
    {
        proof {
            if self.sound() {
                crate::layout::laws::lemma_swap_keeps_valid(
                    self.template.root@,
                    self.active_id,
                    orientation,
                );
            }
            crate::layout::laws::lemma_swap_keeps_bites(
                self.template.root@,
                self.active_id,
                orientation,
                self.active_id,
            );
        }
        let _ = swap_adjacent_bites(&mut self.template.root, self.active_id, orientation);
    }

    /// Does an action: changes the state, and says what the program has to
    /// do. The tree laid out in `main` gives the sizes that go with a split
    /// or a resize.
    pub fn handle_action(&mut self, action: Action, main: Rect) -> (effect: Effect)
        ensures
            final(self)@ == after_action(old(self)@, action, main).0,
            effect@ == after_action(old(self)@, action, main).1,
            old(self).focused() ==> final(self).focused(),
            old(self).sound() ==> final(self).sound(),
    {
        match action {
            Action::SplitVertical => self.split_active(Direction::Vertical, main),
            Action::SplitHorizontal => self.split_active(Direction::Horizontal, main),
            Action::ResizeLeft => self.resize_active(Direction::Vertical, -RESIZE_STEP_RATIO, main),
            Action::ResizeRight => self.resize_active(Direction::Vertical, RESIZE_STEP_RATIO, main),
            Action::ResizeUp => self.resize_active(Direction::Horizontal, -RESIZE_STEP_RATIO, main),
            Action::ResizeDown => self.resize_active(
                Direction::Horizontal,
                RESIZE_STEP_RATIO,
                main,
            ),
            Action::SwapVertical => {
                self.swap_active(Direction::Vertical);
                Effect::Nothing
            },
            Action::SwapHorizontal => {
                self.swap_active(Direction::Horizontal);
                Effect::Nothing
            },
            Action::SaveState => {
                self.prompt = Some(InputPrompt::save_mode());
                Effect::Nothing
            },
            Action::RestoreState => {
                self.prompt = Some(InputPrompt::restore_mode());
                Effect::Nothing
            },
            Action::FocusNext => {
                self.focus_next();
                Effect::Nothing
            },
            Action::Quit => Effect::Quit,
        }
    }

    /// Types a key into the open prompt. Without an open prompt nothing
    /// happens.
    pub fn handle_prompt_key(&mut self, key: KeyEvent) -> (effect: Effect)
        ensures
            match old(self)@.prompt {
                Some(prompt) => final(self)@ == after_prompt_key(old(self)@, prompt, key).0
                    && effect@ == after_prompt_key(old(self)@, prompt, key).1,
                None => final(self)@ == old(self)@ && effect@ == EffectView::Nothing,
            },
            final(self)@.template == old(self)@.template,
            final(self)@.config == old(self)@.config,
            final(self)@.active_id == old(self)@.active_id,
    {
        let mut taken: Option<InputPrompt> = None;
        core::mem::swap(&mut self.prompt, &mut taken);
        match taken {
            None => Effect::Nothing,
            Some(prompt) => {
                let mut prompt = prompt;
                match type_key(&mut prompt.buffer, key) {
                    Typed::Commit(name) => {
                        if name.as_str().is_empty() {
                            Effect::Nothing
                        } else {
                            match prompt.mode {
                                PromptMode::Save => Effect::SaveState { name },
                                PromptMode::Restore => Effect::LoadState { name },
                            }
                        }
                    },
                    Typed::Cancel => Effect::Nothing,
                    Typed::Open => {
                        self.prompt = Some(prompt);
                        Effect::Nothing
                    },
                }
            },
        }
    }

    /// Takes a key: changes the state, and says what the program has to do.
    /// `main` is the part of the screen that the panes are laid out in.
    pub fn handle_key(&mut self, key: KeyEvent, main: Rect) -> (effect: Effect)
        ensures
            final(self)@ == after_key(old(self)@, key, main).0,
            effect@ == after_key(old(self)@, key, main).1,
            old(self).focused() ==> final(self).focused(),
            old(self).sound() ==> final(self).sound(),
    {
        let bound = self.actions.get(key);
        match bound {
            Some(Action::Quit) => {
                return Effect::Quit;
            },
            _ => {},
        }
        if self.prompt.is_some() {
            return self.handle_prompt_key(key);
        }
        match bound {
            Some(action) => self.handle_action(action, main),
            None => match key_to_bytes(key) {
                Some(bytes) => Effect::Write { id: self.active_id, bytes },
                None => Effect::Nothing,
            },
        }
    }

    /// The child of the new bite `new_id` could not be started: the split
    /// that made the bite is undone, and the status says why. Where the
    /// focus was on the new bite, it moves to the bite that was split.
    pub fn spawn_failed(&mut self, new_id: u64, error: &str)
        ensures
            final(self)@ == (RuntimeView {
                status: "分割に失敗: "@ + error@,
                active_id: focus_after_rollback(
                    old(self)@.template.root,
                    new_id,
                    old(self)@.active_id,
                ),
                ..with_root(old(self)@, rollback_spec(old(self)@.template.root, new_id).0)
            }),
            old(self).sound() ==> final(self).sound(),
            old(self).focused() ==> final(self).focused(),
    {
        proof {
            if self.sound() {
                crate::layout::laws::lemma_removal_keeps_valid(self.template.root@, new_id);
            }
            crate::layout::laws::lemma_rollback_keeps_bites(
                self.template.root@,
                new_id,
                self.active_id,
            );
        }
        if self.active_id == new_id {
            match split_sibling(&self.template.root, new_id) {
                Some(sibling) => {
                    self.active_id = sibling;
                },
                None => {
                    proof {
                        crate::layout::manipulation::lemma_unchanged_when_not_done(
                            self.template.root@,
                            new_id,
                            Direction::Vertical,
                            0,
                        );
                    }
                },
            }
        }
        let _ = rollback_split_bite(&mut self.template.root, new_id);
        self.status = followed_by("分割に失敗: ", error);
    }

    /// The state `name` was written, or could not be: the status says so.
    pub fn state_saved(&mut self, name: &str, error: Option<&str>)
        ensures
            final(self)@ == (RuntimeView {
                status: match error {
                    None => "保存しました: "@ + name@,
                    Some(why) => "保存に失敗: "@ + why@,
                },
                ..old(self)@
            }),
    {
        self.status = match error {
            None => followed_by("保存しました: ", name),
            Some(why) => followed_by("保存に失敗: ", why),
        };
    }

    /// The state that was asked for was read and accepted: its template
    /// takes the place of the one that ran, and the focus stays where it was
    /// if the new tree has that bite, else goes to its first bite. The
    /// program is to stop all children and start those listed.
    pub fn restore(&mut self, template: Template, main: Rect) -> (plan: Vec<SpawnRequest>)
        ensures
            final(self)@ == (RuntimeView {
                template: template@,
                active_id: focus_in(template@.root, old(self)@.active_id),
                ..old(self)@
            }),
            final(self).focused(),
            requests_view(plan@) == spawn_plan_spec(template@.root, main),
    {
        self.active_id = focus_for(&template.root, self.active_id);
        self.template = template;
        self.spawn_all(main)
    }

    /// The children of a restored state were started, or the state could
    /// not be read or one of them not be started: the status says so.
    pub fn restored(&mut self, name: &str, error: Option<&str>)
        ensures
            final(self)@ == (RuntimeView {
                status: match error {
                    None => "復元しました: "@ + name@,
                    Some(why) => "復元に失敗: "@ + why@,
                },
                ..old(self)@
            }),
    {
        self.status = match error {
            None => followed_by("復元しました: ", name),
            Some(why) => followed_by("復元に失敗: ", why),
        };
    }
}

} // verus!
