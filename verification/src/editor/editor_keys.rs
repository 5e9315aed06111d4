//! The editor's state and what each key does to it.

use super::editor_input::{InputKind, InputMode, InputView};
use crate::input::{buffer_after, type_key, typed, Typed, TypedView};
use crate::keybind::{KeyCode, KeyEvent};
use crate::layout::geometry::{first_share, Rect, MAX_RATIO, MIN_RATIO, RATIO_UNIT};
use crate::layout::manipulation::{next_id, next_id_spec, split_bite, split_spec};
use crate::layout::navigation::{first_bite, layout_rects, rects};
use crate::layout::search::{bite_at, bite_with, find_bite_at, find_bite_mut, with_bite};
use crate::model::{Direction, Node, Template, TemplateView, Tree};
use crate::runtime::actions::{find_rect, rect_of};
use crate::text::blank;
use vstd::prelude::*;

verus! {

/// The state of the editor.
#[derive(Debug)]
pub struct EditorApp {
    pub template: Template,
    pub default_command: String,
    pub cursor_x: u16,
    pub cursor_y: u16,
    pub selected_id: u64,
    pub input: Option<InputMode>,
    pub message: String,
}

/// The mathematical value of an [`EditorApp`].
pub ghost struct EditorView {
    pub template: TemplateView,
    pub default_command: Seq<char>,
    pub cursor_x: u16,
    pub cursor_y: u16,
    pub selected_id: u64,
    pub input: Option<InputView>,
    pub message: Seq<char>,
}

impl View for EditorApp {
    type V = EditorView;

    open spec fn view(&self) -> EditorView {
        EditorView {
            template: self.template@,
            default_command: self.default_command@,
            cursor_x: self.cursor_x,
            cursor_y: self.cursor_y,
            selected_id: self.selected_id,
            input: match self.input {
                Some(input) => Some(input@),
                None => None,
            },
            message: self.message@,
        }
    }
}

/// What the program has to do after the editor took a key.
#[derive(Debug, Clone, Copy, PartialEq, Eq, Structural)]
pub enum EditorEffect {
    /// Nothing but to draw again.
    Nothing,
    /// Leave the editor.
    Quit,
    /// Write the template to disk, and report how it went.
    Save,
}

/// The ratio that puts a split of `extent` cells at the cell `offset` from
/// its start, in millionths; one half where there are no cells.
pub open spec fn ratio_at(offset: int, extent: int) -> int {
    if extent == 0 {
        RATIO_UNIT / 2
    } else {
        (offset * RATIO_UNIT) / extent
    }
}

/// The ratio that a split of the bite drawn in `rect` gets from the cursor:
/// the cursor's place in the rectangle along the axis that is divided. A
/// cursor before the rectangle counts as at its start.
pub open spec fn cursor_ratio(orientation: Direction, x: u16, y: u16, rect: Rect) -> int {
    match orientation {
        Direction::Vertical => ratio_at(
            if x >= rect.x {
                x - rect.x
            } else {
                0
            },
            rect.width as int,
        ),
        Direction::Horizontal => ratio_at(
            if y >= rect.y {
                y - rect.y
            } else {
                0
            },
            rect.height as int,
        ),
    }
}

/// A split made at the cursor falls under the cursor: where the ratio that
/// the cursor gives needs no clamping, the first child gets as many cells as
/// lie before the cursor.
pub proof fn lemma_split_falls_under_cursor(offset: int, extent: int)
    requires
        2 <= extent <= u16::MAX,
        0 <= offset,
        MIN_RATIO <= ratio_at(offset, extent) <= MAX_RATIO,
    ensures
        first_share(extent, ratio_at(offset, extent)) == offset,
{
    let ratio = ratio_at(offset, extent);
    let scaled = offset * 1_000_000;
    assert(ratio == scaled / extent);
    assert(ratio * extent <= scaled < ratio * extent + extent) by (nonlinear_arith)
        requires
            ratio == scaled / extent,
            extent > 0,
    ;
    let widened = extent * ratio + 500_000;
    assert(extent * ratio == ratio * extent) by (nonlinear_arith);
    assert(offset * 1_000_000 <= widened < (offset + 1) * 1_000_000);
    assert(widened / 1_000_000 == offset) by (nonlinear_arith)
        requires
            offset * 1_000_000 <= widened < (offset + 1) * 1_000_000,
    ;
    assert(1 <= offset <= extent - 1) by (nonlinear_arith)
        requires
            ratio * extent <= offset * 1_000_000 < ratio * extent + extent,
            100_000 <= ratio <= 900_000,
            extent >= 2,
    ;
}

/// The state with another tree.
pub open spec fn with_root(s: EditorView, root: Tree) -> EditorView {
    EditorView { template: TemplateView { name: s.template.name, root }, ..s }
}

/// The tree with the name of its first bite of the given id changed.
pub open spec fn renamed(t: Tree, id: u64, name: Seq<char>) -> Tree {
    match bite_with(t, id) {
        Some(Tree::Bite { id: own, command, .. }) => with_bite(
            t,
            id,
            Tree::Bite { id: own, name, command },
        ),
        _ => t,
    }
}

/// The tree with the command of its first bite of the given id changed.
pub open spec fn recommanded(t: Tree, id: u64, command: Seq<char>) -> Tree {
    match bite_with(t, id) {
        Some(Tree::Bite { id: own, name, .. }) => with_bite(
            t,
            id,
            Tree::Bite { id: own, name, command },
        ),
        _ => t,
    }
}

/// What committing a prompt does: the text typed becomes the name or the
/// command of the selected bite. Empty text changes nothing.
pub open spec fn after_commit(s: EditorView, kind: InputKind, text: Seq<char>) -> EditorView {
    if text.len() == 0 {
        s
    } else {
        match kind {
            InputKind::Name => with_root(s, renamed(s.template.root, s.selected_id, text)),
            InputKind::Command => with_root(s, recommanded(s.template.root, s.selected_id, text)),
        }
    }
}

/// What a key does while a prompt is open.
pub open spec fn after_input_key(s: EditorView, input: InputView, key: KeyEvent) -> EditorView {
    match typed(input.buffer, key) {
        TypedView::Commit(text) => after_commit(EditorView { input: None, ..s }, input.kind, text),
        TypedView::Cancel => EditorView { input: None, ..s },
        TypedView::Open => EditorView {
            input: Some(InputView { buffer: buffer_after(input.buffer, key), ..input }),
            ..s
        },
    }
}

/// What splitting at the cursor does: the selected bite is split at the
/// ratio that the cursor gives in the bite's rectangle, with the next free
/// id and the default command. Nothing happens where the selected bite has
/// no rectangle or the ids have run out.
pub open spec fn after_split_at_cursor(s: EditorView, main: Rect, orientation: Direction) -> EditorView {
    let root = s.template.root;
    match rect_of(rects(root, main), s.selected_id) {
        Some(rect) => {
            let new_id = next_id_spec(root);
            if new_id < u64::MAX && root.has_bite(s.selected_id) {
                EditorView {
                    message: "分割しました"@,
                    ..with_root(
                        s,
                        split_spec(
                            root,
                            s.selected_id,
                            orientation,
                            cursor_ratio(orientation, s.cursor_x, s.cursor_y, rect),
                            new_id,
                            s.default_command,
                        ).0,
                    )
                }
            } else {
                s
            }
        },
        None => s,
    }
}

/// Where an arrow key moves the cursor: one cell, and neither out of `main`
/// nor past the last cell that can be addressed.
pub open spec fn after_arrow(s: EditorView, code: KeyCode, main: Rect) -> EditorView {
    match code {
        KeyCode::Left => if s.cursor_x > main.x {
            EditorView { cursor_x: (s.cursor_x - 1) as u16, ..s }
        } else {
            s
        },
        KeyCode::Right => if s.cursor_x + 1 < main.x + main.width && s.cursor_x < u16::MAX {
            EditorView { cursor_x: (s.cursor_x + 1) as u16, ..s }
        } else {
            s
        },
        KeyCode::Up => if s.cursor_y > main.y {
            EditorView { cursor_y: (s.cursor_y - 1) as u16, ..s }
        } else {
            s
        },
        KeyCode::Down => if s.cursor_y + 1 < main.y + main.height && s.cursor_y < u16::MAX {
            EditorView { cursor_y: (s.cursor_y + 1) as u16, ..s }
        } else {
            s
        },
        _ => s,
    }
}

/// The state with the bite under the cursor selected, where there is one.
pub open spec fn reselected(s: EditorView, main: Rect) -> EditorView {
    match bite_at(s.template.root, main, s.cursor_x as int, s.cursor_y as int) {
        Some(id) => EditorView { selected_id: id, ..s },
        None => s,
    }
}

/// What a key does while no prompt is open, before the selection follows
/// the cursor.
pub open spec fn after_command_key(s: EditorView, key: KeyEvent, main: Rect) -> EditorView {
    match key.code {
        KeyCode::Char(c) => if c == 'v' {
            after_split_at_cursor(s, main, Direction::Vertical)
        } else if c == 'h' {
            after_split_at_cursor(s, main, Direction::Horizontal)
        } else if c == 'n' {
            EditorView { input: Some(InputView { kind: InputKind::Name, buffer: Seq::empty() }), ..s }
        } else if c == 'c' {
            EditorView {
                input: Some(InputView { kind: InputKind::Command, buffer: Seq::empty() }),
                ..s
            }
        } else {
            s
        },
        _ => after_arrow(s, key.code, main),
    }
}

/// What a key does. An open prompt takes the key. Else `q` leaves the
/// editor, `v` and `h` split the selected bite, `n` and `c` open the prompt
/// for its name and its command, `s` asks for the template to be saved, and
/// the arrows move the cursor; after any of these but `q` the bite under the
/// cursor is selected. Modifiers do not count.
pub open spec fn after_key(s: EditorView, key: KeyEvent, main: Rect) -> (EditorView, EditorEffect) {
    match s.input {
        Some(input) => (after_input_key(s, input, key), EditorEffect::Nothing),
        None => if key.code == KeyCode::Char('q') {
            (s, EditorEffect::Quit)
        } else {
            (
                reselected(after_command_key(s, key, main), main),
                if key.code == KeyCode::Char('s') {
                    EditorEffect::Save
                } else {
                    EditorEffect::Nothing
                },
            )
        },
    }
}

fn ratio_from(offset: u16, extent: u16) -> (ratio: i64)
    ensures
        ratio == ratio_at(offset as int, extent as int),
{
    if extent == 0 {
        RATIO_UNIT / 2
    } else {
        assert(offset as u64 * 1_000_000 <= 65535 * 1_000_000) by (nonlinear_arith)
            requires
                offset <= 65535,
        ;
        let scaled: u64 = offset as u64 * 1_000_000;
        (scaled / extent as u64) as i64
    }
}

impl EditorApp {
    /// The tree is valid, and so will every tree be that a split makes of
    /// it: the command that new bites run is not blank.
    pub open spec fn sound(&self) -> bool {
        self.template@.root.valid() && !blank(self.default_command@)
    }

    /// The selection is a bite of the tree.
    pub open spec fn selected(&self) -> bool {
        self.template@.root.has_bite(self.selected_id)
    }

    /// The editor opened on a template: the cursor in the corner, the first
    /// bite selected, no prompt, and the keys as the message. New bites run
    /// `default_command`.
    pub fn new(template: Template, default_command: String) -> (app: EditorApp)
        ensures
            app@ == (EditorView {
                template: template@,
                default_command: default_command@,
                cursor_x: 0,
                cursor_y: 0,
                selected_id: template@.root.bites()[0],
                input: None,
                message: "←↑↓→:移動 v/h:分割 n:名前 c:コマンド s:保存 q:終了"@,
            }),
            app.selected(),
    {
        let selected_id = first_bite(&template.root);
        EditorApp {
            template,
            default_command,
            cursor_x: 0,
            cursor_y: 0,
            selected_id,
            input: None,
            message: "←↑↓→:移動 v/h:分割 n:名前 c:コマンド s:保存 q:終了".to_owned(),
        }
    }

    fn apply_input(&mut self, kind: InputKind, text: String)
        ensures
            final(self)@ == after_commit(old(self)@, kind, text@),
            old(self).selected() ==> final(self).selected(),
            old(self).sound() && !blank(text@) ==> final(self).sound(),
    {
        if text.as_str().is_empty() {
            return ;
        }
        proof {
            if self.sound() {
                crate::layout::laws::lemma_found_bite_well_formed(
                    self.template.root@,
                    self.selected_id,
                );
            }
        }
        proof {
            crate::layout::search::lemma_bite_with(self.template.root@, self.selected_id);
        }
        let ghost root = self.template.root@;
        let ghost id = self.selected_id;
        match find_bite_mut(&mut self.template.root, self.selected_id) {
            Some(bite) => {
                let ghost before = bite@;
                match bite {
                    Node::Bite { name, command, .. } => {
                        match kind {
                            InputKind::Name => {
                                *name = text;
                            },
                            InputKind::Command => {
                                *command = text;
                            },
                        }
                    },
                    Node::Spoon { .. } => {},
                }
                proof {
                    crate::layout::laws::lemma_with_bite_bites(root, id, bite@);
                    if root.valid() && !blank(text@) && before.well_formed() {
                        crate::layout::laws::lemma_with_bite_keeps_valid(root, id, bite@);
                    }
                }
            },
            None => {},
        }
    }

    fn handle_input_key(&mut self, key: KeyEvent)
        requires
            old(self).input is Some,
        ensures
            final(self)@ == after_input_key(old(self)@, old(self)@.input->0, key),
            old(self).selected() ==> final(self).selected(),
            old(self).sound() ==> final(self).sound(),
    {
        proof {
            crate::text::lemma_trim_not_blank(self.input->0.buffer@);
        }
        let mut taken: Option<InputMode> = None;
        core::mem::swap(&mut self.input, &mut taken);
        match taken {
            None => {},
            Some(input) => {
                let mut input = input;
                match type_key(&mut input.buffer, key) {
                    Typed::Commit(text) => {
                        self.apply_input(input.kind, text);
                    },
                    Typed::Cancel => {},
                    Typed::Open => {
                        self.input = Some(input);
                    },
                }
            },
        }
    }

    fn split_at_cursor(&mut self, main: Rect, orientation: Direction)
        ensures
            final(self)@ == after_split_at_cursor(old(self)@, main, orientation),
            old(self).selected() ==> final(self).selected(),
            old(self).sound() ==> final(self).sound(),
    {
        let target_id = self.selected_id;
        let mut placed: Vec<(u64, Rect)> = Vec::new();
        layout_rects(&self.template.root, main, &mut placed);
        assert(placed@ == rects(self.template.root@, main));
        match find_rect(&placed, target_id) {
            None => {},
            Some(rect) => {
                let ratio = match orientation {
                    Direction::Vertical => ratio_from(
                        if self.cursor_x >= rect.x {
                            self.cursor_x - rect.x
                        } else {
                            0
                        },
                        rect.width,
                    ),
                    Direction::Horizontal => ratio_from(
                        if self.cursor_y >= rect.y {
                            self.cursor_y - rect.y
                        } else {
                            0
                        },
                        rect.height,
                    ),
                };
                let new_id = next_id(&self.template.root);
                proof {
                    if self.sound() && new_id < u64::MAX {
                        crate::layout::laws::lemma_next_ids_fresh(self.template.root@);
                        crate::layout::laws::lemma_split_keeps_valid(
                            self.template.root@,
                            target_id,
                            orientation,
                            ratio as int,
                            new_id,
                            self.default_command@,
                        );
                    }
                    if self.template.root@.has_bite(target_id) {
                        crate::layout::laws::lemma_split_keeps_bites(
                            self.template.root@,
                            target_id,
                            orientation,
                            ratio as int,
                            new_id,
                            self.default_command@,
                            target_id,
                        );
                    }
                }
                let did = split_bite(
                    &mut self.template.root,
                    target_id,
                    orientation,
                    ratio,
                    new_id,
                    self.default_command.as_str(),
                );
                if did {
                    self.message = "分割しました".to_owned();
                }
            },
        }
    }

    fn move_cursor(&mut self, code: KeyCode, main: Rect)
        ensures
            final(self)@ == after_arrow(old(self)@, code, main),
    {
        match code {
            KeyCode::Left => {
                if self.cursor_x > main.x {
                    self.cursor_x -= 1;
                }
            },
            KeyCode::Right => {
                if (self.cursor_x as u32) + 1 < main.x as u32 + main.width as u32 && self.cursor_x
                    < u16::MAX {
                    self.cursor_x += 1;
                }
            },
            KeyCode::Up => {
                if self.cursor_y > main.y {
                    self.cursor_y -= 1;
                }
            },
            KeyCode::Down => {
                if (self.cursor_y as u32) + 1 < main.y as u32 + main.height as u32 && self.cursor_y
                    < u16::MAX {
                    self.cursor_y += 1;
                }
            },
            _ => {},
        }
    }

    /// Takes a key: changes the state, and says what the program has to do.
    /// `main` is the part of the screen that the layout is drawn in.
    pub fn handle_key(&mut self, key: KeyEvent, main: Rect) -> (effect: EditorEffect)
        ensures
            final(self)@ == after_key(old(self)@, key, main).0,
            effect == after_key(old(self)@, key, main).1,
            old(self).selected() ==> final(self).selected(),
            old(self).sound() ==> final(self).sound(),
    {
        if self.input.is_some() {
            self.handle_input_key(key);
            return EditorEffect::Nothing;
        }
        let mut effect = EditorEffect::Nothing;
        match key.code {
            KeyCode::Char(c) => {
                if c == 'q' {
                    return EditorEffect::Quit;
                } else if c == 'v' {
                    self.split_at_cursor(main, Direction::Vertical);
                } else if c == 'h' {
                    self.split_at_cursor(main, Direction::Horizontal);
                } else if c == 'n' {
                    self.input = Some(InputMode::for_name());
                } else if c == 'c' {
                    self.input = Some(InputMode::for_command());
                } else if c == 's' {
                    effect = EditorEffect::Save;
                }
            },
            code => {
                self.move_cursor(code, main);
            },
        }
        proof {
            crate::layout::search::lemma_bite_at_is_bite(
                self.template.root@,
                main,
                self.cursor_x as int,
                self.cursor_y as int,
            );
        }
        match find_bite_at(&self.template.root, main, self.cursor_x, self.cursor_y) {
            Some(id) => {
                self.selected_id = id;
            },
            None => {},
        }
        effect
    }

    /// The template was written, or could not be: the message says so.
    pub fn saved(&mut self, written: bool)
        ensures
            final(self)@ == (EditorView {
                message: if written {
                    "テンプレートを保存しました"@
                } else {
                    "保存に失敗しました"@
                },
                ..old(self)@
            }),
    {
        self.message = if written {
            "テンプレートを保存しました".to_owned()
        } else {
            "保存に失敗しました".to_owned()
        };
    }
}

} // verus!
