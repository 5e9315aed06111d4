//! Typing into a one-line prompt, as the editor and the runtime both have
//! it.

use crate::keybind::{KeyCode, KeyEvent};
use crate::text::{trim, trimmed};
use vstd::prelude::*;

verus! {

/// What a key typed into a prompt did.
#[derive(Debug, Clone, PartialEq, Eq)]
pub enum Typed {
    /// Enter: the prompt closes with what was typed, trimmed.
    Commit(String),
    /// Escape: the prompt closes and what was typed is dropped.
    Cancel,
    /// The prompt stays open.
    Open,
}

/// The mathematical value of a [`Typed`].
pub ghost enum TypedView {
    Commit(Seq<char>),
    Cancel,
    Open,
}

impl View for Typed {
    type V = TypedView;

    open spec fn view(&self) -> TypedView {
        match self {
            Typed::Commit(text) => TypedView::Commit(text@),
            Typed::Cancel => TypedView::Cancel,
            Typed::Open => TypedView::Open,
        }
    }
}

/// What a key makes of the text typed so far: backspace takes the last
/// character off, a character typed without Ctrl is put behind it, and no
/// other key changes it.
pub open spec fn buffer_after(buffer: Seq<char>, key: KeyEvent) -> Seq<char> {
    match key.code {
        KeyCode::Backspace => if buffer.len() > 0 {
            buffer.drop_last()
        } else {
            buffer
        },
        KeyCode::Char(c) => if key.modifiers.control {
            buffer
        } else {
            buffer.push(c)
        },
        _ => buffer,
    }
}

/// What a key does to the prompt.
pub open spec fn typed(buffer: Seq<char>, key: KeyEvent) -> TypedView {
    match key.code {
        KeyCode::Enter => TypedView::Commit(trim(buffer)),
        KeyCode::Esc => TypedView::Cancel,
        _ => TypedView::Open,
    }
}

/// Types a key into a prompt's buffer.
pub fn type_key(buffer: &mut String, key: KeyEvent) -> (outcome: Typed)
    ensures
        outcome@ == typed(old(buffer)@, key),
        final(buffer)@ == buffer_after(old(buffer)@, key),
{
    match key.code {
        KeyCode::Enter => Typed::Commit(trimmed(buffer.as_str())),
        KeyCode::Esc => Typed::Cancel,
        KeyCode::Backspace => {
            let _ = buffer.pop();
            Typed::Open
        },
        KeyCode::Char(c) => {
            if !key.modifiers.control {
                buffer.push(c);
            }
            Typed::Open
        },
        _ => Typed::Open,
    }
}

} // verus!
