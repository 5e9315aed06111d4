//! The prompt of the editor: for a bite's name or for its command.

use vstd::prelude::*;

verus! {

/// What the editor's prompt asks for.
#[derive(Debug, Clone, Copy, PartialEq, Eq, Structural)]
pub enum InputKind {
    Name,
    Command,
}

/// A prompt that is open: what it asks for, and what was typed so far.
#[derive(Debug, Clone, PartialEq, Eq)]
pub struct InputMode {
    pub kind: InputKind,
    pub buffer: String,
}

/// The mathematical value of an [`InputMode`].
pub ghost struct InputView {
    pub kind: InputKind,
    pub buffer: Seq<char>,
}

impl View for InputMode {
    type V = InputView;

    open spec fn view(&self) -> InputView {
        InputView { kind: self.kind, buffer: self.buffer@ }
    }
}

impl InputMode {
    /// The prompt for a bite's name, with nothing typed yet.
    pub fn for_name() -> (input: InputMode)
        ensures
            input@ == (InputView { kind: InputKind::Name, buffer: Seq::empty() }),
    {
        InputMode { kind: InputKind::Name, buffer: String::new() }
    }

    /// The prompt for a bite's command, with nothing typed yet.
    pub fn for_command() -> (input: InputMode)
        ensures
            input@ == (InputView { kind: InputKind::Command, buffer: Seq::empty() }),
    {
        InputMode { kind: InputKind::Command, buffer: String::new() }
    }
}

} // verus!
