//! The prompt that asks for the name of a state to save or to restore.

use vstd::prelude::*;

verus! {

/// What the name typed into a prompt is for.
#[derive(Debug, Clone, Copy, PartialEq, Eq, Structural)]
pub enum PromptMode {
    Save,
    Restore,
}

/// A prompt that is open: its label, what was typed so far, and what the
/// name is for.
#[derive(Debug, Clone, PartialEq, Eq)]
pub struct InputPrompt {
    pub label: String,
    pub buffer: String,
    pub mode: PromptMode,
}

/// The mathematical value of an [`InputPrompt`].
pub ghost struct PromptView {
    pub label: Seq<char>,
    pub buffer: Seq<char>,
    pub mode: PromptMode,
}

impl View for InputPrompt {
    type V = PromptView;

    open spec fn view(&self) -> PromptView {
        PromptView { label: self.label@, buffer: self.buffer@, mode: self.mode }
    }
}

/// The prompt for the name of a state to save, with nothing typed yet.
pub open spec fn save_prompt() -> PromptView {
    PromptView { label: "保存名"@, buffer: Seq::empty(), mode: PromptMode::Save }
}

/// The prompt for the name of a state to restore, with nothing typed yet.
pub open spec fn restore_prompt() -> PromptView {
    PromptView { label: "復元名"@, buffer: Seq::empty(), mode: PromptMode::Restore }
}

impl InputPrompt {
    /// The prompt for the name of a state to save.
    pub fn save_mode() -> (prompt: InputPrompt)
        ensures
            prompt@ == save_prompt(),
    {
        InputPrompt { label: "保存名".to_owned(), buffer: String::new(), mode: PromptMode::Save }
    }

    /// The prompt for the name of a state to restore.
    pub fn restore_mode() -> (prompt: InputPrompt)
        ensures
            prompt@ == restore_prompt(),
    {
        InputPrompt {
            label: "復元名".to_owned(),
            buffer: String::new(),
            mode: PromptMode::Restore,
        }
    }
}

} // verus!
