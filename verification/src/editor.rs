//! The editor: a layout is designed with a cursor on the screen, without a
//! child being started. What each key does to the template, the cursor, the
//! selection and the prompt is decided here; drawing, reading keys and
//! writing the template to disk is the program's part.

pub mod editor_input;
pub mod editor_keys;

pub use editor_input::{InputKind, InputMode};
pub use editor_keys::{EditorApp, EditorEffect};
