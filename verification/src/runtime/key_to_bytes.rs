//! The bytes that a key sends to the child of the focused pane.

use crate::keybind::{KeyCode, KeyEvent};
use vstd::prelude::*;

verus! {

/// The bytes that a key stands for on a terminal, for the keys that are
/// handed on: an ASCII character is its byte, enter a carriage return, and
/// the arrows the escape sequences `ESC [ D`, `C`, `A` and `B`. No other key
/// is handed on. Modifiers do not count.
pub open spec fn key_bytes(code: KeyCode) -> Option<Seq<u8>> {
    match code {
        KeyCode::Char(c) => if c <= '\u{7f}' {
            Some(seq![c as u8])
        } else {
            None
        },
        KeyCode::Enter => Some(seq![0x0Du8]),
        KeyCode::Backspace => Some(seq![0x7Fu8]),
        KeyCode::Tab => Some(seq![0x09u8]),
        KeyCode::Esc => Some(seq![0x1Bu8]),
        KeyCode::Left => Some(seq![0x1Bu8, 0x5Bu8, 0x44u8]),
        KeyCode::Right => Some(seq![0x1Bu8, 0x5Bu8, 0x43u8]),
        KeyCode::Up => Some(seq![0x1Bu8, 0x5Bu8, 0x41u8]),
        KeyCode::Down => Some(seq![0x1Bu8, 0x5Bu8, 0x42u8]),
        _ => None,
    }
}

fn csi(last: u8) -> (bytes: Vec<u8>)
    ensures
        bytes@ == seq![0x1Bu8, 0x5Bu8, last],
{
    let mut bytes: Vec<u8> = Vec::new();
    bytes.push(0x1B);
    bytes.push(0x5B);
    bytes.push(last);
    assert(bytes@ =~= seq![0x1Bu8, 0x5Bu8, last]);
    bytes
}

fn single(byte: u8) -> (bytes: Vec<u8>)
    ensures
        bytes@ == seq![byte],
{
    let mut bytes: Vec<u8> = Vec::new();
    bytes.push(byte);
    assert(bytes@ =~= seq![byte]);
    bytes
}

/// The bytes to write to the child for a key, or nothing for a key that is
/// not handed on.
pub fn key_to_bytes(key: KeyEvent) -> (bytes: Option<Vec<u8>>)
    ensures
        match bytes {
            Some(b) => key_bytes(key.code) == Some(b@),
            None => key_bytes(key.code) is None,
        },
{
    match key.code {
        KeyCode::Char(c) => {
            if c <= '\u{7f}' {
                Some(single(c as u8))
            } else {
                None
            }
        },
        KeyCode::Enter => Some(single(0x0D)),
        KeyCode::Backspace => Some(single(0x7F)),
        KeyCode::Tab => Some(single(0x09)),
        KeyCode::Esc => Some(single(0x1B)),
        KeyCode::Left => Some(csi(0x44)),
        KeyCode::Right => Some(csi(0x43)),
        KeyCode::Up => Some(csi(0x41)),
        KeyCode::Down => Some(csi(0x42)),
        _ => None,
    }
}

} // verus!
