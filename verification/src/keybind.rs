//! Key bindings: the keys the program knows, a binding as the user writes
//! it (`Ctrl+S`, `shift+tab`, `F5`), and whether a key that was pressed is
//! the one a binding names.

pub mod format;

pub use format::format_keybinding;

use crate::text::{
    char_is_upper, chars_of, find_char, find_from, folded, folds_to, is_upper, trim, trim_range,
};
use vstd::prelude::*;

verus! {

/// A key.
#[derive(Debug, Clone, Copy, PartialEq, Eq, Hash, Structural)]
pub enum KeyCode {
    Char(char),
    Enter,
    Esc,
    Tab,
    BackTab,
    Backspace,
    Delete,
    Home,
    End,
    PageUp,
    PageDown,
    Insert,
    Left,
    Right,
    Up,
    Down,
    /// A function key. Bindings name F1 to F12; a terminal may report more.
    F(u8),
}

/// The modifier keys held with a key. `other` stands for any modifier that
/// bindings cannot name (super, hyper, meta): a key pressed with one of them
/// matches no binding.
#[derive(Debug, Clone, Copy, PartialEq, Eq, Hash, Structural)]
pub struct KeyModifiers {
    pub shift: bool,
    pub control: bool,
    pub alt: bool,
    pub other: bool,
}

/// A key and the modifiers that must be held with it.
#[derive(Debug, Clone, Copy, PartialEq, Eq, Hash, Structural)]
pub struct KeyBinding {
    pub code: KeyCode,
    pub modifiers: KeyModifiers,
}

/// A key that was pressed, with the modifiers held.
#[derive(Debug, Clone, Copy, PartialEq, Eq, Hash, Structural)]
pub struct KeyEvent {
    pub code: KeyCode,
    pub modifiers: KeyModifiers,
}

/// A modifier that a binding can name.
#[derive(Debug, Clone, Copy, PartialEq, Eq, Structural)]
pub enum Modifier {
    Ctrl,
    Alt,
    Shift,
}

impl KeyModifiers {
    /// No modifier.
    pub open spec fn none_spec() -> KeyModifiers {
        KeyModifiers { shift: false, control: false, alt: false, other: false }
    }

    /// These modifiers and `m`.
    pub open spec fn with_spec(self, m: Modifier) -> KeyModifiers {
        match m {
            Modifier::Ctrl => KeyModifiers { control: true, ..self },
            Modifier::Alt => KeyModifiers { alt: true, ..self },
            Modifier::Shift => KeyModifiers { shift: true, ..self },
        }
    }

    /// No modifier.
    #[verifier::when_used_as_spec(none_spec)]
    pub fn none() -> (m: KeyModifiers)
        ensures
            m == KeyModifiers::none_spec(),
    {
        KeyModifiers { shift: false, control: false, alt: false, other: false }
    }

    /// These modifiers and `m`.
    #[verifier::when_used_as_spec(with_spec)]
    pub fn with(self, m: Modifier) -> (r: KeyModifiers)
        ensures
            r == self.with_spec(m),
    {
        match m {
            Modifier::Ctrl => KeyModifiers { control: true, ..self },
            Modifier::Alt => KeyModifiers { alt: true, ..self },
            Modifier::Shift => KeyModifiers { shift: true, ..self },
        }
    }
}

/// A key as bindings are compared: some terminals report Shift+Tab as a key
/// of its own, `BackTab`, which is taken for `Tab` with Shift held.
pub open spec fn normalized(code: KeyCode, modifiers: KeyModifiers) -> KeyBinding {
    if code == KeyCode::BackTab {
        KeyBinding { code: KeyCode::Tab, modifiers: modifiers.with_spec(Modifier::Shift) }
    } else {
        KeyBinding { code, modifiers }
    }
}

/// The modifier that a word names, whatever its case.
pub open spec fn modifier_named(word: Seq<char>) -> Option<Modifier> {
    if folded(word) == "ctrl"@ {
        Some(Modifier::Ctrl)
    } else if folded(word) == "alt"@ {
        Some(Modifier::Alt)
    } else if folded(word) == "shift"@ {
        Some(Modifier::Shift)
    } else {
        None
    }
}

/// The number that a string of ASCII digits writes, without regard to its
/// size; nothing for an empty string or one that holds anything else.
pub open spec fn digits_value(s: Seq<char>) -> Option<nat>
    decreases s.len(),
{
    if s.len() == 0 {
        None
    } else if !('0' <= s.last() <= '9') {
        None
    } else if s.len() == 1 {
        Some((s.last() as u32 - '0' as u32) as nat)
    } else {
        match digits_value(s.drop_last()) {
            Some(high) => Some(high * 10 + (s.last() as u32 - '0' as u32) as nat),
            None => None,
        }
    }
}

/// The function key that a folded word names: `f` and, in decimal, a
/// number from 1 to 12.
pub open spec fn function_key(lower: Seq<char>) -> Option<KeyCode> {
    if lower.len() > 0 && lower[0] == 'f' {
        match digits_value(lower.drop_first()) {
            Some(n) => if 1 <= n <= 12 {
                Some(KeyCode::F(n as u8))
            } else {
                None
            },
            None => None,
        }
    } else {
        None
    }
}

/// The key that a folded word names.
pub open spec fn key_named(lower: Seq<char>) -> Option<KeyCode> {
    if lower == "left"@ {
        Some(KeyCode::Left)
    } else if lower == "right"@ {
        Some(KeyCode::Right)
    } else if lower == "up"@ {
        Some(KeyCode::Up)
    } else if lower == "down"@ {
        Some(KeyCode::Down)
    } else if lower == "enter"@ {
        Some(KeyCode::Enter)
    } else if lower == "esc"@ || lower == "escape"@ {
        Some(KeyCode::Esc)
    } else if lower == "tab"@ {
        Some(KeyCode::Tab)
    } else if lower == "backtab"@ {
        Some(KeyCode::BackTab)
    } else if lower == "backspace"@ {
        Some(KeyCode::Backspace)
    } else if lower == "delete"@ {
        Some(KeyCode::Delete)
    } else if lower == "home"@ {
        Some(KeyCode::Home)
    } else if lower == "end"@ {
        Some(KeyCode::End)
    } else if lower == "pageup"@ {
        Some(KeyCode::PageUp)
    } else if lower == "pagedown"@ {
        Some(KeyCode::PageDown)
    } else if lower == "insert"@ {
        Some(KeyCode::Insert)
    } else if lower == "space"@ {
        Some(KeyCode::Char(' '))
    } else {
        function_key(lower)
    }
}

/// The binding that the last part of a binding's text gives, with the
/// modifiers named before it. A single character is that character's key,
/// and an uppercase character brings Shift with it. Anything else must be
/// the name of a key, whatever its case.
pub open spec fn key_part(key: Seq<char>, modifiers: KeyModifiers) -> Option<KeyBinding> {
    if key.len() == 1 {
        Some(
            KeyBinding {
                code: KeyCode::Char(key[0]),
                modifiers: if is_upper(key[0]) {
                    modifiers.with_spec(Modifier::Shift)
                } else {
                    modifiers
                },
            },
        )
    } else {
        match key_named(folded(key)) {
            Some(code) => Some(normalized(code, modifiers)),
            None => None,
        }
    }
}

/// The binding that `rest` writes, with the modifiers named before it: up to
/// each `+` a modifier, after the last one the key. White space around a
/// part does not count.
pub open spec fn parse_from(rest: Seq<char>, modifiers: KeyModifiers) -> Option<KeyBinding>
    decreases rest.len(),
{
    match find_char(rest, '+') {
        None => key_part(trim(rest), modifiers),
        Some(i) => {
            if 0 <= i < rest.len() {
                match modifier_named(trim(rest.take(i))) {
                    Some(m) => parse_from(rest.skip(i + 1), modifiers.with_spec(m)),
                    None => None,
                }
            } else {
                None
            }
        },
    }
}

/// The binding that a text writes, if it writes one.
pub open spec fn parse_spec(input: Seq<char>) -> Option<KeyBinding> {
    parse_from(input, KeyModifiers::none_spec())
}

impl KeyBinding {
    /// Whether the key pressed is the one this binding names.
    pub open spec fn matches_spec(&self, ev: KeyEvent) -> bool {
        normalized(self.code, self.modifiers) == normalized(ev.code, ev.modifiers)
    }

    /// Whether the key pressed is the one this binding names: the same key
    /// with the same modifiers, `BackTab` counting as Shift+Tab on both
    /// sides.
    #[verifier::when_used_as_spec(matches_spec)]
    pub fn matches(&self, ev: KeyEvent) -> (r: bool)
        ensures
            r == self.matches_spec(ev),
    {
        let lhs = normalize(self.code, self.modifiers);
        let rhs = normalize(ev.code, ev.modifiers);
        lhs == rhs
    }
}

/// A key as bindings are compared.
pub fn normalize(code: KeyCode, modifiers: KeyModifiers) -> (r: KeyBinding)
    ensures
        r == normalized(code, modifiers),
{
    if code == KeyCode::BackTab {
        KeyBinding { code: KeyCode::Tab, modifiers: modifiers.with(Modifier::Shift) }
    } else {
        KeyBinding { code, modifiers }
    }
}

fn modifier_of(v: &Vec<char>, from: usize, to: usize) -> (r: Option<Modifier>)
    requires
        from <= to <= v.len(),
    ensures
        r == modifier_named(v@.subrange(from as int, to as int)),
{
    if folds_to(v, from, to, "ctrl") {
        Some(Modifier::Ctrl)
    } else if folds_to(v, from, to, "alt") {
        Some(Modifier::Alt)
    } else if folds_to(v, from, to, "shift") {
        Some(Modifier::Shift)
    } else {
        None
    }
}

fn function_key_of(v: &Vec<char>, from: usize, to: usize) -> (r: Option<KeyCode>)
    requires
        from <= to <= v.len(),
    ensures
        r == function_key(folded(v@.subrange(from as int, to as int))),
{
    let ghost lower = folded(v@.subrange(from as int, to as int));
    if from == to || crate::text::fold(v[from]) != 'f' {
        return None;
    }
    let first: usize = from + 1;
    let ghost digits = lower.drop_first();
    if first == to {
        return None;
    }
    let mut value: u8 = 0;
    let mut j: usize = first;
    while j < to
        invariant
            first <= j <= to <= v.len(),
            first == from + 1,
            lower == folded(v@.subrange(from as int, to as int)),
            digits == lower.drop_first(),
            lower.len() > 0 && lower[0] == 'f',
            value <= 12,
            j == first ==> value == 0,
            j > first ==> digits_value(digits.take(j - first)) == Some(value as nat),
        decreases to - j,
    {
        let c = crate::text::fold(v[j]);
        let ghost upto = digits.take(j + 1 - first);
        proof {
            assert(upto.last() == digits[j - first]);
            assert(digits[j - first] == lower[j - from]);
            assert(upto.drop_last() == digits.take(j - first));
        }
        if !('0' <= c && c <= '9') {
            proof {
                lemma_digits_need_digits(digits, j - first);
            }
            return None;
        }
        let d: u8 = (c as u32 - '0' as u32) as u8;
        value = value * 10 + d;
        proof {
            assert(digits_value(upto) == Some(value as nat));
        }
        if value > 12 {
            proof {
                lemma_digits_grow(digits, j + 1 - first);
            }
            return None;
        }
        j += 1;
    }
    proof {
        assert(digits.take(to - first) == digits);
    }
    if value == 0 {
        return None;
    }
    Some(KeyCode::F(value))
}

/// A string with something other than a digit in it writes no number.
pub proof fn lemma_digits_need_digits(s: Seq<char>, at: int)
    requires
        0 <= at < s.len(),
        !('0' <= s[at] <= '9'),
    ensures
        digits_value(s) is None,
    decreases s.len(),
{
    if at < s.len() - 1 {
        lemma_digits_need_digits(s.drop_last(), at);
    }
}

/// The number that a string of digits writes is no smaller than the number
/// that any start of it writes.
pub proof fn lemma_digits_grow(s: Seq<char>, k: int)
    requires
        1 <= k <= s.len(),
        digits_value(s.take(k)) is Some,
    ensures
        digits_value(s) matches Some(n) ==> n >= digits_value(s.take(k))->0,
    decreases s.len() - k,
{
    if k < s.len() {
        assert(s.drop_last().take(k) == s.take(k));
        lemma_digits_grow(s.drop_last(), k);
    } else {
        assert(s.take(k) == s);
    }
}

fn key_named_of(v: &Vec<char>, from: usize, to: usize) -> (r: Option<KeyCode>)
    requires
        from <= to <= v.len(),
    ensures
        r == key_named(folded(v@.subrange(from as int, to as int))),
{
    if folds_to(v, from, to, "left") {
        Some(KeyCode::Left)
    } else if folds_to(v, from, to, "right") {
        Some(KeyCode::Right)
    } else if folds_to(v, from, to, "up") {
        Some(KeyCode::Up)
    } else if folds_to(v, from, to, "down") {
        Some(KeyCode::Down)
    } else if folds_to(v, from, to, "enter") {
        Some(KeyCode::Enter)
    } else if folds_to(v, from, to, "esc") || folds_to(v, from, to, "escape") {
        Some(KeyCode::Esc)
    } else if folds_to(v, from, to, "tab") {
        Some(KeyCode::Tab)
    } else if folds_to(v, from, to, "backtab") {
        Some(KeyCode::BackTab)
    } else if folds_to(v, from, to, "backspace") {
        Some(KeyCode::Backspace)
    } else if folds_to(v, from, to, "delete") {
        Some(KeyCode::Delete)
    } else if folds_to(v, from, to, "home") {
        Some(KeyCode::Home)
    } else if folds_to(v, from, to, "end") {
        Some(KeyCode::End)
    } else if folds_to(v, from, to, "pageup") {
        Some(KeyCode::PageUp)
    } else if folds_to(v, from, to, "pagedown") {
        Some(KeyCode::PageDown)
    } else if folds_to(v, from, to, "insert") {
        Some(KeyCode::Insert)
    } else if folds_to(v, from, to, "space") {
        Some(KeyCode::Char(' '))
    } else {
        function_key_of(v, from, to)
    }
}

fn key_part_of(v: &Vec<char>, from: usize, to: usize, modifiers: KeyModifiers) -> (r: Option<
    KeyBinding,
>)
    requires
        from <= to <= v.len(),
    ensures
        r == key_part(v@.subrange(from as int, to as int), modifiers),
{
    if to - from == 1 {
        let ch = v[from];
        let held = if char_is_upper(ch) {
            modifiers.with(Modifier::Shift)
        } else {
            modifiers
        };
        return Some(KeyBinding { code: KeyCode::Char(ch), modifiers: held });
    }
    match key_named_of(v, from, to) {
        Some(code) => Some(normalize(code, modifiers)),
        None => None,
    }
}

/// Reads a binding as the user writes it: parts joined by `+`, the last one
/// the key and those before it modifiers (`ctrl`, `alt`, `shift`, in any
/// case). The key is a single character, the name of a key, or `f` and a
/// number from 1 to 12. Nothing comes back where a part names no modifier or
/// no key.
pub fn parse_keybinding(input: &str) -> (r: Option<KeyBinding>)
    ensures
        r == parse_spec(input@),
{
    let chars = chars_of(input);
    let mut modifiers = KeyModifiers::none();
    let mut start: usize = 0;
    proof {
        assert(chars@.skip(0) == chars@);
    }
    loop
        invariant
            start <= chars.len(),
            chars@ == input@,
            parse_spec(input@) == parse_from(chars@.skip(start as int), modifiers),
        decreases chars.len() - start,
    {
        let ghost rest = chars@.skip(start as int);
        match find_from(&chars, start, '+') {
            None => {
                let (a, b) = trim_range(&chars, start, chars.len());
                proof {
                    assert(chars@.subrange(start as int, chars.len() as int) == rest);
                }
                return key_part_of(&chars, a, b, modifiers);
            },
            Some(i) => {
                let (a, b) = trim_range(&chars, start, i);
                proof {
                    assert(chars@.subrange(start as int, i as int) == rest.take(i - start));
                    assert(rest.skip(i - start + 1) == chars@.skip(i + 1));
                }
                match modifier_of(&chars, a, b) {
                    None => {
                        return None;
                    },
                    Some(m) => {
                        modifiers = modifiers.with(m);
                    },
                }
                start = i + 1;
            },
        }
    }
}

} // verus!
