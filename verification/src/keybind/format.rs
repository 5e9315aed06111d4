//! Writing a binding the way it is read, and the proof that reading what
//! was written gives the binding back.

use super::{
    digits_value, function_key, key_named, key_part, modifier_named, normalized, parse_from,
    parse_spec, KeyBinding, KeyCode, KeyModifiers, Modifier,
};
use crate::text::{
    decimal, digit, fold_char, folded, is_space, is_upper, lemma_find_char_at,
    lemma_find_char_none, push_decimal, trim,
};
use vstd::prelude::*;

verus! {

/// The name under which a key is written. The space bar is written `Space`,
/// any other character as itself, and a function key as `F` and its number.
pub open spec fn key_name(code: KeyCode) -> Seq<char> {
    match code {
        KeyCode::Char(c) => if c == ' ' {
            "Space"@
        } else {
            seq![c]
        },
        KeyCode::Enter => "Enter"@,
        KeyCode::Esc => "Esc"@,
        KeyCode::Tab => "Tab"@,
        KeyCode::BackTab => "BackTab"@,
        KeyCode::Backspace => "Backspace"@,
        KeyCode::Delete => "Delete"@,
        KeyCode::Home => "Home"@,
        KeyCode::End => "End"@,
        KeyCode::PageUp => "PageUp"@,
        KeyCode::PageDown => "PageDown"@,
        KeyCode::Insert => "Insert"@,
        KeyCode::Left => "Left"@,
        KeyCode::Right => "Right"@,
        KeyCode::Up => "Up"@,
        KeyCode::Down => "Down"@,
        KeyCode::F(n) => seq!['F'] + decimal(n as nat),
    }
}

/// A modifier's word and the `+` behind it, where the modifier is held.
pub open spec fn held(flag: bool, word: Seq<char>) -> Seq<char> {
    if flag {
        word + seq!['+']
    } else {
        Seq::empty()
    }
}

/// A binding as it is written: `Ctrl+`, `Alt+` and `Shift+` for the
/// modifiers held, in this order, and the name of the key.
pub open spec fn format_spec(binding: KeyBinding) -> Seq<char> {
    held(binding.modifiers.control, "Ctrl"@) + (held(binding.modifiers.alt, "Alt"@) + (held(
        binding.modifiers.shift,
        "Shift"@,
    ) + key_name(binding.code)))
}

/// A key that can be written: any key but a character that is white space
/// other than the space itself or that is `+`, which parts the words of a
/// binding, and but a function key beyond F1 to F12.
pub open spec fn writable_key(code: KeyCode) -> bool {
    match code {
        KeyCode::Char(c) => c != '+' && (c == ' ' || !is_space(c)),
        KeyCode::F(n) => 1 <= n <= 12,
        _ => true,
    }
}

/// The binding that reading takes a binding for: an uppercase character
/// holds Shift, and `BackTab` is Shift and `Tab`.
pub open spec fn canonical(binding: KeyBinding) -> KeyBinding {
    match binding.code {
        KeyCode::Char(c) => if is_upper(c) {
            KeyBinding { code: binding.code, modifiers: binding.modifiers.with_spec(Modifier::Shift) }
        } else {
            binding
        },
        _ => normalized(binding.code, binding.modifiers),
    }
}

/// A binding that reading gives back as it is: its key can be written, it
/// names no modifier but Ctrl, Alt and Shift, an uppercase character comes
/// with Shift, and it is not `BackTab`.
pub open spec fn representable(binding: KeyBinding) -> bool {
    &&& writable_key(binding.code)
    &&& !binding.modifiers.other
    &&& binding.code != KeyCode::BackTab
    &&& (binding.code matches KeyCode::Char(c) ==> (is_upper(c) ==> binding.modifiers.shift))
}

proof fn lemma_trim_identity(s: Seq<char>)
    requires
        s.len() > 0,
        !is_space(s[0]),
        !is_space(s.last()),
    ensures
        trim(s) == s,
{
}

proof fn lemma_parse_key_text(text: Seq<char>, modifiers: KeyModifiers)
    requires
        forall|j: int| 0 <= j < text.len() ==> text[j] != '+',
    ensures
        parse_from(text, modifiers) == key_part(trim(text), modifiers),
{
    lemma_find_char_none(text, '+');
}

proof fn lemma_parse_held(
    flag: bool,
    word: Seq<char>,
    m: Modifier,
    rest: Seq<char>,
    modifiers: KeyModifiers,
)
    requires
        forall|j: int| 0 <= j < word.len() ==> word[j] != '+',
        trim(word) == word,
        modifier_named(word) == Some(m),
    ensures
        parse_from(held(flag, word) + rest, modifiers) == parse_from(
            rest,
            if flag {
                modifiers.with_spec(m)
            } else {
                modifiers
            },
        ),
{
    if flag {
        let text = held(flag, word) + rest;
        let at = word.len() as int;
        assert(text[at] == '+');
        assert forall|j: int| 0 <= j < at implies text[j] != '+' by {
            assert(text[j] == word[j]);
        }
        lemma_find_char_at(text, '+', at);
        assert(text.take(at) =~= word);
        assert(text.skip(at + 1) =~= rest);
    } else {
        assert(held(flag, word) + rest =~= rest);
    }
}

proof fn lemma_modifier_words()
    ensures
        forall|j: int| 0 <= j < "Ctrl"@.len() ==> "Ctrl"@[j] != '+',
        forall|j: int| 0 <= j < "Alt"@.len() ==> "Alt"@[j] != '+',
        forall|j: int| 0 <= j < "Shift"@.len() ==> "Shift"@[j] != '+',
        trim("Ctrl"@) == "Ctrl"@,
        trim("Alt"@) == "Alt"@,
        trim("Shift"@) == "Shift"@,
        modifier_named("Ctrl"@) == Some(Modifier::Ctrl),
        modifier_named("Alt"@) == Some(Modifier::Alt),
        modifier_named("Shift"@) == Some(Modifier::Shift),
{
    reveal_strlit("Ctrl");
    reveal_strlit("Alt");
    reveal_strlit("Shift");
    reveal_strlit("ctrl");
    reveal_strlit("alt");
    reveal_strlit("shift");
    lemma_trim_identity("Ctrl"@);
    lemma_trim_identity("Alt"@);
    lemma_trim_identity("Shift"@);
    assert(folded("Ctrl"@) =~= "ctrl"@);
    assert(folded("Alt"@) =~= "alt"@);
    assert(folded("Shift"@) =~= "shift"@);
    assert(folded("Alt"@).len() != "ctrl"@.len());
    assert(folded("Shift"@).len() != "ctrl"@.len());
    assert(folded("Shift"@).len() != "alt"@.len());
}

/// The names of the keys in small letters: their lengths and their first
/// two letters, which tell them apart.
proof fn lemma_small_names()
    ensures
        "left"@.len() == 4 && "left"@[0] == 'l',
        "right"@.len() == 5 && "right"@[0] == 'r',
        "up"@.len() == 2 && "up"@[0] == 'u',
        "down"@.len() == 4 && "down"@[0] == 'd',
        "enter"@.len() == 5 && "enter"@[0] == 'e',
        "esc"@.len() == 3 && "esc"@[0] == 'e' && "esc"@[1] == 's',
        "escape"@.len() == 6 && "escape"@[0] == 'e',
        "tab"@.len() == 3 && "tab"@[0] == 't',
        "backtab"@.len() == 7 && "backtab"@[0] == 'b',
        "backspace"@.len() == 9 && "backspace"@[0] == 'b',
        "delete"@.len() == 6 && "delete"@[0] == 'd',
        "home"@.len() == 4 && "home"@[0] == 'h',
        "end"@.len() == 3 && "end"@[0] == 'e' && "end"@[1] == 'n',
        "pageup"@.len() == 6 && "pageup"@[0] == 'p',
        "pagedown"@.len() == 8 && "pagedown"@[0] == 'p',
        "insert"@.len() == 6 && "insert"@[0] == 'i',
        "space"@.len() == 5 && "space"@[0] == 's',
{
    reveal_strlit("left");
    reveal_strlit("right");
    reveal_strlit("up");
    reveal_strlit("down");
    reveal_strlit("enter");
    reveal_strlit("esc");
    reveal_strlit("escape");
    reveal_strlit("tab");
    reveal_strlit("backtab");
    reveal_strlit("backspace");
    reveal_strlit("delete");
    reveal_strlit("home");
    reveal_strlit("end");
    reveal_strlit("pageup");
    reveal_strlit("pagedown");
    reveal_strlit("insert");
    reveal_strlit("space");
}

/// A name that folds to one of the small names is read as that key.
proof fn lemma_named(name: Seq<char>, small: Seq<char>, code: KeyCode)
    requires
        name.len() >= 2,
        folded(name) == small,
        key_named(small) == Some(code),
        !is_space(name[0]),
        !is_space(name.last()),
        forall|j: int| 0 <= j < name.len() ==> name[j] != '+',
    ensures
        forall|modifiers: KeyModifiers| #[trigger]
            parse_from(name, modifiers) == Some(normalized(code, modifiers)),
{
    assert forall|modifiers: KeyModifiers| #[trigger]
        parse_from(name, modifiers) == Some(normalized(code, modifiers)) by {
        lemma_parse_key_text(name, modifiers);
        lemma_trim_identity(name);
    }
}

proof fn lemma_read_names_a()
    ensures
        forall|m: KeyModifiers| #[trigger] parse_from("Left"@, m) == Some(normalized(KeyCode::Left, m)),
        forall|m: KeyModifiers| #[trigger]
            parse_from("Right"@, m) == Some(normalized(KeyCode::Right, m)),
        forall|m: KeyModifiers| #[trigger] parse_from("Up"@, m) == Some(normalized(KeyCode::Up, m)),
        forall|m: KeyModifiers| #[trigger] parse_from("Down"@, m) == Some(normalized(KeyCode::Down, m)),
        forall|m: KeyModifiers| #[trigger]
            parse_from("Enter"@, m) == Some(normalized(KeyCode::Enter, m)),
        forall|m: KeyModifiers| #[trigger] parse_from("Esc"@, m) == Some(normalized(KeyCode::Esc, m)),
        forall|m: KeyModifiers| #[trigger] parse_from("Tab"@, m) == Some(normalized(KeyCode::Tab, m)),
        forall|m: KeyModifiers| #[trigger]
            parse_from("BackTab"@, m) == Some(normalized(KeyCode::BackTab, m)),
{
    lemma_small_names();
    reveal_strlit("Left");
    reveal_strlit("Right");
    reveal_strlit("Up");
    reveal_strlit("Down");
    reveal_strlit("Enter");
    reveal_strlit("Esc");
    reveal_strlit("Tab");
    reveal_strlit("BackTab");
    reveal_strlit("left");
    reveal_strlit("right");
    reveal_strlit("up");
    reveal_strlit("down");
    reveal_strlit("enter");
    reveal_strlit("esc");
    reveal_strlit("tab");
    reveal_strlit("backtab");
    assert(folded("Left"@) =~= "left"@);
    assert(folded("Right"@) =~= "right"@);
    assert(folded("Up"@) =~= "up"@);
    assert(folded("Down"@) =~= "down"@);
    assert(folded("Enter"@) =~= "enter"@);
    assert(folded("Esc"@) =~= "esc"@);
    assert(folded("Tab"@) =~= "tab"@);
    assert(folded("BackTab"@) =~= "backtab"@);
    lemma_named("Left"@, "left"@, KeyCode::Left);
    lemma_named("Right"@, "right"@, KeyCode::Right);
    lemma_named("Up"@, "up"@, KeyCode::Up);
    lemma_named("Down"@, "down"@, KeyCode::Down);
    lemma_named("Enter"@, "enter"@, KeyCode::Enter);
    lemma_named("Esc"@, "esc"@, KeyCode::Esc);
    lemma_named("Tab"@, "tab"@, KeyCode::Tab);
    lemma_named("BackTab"@, "backtab"@, KeyCode::BackTab);
}

proof fn lemma_read_names_b()
    ensures
        forall|m: KeyModifiers| #[trigger]
            parse_from("Backspace"@, m) == Some(normalized(KeyCode::Backspace, m)),
        forall|m: KeyModifiers| #[trigger]
            parse_from("Delete"@, m) == Some(normalized(KeyCode::Delete, m)),
        forall|m: KeyModifiers| #[trigger] parse_from("Home"@, m) == Some(normalized(KeyCode::Home, m)),
        forall|m: KeyModifiers| #[trigger] parse_from("End"@, m) == Some(normalized(KeyCode::End, m)),
        forall|m: KeyModifiers| #[trigger]
            parse_from("PageUp"@, m) == Some(normalized(KeyCode::PageUp, m)),
        forall|m: KeyModifiers| #[trigger]
            parse_from("PageDown"@, m) == Some(normalized(KeyCode::PageDown, m)),
        forall|m: KeyModifiers| #[trigger]
            parse_from("Insert"@, m) == Some(normalized(KeyCode::Insert, m)),
        forall|m: KeyModifiers| #[trigger]
            parse_from("Space"@, m) == Some(normalized(KeyCode::Char(' '), m)),
{
    lemma_small_names();
    reveal_strlit("Backspace");
    reveal_strlit("Delete");
    reveal_strlit("Home");
    reveal_strlit("End");
    reveal_strlit("PageUp");
    reveal_strlit("PageDown");
    reveal_strlit("Insert");
    reveal_strlit("Space");
    reveal_strlit("backspace");
    reveal_strlit("delete");
    reveal_strlit("home");
    reveal_strlit("end");
    reveal_strlit("pageup");
    reveal_strlit("pagedown");
    reveal_strlit("insert");
    reveal_strlit("space");
    assert(folded("Backspace"@) =~= "backspace"@);
    assert(folded("Delete"@) =~= "delete"@);
    assert(folded("Home"@) =~= "home"@);
    assert(folded("End"@) =~= "end"@);
    assert(folded("PageUp"@) =~= "pageup"@);
    assert(folded("PageDown"@) =~= "pagedown"@);
    assert(folded("Insert"@) =~= "insert"@);
    assert(folded("Space"@) =~= "space"@);
    lemma_named("Backspace"@, "backspace"@, KeyCode::Backspace);
    lemma_named("Delete"@, "delete"@, KeyCode::Delete);
    lemma_named("Home"@, "home"@, KeyCode::Home);
    lemma_named("End"@, "end"@, KeyCode::End);
    lemma_named("PageUp"@, "pageup"@, KeyCode::PageUp);
    lemma_named("PageDown"@, "pagedown"@, KeyCode::PageDown);
    lemma_named("Insert"@, "insert"@, KeyCode::Insert);
    lemma_named("Space"@, "space"@, KeyCode::Char(' '));
}

/// A decimal numeral holds digits only.
pub proof fn lemma_decimal_digits(n: nat)
    ensures
        decimal(n).len() >= 1,
        forall|j: int| 0 <= j < decimal(n).len() ==> '0' <= #[trigger] decimal(n)[j] <= '9',
    decreases n,
{
    if n >= 10 {
        lemma_decimal_digits(n / 10);
    }
}

/// A decimal numeral writes its number.
pub proof fn lemma_decimal_value(n: nat)
    ensures
        digits_value(decimal(n)) == Some(n),
    decreases n,
{
    lemma_decimal_digits(n);
    if n >= 10 {
        lemma_decimal_value(n / 10);
        lemma_decimal_digits(n / 10);
        let s = decimal(n);
        assert(s.drop_last() == decimal(n / 10));
        assert(s.last() == digit((n % 10) as int));
    }
}

proof fn lemma_read_function_key(n: u8, modifiers: KeyModifiers)
    requires
        1 <= n <= 12,
    ensures
        parse_from(key_name(KeyCode::F(n)), modifiers) == Some(
            KeyBinding { code: KeyCode::F(n), modifiers },
        ),
{
    let digits = decimal(n as nat);
    let name = key_name(KeyCode::F(n));
    lemma_decimal_digits(n as nat);
    lemma_decimal_value(n as nat);
    lemma_small_names();
    assert(name[0] == 'F');
    assert(name.last() == digits.last());
    assert forall|j: int| 0 <= j < name.len() implies name[j] != '+' by {
        if j > 0 {
            assert(name[j] == digits[j - 1]);
        }
    }
    lemma_parse_key_text(name, modifiers);
    lemma_trim_identity(name);
    let lower = folded(name);
    assert(lower[0] == 'f');
    assert(lower.len() >= 2);
    assert(lower.drop_first() =~= digits) by {
        assert forall|j: int| 0 <= j < digits.len() implies lower.drop_first()[j] == digits[j] by {
            assert(lower.drop_first()[j] == fold_char(name[j + 1]));
            assert(name[j + 1] == digits[j]);
        }
    }
    assert(function_key(lower) == Some(KeyCode::F(n)));
    assert(key_named(lower) == Some(KeyCode::F(n)));
}

proof fn lemma_read_char(c: char, modifiers: KeyModifiers)
    requires
        c != '+',
        !is_space(c),
    ensures
        parse_from(seq![c], modifiers) == Some(
            canonical(KeyBinding { code: KeyCode::Char(c), modifiers }),
        ),
{
    let text = seq![c];
    assert(text[0] == c);
    lemma_parse_key_text(text, modifiers);
    lemma_trim_identity(text);
}

/// The name of a key that can be written is read as that key.
pub proof fn lemma_read_key(code: KeyCode, modifiers: KeyModifiers)
    requires
        writable_key(code),
    ensures
        parse_from(key_name(code), modifiers) == Some(canonical(KeyBinding { code, modifiers })),
{
    lemma_read_names_a();
    lemma_read_names_b();
    match code {
        KeyCode::Char(c) => {
            if c != ' ' {
                lemma_read_char(c, modifiers);
            }
        },
        KeyCode::F(n) => {
            lemma_read_function_key(n, modifiers);
        },
        _ => {},
    }
}

/// Reading what was written: a binding whose key can be written and that
/// names no modifier but Ctrl, Alt and Shift is read as itself, but that an
/// uppercase character then holds Shift and `BackTab` is Shift and `Tab`.
pub proof fn lemma_parse_format(binding: KeyBinding)
    requires
        writable_key(binding.code),
        !binding.modifiers.other,
    ensures
        parse_spec(format_spec(binding)) == Some(canonical(binding)),
{
    lemma_modifier_words();
    let none = KeyModifiers::none_spec();
    let key = key_name(binding.code);
    let after_shift = held(binding.modifiers.shift, "Shift"@) + key;
    let after_alt = held(binding.modifiers.alt, "Alt"@) + after_shift;
    let m1 = if binding.modifiers.control {
        none.with_spec(Modifier::Ctrl)
    } else {
        none
    };
    let m2 = if binding.modifiers.alt {
        m1.with_spec(Modifier::Alt)
    } else {
        m1
    };
    let m3 = if binding.modifiers.shift {
        m2.with_spec(Modifier::Shift)
    } else {
        m2
    };
    lemma_parse_held(binding.modifiers.control, "Ctrl"@, Modifier::Ctrl, after_alt, none);
    lemma_parse_held(binding.modifiers.alt, "Alt"@, Modifier::Alt, after_shift, m1);
    lemma_parse_held(binding.modifiers.shift, "Shift"@, Modifier::Shift, key, m2);
    assert(m3 == binding.modifiers);
    lemma_read_key(binding.code, m3);
}

/// Reading what was written gives the binding back, for every binding that
/// can be read at all.
pub proof fn lemma_parse_format_representable(binding: KeyBinding)
    requires
        representable(binding),
    ensures
        parse_spec(format_spec(binding)) == Some(binding),
{
    lemma_parse_format(binding);
}

fn push_held(text: &mut String, flag: bool, word: &str)
    ensures
        final(text)@ == old(text)@ + held(flag, word@),
{
    if flag {
        text.append(word);
        text.push('+');
        assert(text@ =~= old(text)@ + held(flag, word@));
    } else {
        assert(text@ =~= old(text)@ + held(flag, word@));
    }
}

fn name_of(code: KeyCode) -> (name: String)
    ensures
        name@ == key_name(code),
{
    match code {
        KeyCode::Char(c) => {
            if c == ' ' {
                "Space".to_owned()
            } else {
                let mut name = String::new();
                name.push(c);
                assert(name@ =~= seq![c]);
                name
            }
        },
        KeyCode::Enter => "Enter".to_owned(),
        KeyCode::Esc => "Esc".to_owned(),
        KeyCode::Tab => "Tab".to_owned(),
        KeyCode::BackTab => "BackTab".to_owned(),
        KeyCode::Backspace => "Backspace".to_owned(),
        KeyCode::Delete => "Delete".to_owned(),
        KeyCode::Home => "Home".to_owned(),
        KeyCode::End => "End".to_owned(),
        KeyCode::PageUp => "PageUp".to_owned(),
        KeyCode::PageDown => "PageDown".to_owned(),
        KeyCode::Insert => "Insert".to_owned(),
        KeyCode::Left => "Left".to_owned(),
        KeyCode::Right => "Right".to_owned(),
        KeyCode::Up => "Up".to_owned(),
        KeyCode::Down => "Down".to_owned(),
        KeyCode::F(n) => {
            let mut name = String::new();
            name.push('F');
            assert(name@ =~= seq!['F']);
            push_decimal(&mut name, n as u64);
            name
        },
    }
}

/// Writes a binding the way [`parse_keybinding`](super::parse_keybinding)
/// reads it: `Ctrl+`, `Alt+` and `Shift+` for the modifiers held, and the
/// name of the key.
pub fn format_keybinding(binding: &KeyBinding) -> (text: String)
    ensures
        text@ == format_spec(*binding),
{
    let mut text = String::new();
    push_held(&mut text, binding.modifiers.control, "Ctrl");
    push_held(&mut text, binding.modifiers.alt, "Alt");
    push_held(&mut text, binding.modifiers.shift, "Shift");
    let name = name_of(binding.code);
    text.append(name.as_str());
    assert(text@ =~= format_spec(*binding));
    text
}

} // verus!
