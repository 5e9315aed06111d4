use pudding::keybind::{
    normalize, parse_keybinding, KeyBinding, KeyCode, KeyEvent, KeyModifiers, Modifier,
};

fn mods(shift: bool, control: bool, alt: bool) -> KeyModifiers {
    KeyModifiers { shift, control, alt, other: false }
}

fn binding(code: KeyCode, modifiers: KeyModifiers) -> Option<KeyBinding> {
    Some(KeyBinding { code, modifiers })
}

#[test]
fn ctrl_and_a_capital_letter_hold_shift_too() {
    assert_eq!(parse_keybinding("Ctrl+S"), binding(KeyCode::Char('S'), mods(true, true, false)));
}

#[test]
fn a_single_character_is_its_own_key() {
    assert_eq!(parse_keybinding("v"), binding(KeyCode::Char('v'), mods(false, false, false)));
    assert_eq!(parse_keybinding("H"), binding(KeyCode::Char('H'), mods(true, false, false)));
    assert_eq!(parse_keybinding("5"), binding(KeyCode::Char('5'), mods(false, false, false)));
    assert_eq!(parse_keybinding("f"), binding(KeyCode::Char('f'), mods(false, false, false)));
    assert_eq!(parse_keybinding(" q "), binding(KeyCode::Char('q'), mods(false, false, false)));
    assert_eq!(
        parse_keybinding("shift+s"),
        binding(KeyCode::Char('s'), mods(true, false, false))
    );
}

#[test]
fn any_single_character_is_a_key_and_an_uppercase_one_holds_shift() {
    assert_eq!(parse_keybinding("é"), binding(KeyCode::Char('é'), mods(false, false, false)));
    assert_eq!(parse_keybinding("É"), binding(KeyCode::Char('É'), mods(true, false, false)));
    assert_eq!(parse_keybinding("ctrl+ö"), binding(KeyCode::Char('ö'), mods(false, true, false)));
    assert_eq!(parse_keybinding("alt+Ω"), binding(KeyCode::Char('Ω'), mods(true, false, true)));
    assert_eq!(parse_keybinding("あ"), binding(KeyCode::Char('あ'), mods(false, false, false)));
    assert_eq!(parse_keybinding("\u{212A}"), binding(KeyCode::Char('\u{212A}'), mods(true, false, false)));
    assert_eq!(parse_keybinding("["), binding(KeyCode::Char('['), mods(false, false, false)));
}

#[test]
fn function_keys_run_from_f1_to_f12() {
    for n in 1..=12u8 {
        let none = mods(false, false, false);
        assert_eq!(parse_keybinding(&format!("F{}", n)), binding(KeyCode::F(n), none));
        assert_eq!(parse_keybinding(&format!("f{}", n)), binding(KeyCode::F(n), none));
    }
    for n in [0u16, 13, 14, 20, 99, 100, 112, 255, 256] {
        assert_eq!(parse_keybinding(&format!("F{}", n)), None);
    }
}

#[test]
fn modifiers_are_read_in_any_case_and_any_order() {
    let all = mods(true, true, true);
    assert_eq!(parse_keybinding("ctrl+alt+shift+x"), binding(KeyCode::Char('x'), all));
    assert_eq!(parse_keybinding("SHIFT+Alt+cTRL+x"), binding(KeyCode::Char('x'), all));
    assert_eq!(parse_keybinding(" Ctrl + Alt + Shift + x "), binding(KeyCode::Char('x'), all));
    assert_eq!(
        parse_keybinding("ctrl+ctrl+x"),
        binding(KeyCode::Char('x'), mods(false, true, false))
    );
}

#[test]
fn keys_are_named_in_any_case() {
    let none = mods(false, false, false);
    for (text, code) in [
        ("left", KeyCode::Left),
        ("Right", KeyCode::Right),
        ("UP", KeyCode::Up),
        ("down", KeyCode::Down),
        ("Enter", KeyCode::Enter),
        ("esc", KeyCode::Esc),
        ("Escape", KeyCode::Esc),
        ("Tab", KeyCode::Tab),
        ("Backspace", KeyCode::Backspace),
        ("bac\u{212A}space", KeyCode::Backspace),
        ("Delete", KeyCode::Delete),
        ("Home", KeyCode::Home),
        ("End", KeyCode::End),
        ("PageUp", KeyCode::PageUp),
        ("PageDown", KeyCode::PageDown),
        ("Insert", KeyCode::Insert),
        ("space", KeyCode::Char(' ')),
        ("Space", KeyCode::Char(' ')),
        ("F1", KeyCode::F(1)),
        ("f12", KeyCode::F(12)),
        ("f012", KeyCode::F(12)),
        ("F9", KeyCode::F(9)),
    ] {
        assert_eq!(parse_keybinding(text), binding(code, none));
    }
}

#[test]
fn backtab_is_shift_and_tab() {
    assert_eq!(parse_keybinding("BackTab"), binding(KeyCode::Tab, mods(true, false, false)));
    assert_eq!(parse_keybinding("ctrl+backtab"), binding(KeyCode::Tab, mods(true, true, false)));
    assert_eq!(parse_keybinding("shift+tab"), binding(KeyCode::Tab, mods(true, false, false)));
    assert_eq!(
        normalize(KeyCode::BackTab, mods(false, false, true)),
        KeyBinding { code: KeyCode::Tab, modifiers: mods(true, false, true) }
    );
    assert_eq!(
        normalize(KeyCode::Tab, mods(false, false, true)),
        KeyBinding { code: KeyCode::Tab, modifiers: mods(false, false, true) }
    );
}

#[test]
fn what_names_no_key_gives_no_binding() {
    for text in [
        "", " ", "+", "ctrl+", "ctrl++", "+x", "hyper+x", "ctrl x", "foo", "ff", "f256",
        "f1000", "f-1", "f1x", "fx1", "éé", "ab", "tab2", "ctrl+alt", "f٣", "f0", "f00", "f13",
        "F13", "f255", "ff5", "ff7", "Ctrl+Bogus", "Hyper+x",
    ] {
        assert_eq!(parse_keybinding(text), None);
    }
}

#[test]
fn a_binding_matches_the_same_key_with_the_same_modifiers() {
    let save = parse_keybinding("Ctrl+S").unwrap();
    assert!(save.matches(KeyEvent { code: KeyCode::Char('S'), modifiers: mods(true, true, false) }));
    assert!(!save.matches(KeyEvent { code: KeyCode::Char('s'), modifiers: mods(true, true, false) }));
    assert!(!save.matches(KeyEvent { code: KeyCode::Char('S'), modifiers: mods(false, true, false) }));
    assert!(!save.matches(KeyEvent {
        code: KeyCode::Char('S'),
        modifiers: KeyModifiers { shift: true, control: true, alt: false, other: true },
    }));
}

#[test]
fn matches_takes_backtab_for_shift_tab_on_both_sides() {
    let back = KeyBinding { code: KeyCode::BackTab, modifiers: mods(false, false, false) };
    let shift_tab = parse_keybinding("shift+tab").unwrap();
    let pressed_back = KeyEvent { code: KeyCode::BackTab, modifiers: mods(false, false, false) };
    let pressed_back_shift = KeyEvent { code: KeyCode::BackTab, modifiers: mods(true, false, false) };
    let pressed_tab = KeyEvent { code: KeyCode::Tab, modifiers: mods(false, false, false) };
    let pressed_shift_tab = KeyEvent { code: KeyCode::Tab, modifiers: mods(true, false, false) };
    for b in [back, shift_tab] {
        assert!(b.matches(pressed_back));
        assert!(b.matches(pressed_back_shift));
        assert!(b.matches(pressed_shift_tab));
        assert!(!b.matches(pressed_tab));
    }
}

#[test]
fn modifiers_are_built_one_by_one() {
    assert_eq!(KeyModifiers::none(), mods(false, false, false));
    assert_eq!(KeyModifiers::none().with(Modifier::Ctrl), mods(false, true, false));
    assert_eq!(KeyModifiers::none().with(Modifier::Alt), mods(false, false, true));
    assert_eq!(
        KeyModifiers::none().with(Modifier::Shift).with(Modifier::Shift),
        mods(true, false, false)
    );
}
