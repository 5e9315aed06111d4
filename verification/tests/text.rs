use pudding::cli::{Cli, Command, Launch, TemplateCommand};
use pudding::input::{type_key, Typed};
use pudding::keybind::{KeyCode, KeyEvent, KeyModifiers};
use pudding::text::{
    char_is_space, chars_of, find_from, fold, followed_by, folds_to, is_blank, push_decimal, same_text,
    string_of, trim_range, trimmed,
};

fn key(code: KeyCode) -> KeyEvent {
    KeyEvent { code, modifiers: KeyModifiers::none() }
}

#[test]
fn white_space_is_what_the_standard_library_takes_for_it() {
    for code in 0..=0x10FFFFu32 {
        if let Some(c) = char::from_u32(code) {
            assert_eq!(char_is_space(c), c.is_whitespace());
        }
    }
}

#[test]
fn folding_agrees_with_lowercase_wherever_ascii_comes_out() {
    for code in 0..=0x10FFFFu32 {
        if let Some(c) = char::from_u32(code) {
            let lower: String = c.to_lowercase().collect();
            let folded = fold(c);
            if lower.len() == 1 {
                assert_eq!(lower, folded.to_string());
            } else {
                assert!(!folded.is_ascii());
                assert!(!lower.is_ascii());
            }
        }
    }
}

#[test]
fn blank_is_nothing_but_white_space() {
    assert!(is_blank(""));
    assert!(is_blank(" \t\r\n\u{a0}\u{3000}"));
    assert!(!is_blank(" a "));
    assert!(!is_blank("\u{200b}"));
    for s in ["", " ", "  x ", "\u{2003}y\u{2003}", "\0"] {
        assert_eq!(is_blank(s), s.trim().is_empty());
    }
}

#[test]
fn trimming_agrees_with_the_standard_library() {
    for s in ["", " ", "a", "  a b  ", "\t\u{3000}x\u{a0}\n", "no-space", " \u{200b} "] {
        assert_eq!(trimmed(s), s.trim());
    }
    let v = chars_of("  ab  cd ");
    assert_eq!(trim_range(&v, 0, v.len()), (2, 8));
    assert_eq!(trim_range(&v, 3, 7), (3, 7));
    assert_eq!(trim_range(&v, 4, 6), (6, 6));
    assert_eq!(trim_range(&v, 9, 9), (9, 9));
}

#[test]
fn strings_are_taken_apart_and_put_together() {
    let v = chars_of("héllo");
    assert_eq!(v, vec!['h', 'é', 'l', 'l', 'o']);
    assert_eq!(string_of(&v, 1, 4), "éll");
    assert_eq!(string_of(&v, 2, 2), "");
    assert_eq!(followed_by("ab", "cd"), "abcd");
    assert!(same_text("añb", "añb"));
    assert!(!same_text("ab", "abc"));
    assert!(!same_text("ab", "aB"));
    assert_eq!(find_from(&v, 0, 'l'), Some(2));
    assert_eq!(find_from(&v, 3, 'l'), Some(3));
    assert_eq!(find_from(&v, 4, 'l'), None);
    assert_eq!(find_from(&v, 5, 'o'), None);
    assert!(folds_to(&chars_of("xCtRlx"), 1, 5, "ctrl"));
    assert!(!folds_to(&chars_of("xCtRlx"), 1, 6, "ctrl"));
    assert!(!folds_to(&chars_of("ctrl"), 0, 4, "CTRL"));
}

#[test]
fn numbers_are_written_in_decimal() {
    for n in [0u64, 7, 10, 99, 100, 1234567890, u64::MAX] {
        let mut s = String::from("n=");
        push_decimal(&mut s, n);
        assert_eq!(s, format!("n={}", n));
    }
}

#[test]
fn typing_into_a_prompt() {
    let mut buffer = String::from(" a");
    assert_eq!(type_key(&mut buffer, key(KeyCode::Char('b'))), Typed::Open);
    assert_eq!(buffer, " ab");
    let ctrl = KeyEvent {
        code: KeyCode::Char('c'),
        modifiers: KeyModifiers { shift: false, control: true, alt: false, other: false },
    };
    assert_eq!(type_key(&mut buffer, ctrl), Typed::Open);
    assert_eq!(type_key(&mut buffer, key(KeyCode::Tab)), Typed::Open);
    assert_eq!(buffer, " ab");
    assert_eq!(type_key(&mut buffer, key(KeyCode::Backspace)), Typed::Open);
    assert_eq!(buffer, " a");
    assert_eq!(type_key(&mut buffer, key(KeyCode::Enter)), Typed::Commit("a".to_string()));
    assert_eq!(type_key(&mut buffer, key(KeyCode::Esc)), Typed::Cancel);
    let mut empty = String::new();
    assert_eq!(type_key(&mut empty, key(KeyCode::Backspace)), Typed::Open);
    assert_eq!(empty, "");
    assert_eq!(type_key(&mut empty, key(KeyCode::Enter)), Typed::Commit(String::new()));
}

#[test]
fn the_command_line_says_what_to_do() {
    assert_eq!(Cli { command: None }.launch(), Launch::Run("default".to_string()));
    let run = Command::Run { template: "dev".to_string() };
    assert_eq!(Cli { command: Some(run) }.launch(), Launch::Run("dev".to_string()));
    let edit = Command::Template { command: TemplateCommand::Edit { name: "dev".to_string() } };
    assert_eq!(Cli { command: Some(edit) }.launch(), Launch::Edit("dev".to_string()));
    let apply = Command::Template { command: TemplateCommand::Apply { name: "x".to_string() } };
    assert_eq!(Cli { command: Some(apply) }.launch(), Launch::Run("x".to_string()));
}
