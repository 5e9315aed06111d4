use pudding::action::Action;
use pudding::config::Config;
use pudding::keybind::{KeyCode, KeyEvent, KeyModifiers};
use pudding::layout::Rect;
use pudding::model::{default_template, Direction, Node, Template};
use pudding::runtime::{
    centered_rect, ingest, key_to_bytes, main_area, pane_size, resize_plan, spawn_plan,
    status_area, take_lines, Effect,
    InputPrompt, OutputBuffer, PaneSize, PromptMode, RuntimeApp, SpawnRequest, OUTPUT_LIMIT,
    PENDING_CHAR_LIMIT, RESIZE_STEP_RATIO, SPLIT_RATIO,
};

fn key(code: KeyCode) -> KeyEvent {
    KeyEvent { code, modifiers: KeyModifiers::none() }
}

fn held(code: KeyCode, shift: bool, control: bool) -> KeyEvent {
    KeyEvent { code, modifiers: KeyModifiers { shift, control, alt: false, other: false } }
}

fn bite(id: u64, name: &str, command: &str) -> Node {
    Node::Bite { id, name: name.to_string(), command: command.to_string() }
}

fn spoon(id: u64, orientation: Direction, ratio: i64, first: Node, second: Node) -> Node {
    Node::Spoon { id, orientation, ratio, first: Box::new(first), second: Box::new(second) }
}

fn sample_template() -> Template {
    Template {
        name: "dev".to_string(),
        root: spoon(
            10,
            Direction::Vertical,
            500_000,
            bite(1, "left", "bash"),
            spoon(20, Direction::Horizontal, 500_000, bite(2, "top", "htop"), bite(3, "low", "sh")),
        ),
    }
}

fn main_rect() -> Rect {
    Rect { x: 0, y: 0, width: 100, height: 40 }
}

fn app() -> RuntimeApp {
    RuntimeApp::new(default_template(), Config::default())
}

fn lines(items: &[&str]) -> Vec<String> {
    items.iter().map(|s| s.to_string()).collect()
}

#[test]
fn converts_ascii_char() {
    assert_eq!(key_to_bytes(key(KeyCode::Char('a'))), Some(vec![b'a']));
}

#[test]
fn rejects_non_ascii_char() {
    assert_eq!(key_to_bytes(key(KeyCode::Char('あ'))), None);
}

#[test]
fn converts_arrow_key() {
    assert_eq!(key_to_bytes(key(KeyCode::Left)), Some(b"\x1b[D".to_vec()));
}

#[test]
fn reserves_two_rows_for_help_bar() {
    let area = Rect { x: 0, y: 0, width: 80, height: 24 };
    let main = main_area(area);
    assert_eq!(main, Rect { x: 0, y: 0, width: 80, height: 22 });
}

#[test]
fn main_area_keeps_the_columns_of_the_screen() {
    for area in [
        Rect { x: 3, y: 5, width: 40, height: 10 },
        Rect { x: 0, y: 0, width: 7, height: 2 },
        Rect { x: 9, y: 9, width: 1, height: 0 },
    ] {
        let main = main_area(area);
        assert_eq!((main.x, main.width), (area.x, area.width));
    }
    assert_eq!(
        main_area(Rect { x: 3, y: 5, width: 40, height: 10 }),
        Rect { x: 3, y: 5, width: 40, height: 8 }
    );
}

#[test]
fn each_key_that_is_handed_on_has_its_bytes() {
    assert_eq!(key_to_bytes(key(KeyCode::Enter)), Some(vec![0x0D]));
    assert_eq!(key_to_bytes(key(KeyCode::Backspace)), Some(vec![0x7F]));
    assert_eq!(key_to_bytes(key(KeyCode::Tab)), Some(vec![0x09]));
    assert_eq!(key_to_bytes(key(KeyCode::Esc)), Some(vec![0x1B]));
    assert_eq!(key_to_bytes(key(KeyCode::Right)), Some(b"\x1b[C".to_vec()));
    assert_eq!(key_to_bytes(key(KeyCode::Up)), Some(b"\x1b[A".to_vec()));
    assert_eq!(key_to_bytes(key(KeyCode::Down)), Some(b"\x1b[B".to_vec()));
    assert_eq!(key_to_bytes(key(KeyCode::Char('\u{7f}'))), Some(vec![0x7F]));
    assert_eq!(key_to_bytes(held(KeyCode::Char('c'), false, true)), Some(vec![b'c']));
    for code in [
        KeyCode::BackTab,
        KeyCode::Delete,
        KeyCode::Home,
        KeyCode::End,
        KeyCode::PageUp,
        KeyCode::PageDown,
        KeyCode::Insert,
        KeyCode::F(1),
        KeyCode::Char('\u{80}'),
    ] {
        assert_eq!(key_to_bytes(key(code)), None);
    }
}

#[test]
fn take_lines_cuts_at_line_feeds_and_keeps_the_rest() {
    let mut pending = String::from("ab");
    assert_eq!(take_lines(&mut pending, "c\r\nde\n\nf\rg"), lines(&["abc", "de", ""]));
    assert_eq!(pending, "fg");
    assert_eq!(take_lines(&mut pending, ""), lines(&[]));
    assert_eq!(pending, "fg");
    assert_eq!(take_lines(&mut pending, "\n"), lines(&["fg"]));
    assert_eq!(pending, "");
}

#[test]
fn a_pending_line_keeps_its_last_characters_only() {
    let mut pending = String::new();
    let long: String = "x".repeat(PENDING_CHAR_LIMIT) + "yz";
    assert_eq!(take_lines(&mut pending, &long), lines(&[]));
    assert_eq!(pending.chars().count(), 8192);
    assert!(pending.ends_with("xyz"));
    assert!(pending.starts_with("xx"));
    let mut pending = String::from("é");
    let done = take_lines(&mut pending, &("a".repeat(9000) + "\n" + &"é".repeat(8193)));
    assert_eq!(done.len(), 1);
    assert_eq!(done[0].chars().count(), 9001);
    assert_eq!(pending, "é".repeat(8192));
}

#[test]
fn ingest_strips_escape_sequences_and_carriage_returns() {
    let mut pending = String::new();
    let chunk = b"\x1b[32mfoo\x1b[m bar\r\nnext";
    assert_eq!(ingest(&mut pending, chunk), lines(&["foo bar"]));
    assert_eq!(pending, "next");
    assert_eq!(ingest(&mut pending, b" \x1b[1mline\x1b[0m\n"), lines(&["next line"]));
    assert_eq!(pending, "");
    assert_eq!(ingest(&mut pending, b"\xff\n"), lines(&["\u{fffd}"]));
}

#[test]
fn the_output_buffer_keeps_the_last_lines() {
    let mut buffer = OutputBuffer::new();
    assert_eq!(buffer.len(), 0);
    assert_eq!(buffer.lines_for_height(5), lines(&[]));
    for i in 0..(OUTPUT_LIMIT + 5) {
        buffer.push_line(format!("line {}", i));
    }
    assert_eq!(buffer.len(), 2000);
    assert_eq!(buffer.lines_for_height(2), lines(&["line 2003", "line 2004"]));
    assert_eq!(buffer.lines_for_height(0), lines(&[]));
    let all = buffer.lines_for_height(usize::MAX);
    assert_eq!(all.len(), 2000);
    assert_eq!(all[0], "line 5");
    buffer.push_lines(&lines(&["a", "b"]));
    assert_eq!(buffer.len(), 2000);
    assert_eq!(buffer.lines_for_height(3), lines(&["line 2004", "a", "b"]));
    buffer.push_lines(&lines(&[]));
    assert_eq!(buffer.lines_for_height(1), lines(&["b"]));
}

#[test]
fn a_pane_is_two_rows_and_two_columns_smaller_than_its_rectangle() {
    assert_eq!(pane_size(Rect { x: 0, y: 0, width: 80, height: 24 }), (22, 78));
    assert_eq!(pane_size(Rect { x: 0, y: 0, width: 2, height: 1 }), (0, 0));
    assert_eq!(pane_size(Rect { x: 0, y: 0, width: 0, height: 3 }), (1, 0));
}

#[test]
fn the_plans_list_each_bite_with_its_size() {
    let template = sample_template();
    assert_eq!(
        resize_plan(&template.root, main_rect()),
        vec![
            PaneSize { id: 1, rows: 38, cols: 48 },
            PaneSize { id: 2, rows: 18, cols: 48 },
            PaneSize { id: 3, rows: 18, cols: 48 },
        ]
    );
    assert_eq!(
        spawn_plan(&template.root, main_rect()),
        vec![
            SpawnRequest { id: 1, command: "bash".to_string(), rows: 38, cols: 48 },
            SpawnRequest { id: 2, command: "htop".to_string(), rows: 18, cols: 48 },
            SpawnRequest { id: 3, command: "sh".to_string(), rows: 18, cols: 48 },
        ]
    );
}

#[test]
fn a_new_app_focuses_a_bite() {
    let single = app();
    assert_eq!(single.active_id, 1);
    assert!(single.prompt.is_none());
    assert_eq!(single.status, "");
    let nested = RuntimeApp::new(sample_template(), Config::default());
    assert_eq!(nested.active_id, 1);
    assert_eq!(nested.spawn_all(main_rect()).len(), 3);
    assert_eq!(nested.resize_all(main_rect()).len(), 3);
}

#[test]
fn focus_next_cycles_through_split_default_tree() {
    let mut app = app();
    let effect = app.handle_key(key(KeyCode::Char('v')), main_rect());
    assert_eq!(
        effect,
        Effect::Spawn(SpawnRequest { id: 2, command: "bash".to_string(), rows: 38, cols: 48 })
    );
    assert_eq!(
        app.template.root,
        spoon(3, Direction::Vertical, SPLIT_RATIO, bite(1, "main", "bash"), bite(2, "leaf-2", "bash"))
    );
    assert_eq!(app.active_id, 1);
    assert_eq!(app.handle_key(key(KeyCode::Tab), main_rect()), Effect::Nothing);
    assert_eq!(app.active_id, 2);
    assert_eq!(app.handle_key(key(KeyCode::Tab), main_rect()), Effect::Nothing);
    assert_eq!(app.active_id, 1);
    app.active_id = 77;
    app.focus_next();
    assert_eq!(app.active_id, 1);
}

#[test]
fn a_split_that_cannot_start_its_child_is_undone() {
    let mut app = app();
    let effect = app.handle_action(Action::SplitHorizontal, main_rect());
    assert_eq!(
        effect,
        Effect::Spawn(SpawnRequest { id: 2, command: "bash".to_string(), rows: 18, cols: 98 })
    );
    app.spawn_failed(2, "no pty");
    assert_eq!(app.template.root, bite(1, "main", "bash"));
    assert_eq!(app.status, "分割に失敗: no pty");
    assert_eq!(app.active_id, 1);
}

#[test]
fn undoing_a_split_moves_the_focus_off_the_new_bite() {
    let mut app = app();
    app.handle_action(Action::SplitVertical, main_rect());
    app.handle_action(Action::FocusNext, main_rect());
    assert_eq!(app.active_id, 2);
    app.spawn_failed(2, "no pty");
    assert_eq!(app.active_id, 1);
    assert_eq!(app.template, default_template());
    app.spawn_failed(2, "again");
    assert_eq!(app.active_id, 1);
    assert_eq!(app.status, "分割に失敗: again");
}

#[test]
fn a_split_without_focus_or_ids_does_nothing() {
    let mut app = app();
    app.active_id = 9;
    assert_eq!(app.handle_action(Action::SplitVertical, main_rect()), Effect::Nothing);
    assert_eq!(app.template, default_template());
    let mut full = RuntimeApp::new(
        Template { name: "x".to_string(), root: bite(u64::MAX - 1, "main", "sh") },
        Config::default(),
    );
    assert_eq!(full.handle_action(Action::SplitVertical, main_rect()), Effect::Nothing);
    assert_eq!(full.template.root, bite(u64::MAX - 1, "main", "sh"));
}

#[test]
fn resize_actions_move_the_ratio_by_a_fifth_and_list_the_sizes() {
    let mut app = RuntimeApp::new(sample_template(), Config::default());
    assert_eq!(RESIZE_STEP_RATIO, 200_000);
    let effect = app.handle_key(held(KeyCode::Char('L'), true, false), main_rect());
    assert_eq!(
        effect,
        Effect::Resize(vec![
            PaneSize { id: 1, rows: 38, cols: 68 },
            PaneSize { id: 2, rows: 18, cols: 28 },
            PaneSize { id: 3, rows: 18, cols: 28 },
        ])
    );
    app.active_id = 3;
    let effect = app.handle_key(held(KeyCode::Char('K'), true, false), main_rect());
    assert_eq!(
        effect,
        Effect::Resize(vec![
            PaneSize { id: 1, rows: 38, cols: 68 },
            PaneSize { id: 2, rows: 10, cols: 28 },
            PaneSize { id: 3, rows: 26, cols: 28 },
        ])
    );
    app.handle_action(Action::ResizeLeft, main_rect());
    app.handle_action(Action::ResizeDown, main_rect());
    assert_eq!(app.template, sample_template());
}

#[test]
fn swap_actions_exchange_the_bites_beside_the_focus() {
    let mut app = RuntimeApp::new(sample_template(), Config::default());
    app.active_id = 2;
    assert_eq!(app.handle_action(Action::SwapVertical, main_rect()), Effect::Nothing);
    assert_eq!(app.template, sample_template());
    assert_eq!(app.handle_action(Action::SwapHorizontal, main_rect()), Effect::Nothing);
    assert_eq!(
        app.template.root,
        spoon(
            10,
            Direction::Vertical,
            500_000,
            bite(1, "left", "bash"),
            spoon(20, Direction::Horizontal, 500_000, bite(3, "low", "sh"), bite(2, "top", "htop")),
        )
    );
    assert_eq!(app.active_id, 2);
}

#[test]
fn a_key_without_action_goes_to_the_focused_pane() {
    let mut app = app();
    assert_eq!(
        app.handle_key(key(KeyCode::Char('x')), main_rect()),
        Effect::Write { id: 1, bytes: vec![b'x'] }
    );
    assert_eq!(
        app.handle_key(key(KeyCode::Enter), main_rect()),
        Effect::Write { id: 1, bytes: vec![0x0D] }
    );
    assert_eq!(app.handle_key(key(KeyCode::F(5)), main_rect()), Effect::Nothing);
    assert_eq!(app.handle_key(held(KeyCode::Char('C'), true, true), main_rect()), Effect::Quit);
    assert!(app.is_quit_key(held(KeyCode::Char('C'), true, true)));
    assert!(!app.is_quit_key(key(KeyCode::Char('q'))));
}

#[test]
fn the_save_prompt_asks_for_a_name_and_for_the_state_to_be_written() {
    let mut app = app();
    assert_eq!(app.handle_key(held(KeyCode::Char('S'), true, true), main_rect()), Effect::Nothing);
    assert_eq!(app.prompt, Some(InputPrompt::save_mode()));
    assert_eq!(app.prompt.as_ref().map(|p| p.label.as_str()), Some("保存名"));
    for c in " snapp".chars() {
        assert_eq!(app.handle_key(key(KeyCode::Char(c)), main_rect()), Effect::Nothing);
    }
    assert_eq!(app.handle_key(held(KeyCode::Char('u'), false, true), main_rect()), Effect::Nothing);
    assert_eq!(app.handle_key(key(KeyCode::Left), main_rect()), Effect::Nothing);
    assert_eq!(app.handle_key(key(KeyCode::Backspace), main_rect()), Effect::Nothing);
    assert_eq!(app.prompt.as_ref().map(|p| p.buffer.as_str()), Some(" snap"));
    assert_eq!(
        app.handle_key(key(KeyCode::Enter), main_rect()),
        Effect::SaveState { name: "snap".to_string() }
    );
    assert!(app.prompt.is_none());
    app.state_saved("snap", None);
    assert_eq!(app.status, "保存しました: snap");
    app.state_saved("snap", Some("disk full"));
    assert_eq!(app.status, "保存に失敗: disk full");
}

#[test]
fn the_restore_prompt_asks_for_the_state_to_be_read() {
    let mut app = app();
    assert_eq!(app.handle_action(Action::RestoreState, main_rect()), Effect::Nothing);
    assert_eq!(app.prompt, Some(InputPrompt::restore_mode()));
    assert_eq!(app.prompt.as_ref().map(|p| (p.label.as_str(), p.mode)), Some(("復元名", PromptMode::Restore)));
    assert_eq!(app.handle_prompt_key(key(KeyCode::Char('d'))), Effect::Nothing);
    assert_eq!(
        app.handle_prompt_key(key(KeyCode::Enter)),
        Effect::LoadState { name: "d".to_string() }
    );
    let plan = app.restore(sample_template(), main_rect());
    assert_eq!(plan.len(), 3);
    assert_eq!(app.template, sample_template());
    assert_eq!(app.active_id, 1);
    app.restored("d", None);
    assert_eq!(app.status, "復元しました: d");
    app.restored("d", Some("no such file"));
    assert_eq!(app.status, "復元に失敗: no such file");
    app.active_id = 3;
    app.restore(default_template(), main_rect());
    assert_eq!(app.active_id, 1);
}

#[test]
fn an_empty_name_or_escape_closes_the_prompt_without_an_effect() {
    let mut app = app();
    app.handle_action(Action::SaveState, main_rect());
    assert_eq!(app.handle_key(key(KeyCode::Char(' ')), main_rect()), Effect::Nothing);
    assert_eq!(app.handle_key(key(KeyCode::Enter), main_rect()), Effect::Nothing);
    assert!(app.prompt.is_none());
    app.handle_action(Action::SaveState, main_rect());
    assert_eq!(app.handle_key(key(KeyCode::Char('a')), main_rect()), Effect::Nothing);
    assert_eq!(app.handle_key(key(KeyCode::Esc), main_rect()), Effect::Nothing);
    assert!(app.prompt.is_none());
    assert_eq!(app.handle_prompt_key(key(KeyCode::Enter)), Effect::Nothing);
}

#[test]
fn the_quit_key_is_taken_before_the_prompt() {
    let mut app = app();
    app.handle_action(Action::SaveState, main_rect());
    assert_eq!(app.handle_key(key(KeyCode::Char('v')), main_rect()), Effect::Nothing);
    assert_eq!(app.template, default_template());
    assert_eq!(app.handle_key(held(KeyCode::Char('C'), true, true), main_rect()), Effect::Quit);
    assert_eq!(app.prompt.as_ref().map(|p| p.buffer.as_str()), Some("v"));
    assert_eq!(app.handle_action(Action::Quit, main_rect()), Effect::Quit);
}

#[test]
fn whatever_is_done_the_layout_stays_valid_and_the_focus_on_a_bite() {
    let mut app = RuntimeApp::new(
        Template { name: "dev".to_string(), root: sample_template().root },
        Config::default(),
    );
    let actions = [
        Action::SplitVertical,
        Action::FocusNext,
        Action::ResizeRight,
        Action::SplitHorizontal,
        Action::SwapHorizontal,
        Action::ResizeUp,
        Action::FocusNext,
        Action::FocusNext,
        Action::SwapVertical,
        Action::ResizeLeft,
        Action::ResizeDown,
        Action::SplitVertical,
    ];
    for round in 0..5 {
        for action in actions {
            let effect = app.handle_action(action, main_rect());
            if round % 2 == 1 {
                if let Effect::Spawn(request) = effect {
                    app.spawn_failed(request.id, "no pty");
                }
            }
            assert_eq!(pudding::template::validate_template(&app.template), Ok(()));
            let mut bites = Vec::new();
            pudding::layout::collect_bites(&app.template.root, &mut bites);
            assert!(bites.contains(&app.active_id));
        }
    }
}

#[test]
fn main_area_leaves_two_rows_to_the_status_bar() {
    let mut heights: Vec<u16> = (0..=120).collect();
    heights.extend([255, 256, 600, 1000, 30_000, 65_534, u16::MAX]);
    for y in [0u16, 1, 7, 40_000, 65_000, 65_533, 65_534, u16::MAX] {
        for height in heights.iter().copied() {
            for (x, width) in [(0u16, 80u16), (3, 0), (65_000, 1), (u16::MAX, u16::MAX)] {
                let area = Rect { x, y, width, height };
                let room = height.min(u16::MAX - y);
                let rows = if room >= 3 { room - 2 } else { room.min(1) };
                assert_eq!(main_area(area), Rect { x, y, width, height: rows });
            }
        }
    }
}

#[test]
fn centered_rect_is_centered() {
    assert_eq!(
        centered_rect(10, 4, Rect { x: 0, y: 0, width: 30, height: 14 }),
        Rect { x: 10, y: 5, width: 10, height: 4 }
    );
}

#[test]
fn keeps_requested_size_when_space_is_enough() {
    let area = Rect { x: 0, y: 0, width: 100, height: 40 };
    let centered = centered_rect(20, 10, area);
    assert_eq!(centered.width, 20);
    assert_eq!(centered.height, 10);
    assert_eq!(centered.x, 40);
    assert_eq!(centered.y, 15);
}

#[test]
fn saturates_to_available_size_when_request_is_too_large() {
    let area = Rect { x: 0, y: 0, width: 10, height: 4 };
    let centered = centered_rect(20, 10, area);
    assert_eq!(centered.width, 10);
    assert_eq!(centered.height, 4);
    assert_eq!(centered.x, 0);
    assert_eq!(centered.y, 0);
}

#[test]
fn a_prompt_lies_in_the_middle_of_any_area_on_the_screen() {
    let sizes = [0u16, 1, 2, 3, 4, 5, 9, 10, 11, 80, 81, 300];
    for (x, y) in [(0u16, 0u16), (3, 7), (65_000, 65_200)] {
        for area_width in sizes {
            for area_height in sizes {
                let area = Rect { x, y, width: area_width, height: area_height };
                for width in sizes {
                    for height in [0u16, 1, 3, 4, 10, 400] {
                        let left = area_width.saturating_sub(width) / 2;
                        let top = area_height.saturating_sub(height) / 2;
                        let expected = Rect {
                            x: x + left,
                            y: y + top,
                            width: width.min(area_width),
                            height: height.min(area_height),
                        };
                        assert_eq!(centered_rect(width, height, area), expected);
                    }
                }
            }
        }
    }
    let edge = Rect { x: u16::MAX - 9, y: u16::MAX - 5, width: 9, height: 5 };
    assert_eq!(
        centered_rect(3, 1, edge),
        Rect { x: u16::MAX - 6, y: u16::MAX - 3, width: 3, height: 1 }
    );
}

#[test]
fn the_status_bar_follows_the_pane_area() {
    assert_eq!(
        status_area(Rect { x: 0, y: 0, width: 80, height: 24 }),
        Rect { x: 0, y: 22, width: 80, height: 2 }
    );
    let mut heights: Vec<u16> = (0..=60).collect();
    heights.extend([1000, 65_534, u16::MAX]);
    for y in [0u16, 5, 65_000, 65_533, 65_534, u16::MAX] {
        for height in heights.iter().copied() {
            for (x, width) in [(0u16, 80u16), (9, 0), (u16::MAX, u16::MAX)] {
                let area = Rect { x, y, width, height };
                let room = height.min(u16::MAX - y);
                let rows = if room >= 3 { room - 2 } else { room.min(1) };
                assert_eq!(
                    status_area(area),
                    Rect { x, y: y + rows, width, height: room - rows }
                );
            }
        }
    }
}
