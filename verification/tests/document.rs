use pudding::config::{config_from_value, config_to_value, Config};
use pudding::document::{get, DocumentError, Value};
use pudding::keybind::{format_keybinding, parse_keybinding, KeyBinding, KeyCode, KeyModifiers};
use pudding::model::{default_template, Direction, Node, Template};
use pudding::template::{
    node_from_value, node_to_value, state_loaded, template_from_value, template_to_save,
    template_to_value,
};

fn from_json(json: &serde_json::Value) -> Value {
    match json {
        serde_json::Value::Null => Value::Null,
        serde_json::Value::Bool(b) => Value::Bool(*b),
        serde_json::Value::Number(n) => {
            if let Some(u) = n.as_u64() {
                Value::Number(u as i128 * 1_000_000)
            } else if let Some(i) = n.as_i64() {
                Value::Number(i as i128 * 1_000_000)
            } else {
                Value::Number((n.as_f64().unwrap_or(0.0) * 1_000_000.0).round() as i128)
            }
        }
        serde_json::Value::String(s) => Value::Text(s.clone()),
        serde_json::Value::Array(items) => Value::List(items.iter().map(from_json).collect()),
        serde_json::Value::Object(map) => {
            Value::Record(map.iter().map(|(k, v)| (k.clone(), from_json(v))).collect())
        }
    }
}

fn to_json(value: &Value) -> serde_json::Value {
    match value {
        Value::Null => serde_json::Value::Null,
        Value::Bool(b) => serde_json::Value::Bool(*b),
        Value::Number(n) => {
            if n % 1_000_000 == 0 {
                match u64::try_from(n / 1_000_000) {
                    Ok(u) => serde_json::Value::from(u),
                    Err(_) => serde_json::Value::from((n / 1_000_000) as i64),
                }
            } else {
                serde_json::Value::from(*n as f64 / 1_000_000.0)
            }
        }
        Value::Text(s) => serde_json::Value::String(s.clone()),
        Value::List(items) => serde_json::Value::Array(items.iter().map(to_json).collect()),
        Value::Record(fields) => {
            let mut map = serde_json::Map::new();
            for (name, held) in fields {
                map.insert(name.clone(), to_json(held));
            }
            serde_json::Value::Object(map)
        }
    }
}

fn parse(text: &str) -> Value {
    from_json(&serde_json::from_str::<serde_json::Value>(text).expect("valid JSON"))
}

fn bite(id: u64, name: &str, command: &str) -> Node {
    Node::Bite { id, name: name.to_string(), command: command.to_string() }
}

fn sample() -> Template {
    Template {
        name: "dev".to_string(),
        root: Node::Spoon {
            id: 10,
            orientation: Direction::Vertical,
            ratio: 333_333,
            first: Box::new(bite(1, "main", "bash")),
            second: Box::new(Node::Spoon {
                id: u64::MAX,
                orientation: Direction::Horizontal,
                ratio: 900_000,
                first: Box::new(bite(2, "logs \"of\" today", "tail -f /var/log/a\\b")),
                second: Box::new(bite(3, "日本語", "htop")),
            }),
        },
    }
}

fn record(fields: Vec<(&str, Value)>) -> Value {
    Value::Record(fields.into_iter().map(|(k, v)| (k.to_string(), v)).collect())
}

fn text(s: &str) -> Value {
    Value::Text(s.to_string())
}

#[test]
fn to_json_writes_v2_minimal_shape() {
    let mut cfg = Config { default_command: "zsh".to_string(), ..Config::default() };
    cfg.keybinds.push(("quit".to_string(), "q".to_string()));

    let json = serde_json::to_string_pretty(&to_json(&config_to_value(&cfg)))
        .expect("config should serialize");
    let value: serde_json::Value =
        serde_json::from_str(&json).expect("serialized config should be valid JSON");

    let mut expected = serde_json::Map::new();
    expected.insert("default_command".to_string(), serde_json::Value::from("zsh"));
    assert_eq!(value, serde_json::Value::Object(expected));
    assert!(!json.contains("keybinds"));
}

#[test]
fn a_template_is_written_with_its_fields() {
    assert_eq!(
        template_to_value(&default_template()),
        record(vec![
            ("name", text("default")),
            (
                "layout",
                record(vec![
                    ("type", text("bite")),
                    ("id", Value::Number(1_000_000)),
                    ("name", text("main")),
                    ("command", text("bash")),
                ]),
            ),
        ])
    );
    let spoon = Node::Spoon {
        id: 3,
        orientation: Direction::Horizontal,
        ratio: 250_000,
        first: Box::new(bite(1, "a", "sh")),
        second: Box::new(bite(2, "b", "sh")),
    };
    assert_eq!(
        node_to_value(&spoon),
        record(vec![
            ("type", text("spoon")),
            ("id", Value::Number(3_000_000)),
            ("orientation", text("horizontal")),
            ("ratio", Value::Number(250_000)),
            ("first", node_to_value(&bite(1, "a", "sh"))),
            ("second", node_to_value(&bite(2, "b", "sh"))),
        ])
    );
}

#[test]
fn a_template_written_is_read_as_the_same_template() {
    for template in [default_template(), sample()] {
        assert_eq!(template_from_value(&template_to_value(&template)), Ok(template));
    }
    let odd = Node::Spoon {
        id: 0,
        orientation: Direction::Vertical,
        ratio: i64::MIN,
        first: Box::new(bite(0, "", "")),
        second: Box::new(bite(0, " ", "\n")),
    };
    assert_eq!(node_from_value(&node_to_value(&odd)), Ok(odd));
}

#[test]
fn save_then_load_through_json_text_gives_the_same_tree() {
    let template = sample();
    let (path, document) = template_to_save("/c", &template).expect("the template is valid");
    assert_eq!(path, "/c/pudding/templates/dev.json");
    let written = serde_json::to_string_pretty(&to_json(&document)).expect("it serializes");
    assert!(written.contains("\"ratio\": 0.333333"));
    assert!(written.contains("\"orientation\": \"vertical\""));
    assert!(written.contains("\"id\": 18446744073709551615"));
    let read = parse(&written);
    assert_eq!(state_loaded(Some(&read)), Ok(template));
}

#[test]
fn a_file_written_by_hand_is_read() {
    let document = parse(
        r#"{
            "name": "dev",
            "comment": ["fields that are not known are passed over", null, true],
            "layout": {
                "type": "spoon", "id": 3, "orientation": "vertical", "ratio": 0.5,
                "first": { "type": "bite", "id": 1, "name": "main", "command": "bash" },
                "second": { "type": "bite", "id": 2, "name": "leaf-2", "command": "bash", "x": 1 }
            }
        }"#,
    );
    let expected = Template {
        name: "dev".to_string(),
        root: Node::Spoon {
            id: 3,
            orientation: Direction::Vertical,
            ratio: 500_000,
            first: Box::new(bite(1, "main", "bash")),
            second: Box::new(bite(2, "leaf-2", "bash")),
        },
    };
    assert_eq!(template_from_value(&document), Ok(expected));
}

#[test]
fn each_fault_of_a_document_has_its_error() {
    let good = || {
        vec![
            ("type", text("spoon")),
            ("id", Value::Number(3_000_000)),
            ("orientation", text("vertical")),
            ("ratio", Value::Number(500_000)),
            ("first", node_to_value(&bite(1, "a", "sh"))),
            ("second", node_to_value(&bite(2, "b", "sh"))),
        ]
    };
    let with = |name: &str, held: Value| {
        let mut fields = good();
        fields.push((name, held));
        record(fields)
    };
    let without = |name: &str| record(good().into_iter().filter(|(k, _)| *k != name).collect());
    assert!(node_from_value(&record(good())).is_ok());
    assert_eq!(node_from_value(&Value::List(Vec::new())), Err(DocumentError::NotARecord));
    assert_eq!(node_from_value(&text("bite")), Err(DocumentError::NotARecord));
    for name in ["type", "id", "orientation", "ratio", "first", "second"] {
        assert_eq!(node_from_value(&without(name)), Err(DocumentError::MissingField));
    }
    assert_eq!(node_from_value(&with("type", Value::Null)), Err(DocumentError::NotText));
    assert_eq!(node_from_value(&with("type", text("pane"))), Err(DocumentError::UnknownKind));
    assert_eq!(node_from_value(&with("type", text("Bite"))), Err(DocumentError::UnknownKind));
    assert_eq!(node_from_value(&with("id", text("3"))), Err(DocumentError::NotNumber));
    assert_eq!(node_from_value(&with("id", Value::Number(1_500_000))), Err(DocumentError::NotAnId));
    assert_eq!(node_from_value(&with("id", Value::Number(-1_000_000))), Err(DocumentError::NotAnId));
    assert_eq!(
        node_from_value(&with("id", Value::Number((u64::MAX as i128 + 1) * 1_000_000))),
        Err(DocumentError::NotAnId)
    );
    assert_eq!(node_from_value(&with("orientation", Value::Bool(true))), Err(DocumentError::NotText));
    assert_eq!(
        node_from_value(&with("orientation", text("diagonal"))),
        Err(DocumentError::UnknownOrientation)
    );
    assert_eq!(node_from_value(&with("ratio", text("0.5"))), Err(DocumentError::NotNumber));
    assert_eq!(node_from_value(&with("first", text("x"))), Err(DocumentError::NotARecord));
    assert_eq!(
        node_from_value(&with("second", record(vec![("type", text("bite"))]))),
        Err(DocumentError::MissingField)
    );
    assert_eq!(
        node_from_value(&record(vec![("type", text("bite")), ("id", Value::Number(0)), ("name", text("a"))])),
        Err(DocumentError::MissingField)
    );
    assert_eq!(
        template_from_value(&record(vec![("name", Value::Number(1)), ("layout", Value::Null)])),
        Err(DocumentError::NotText)
    );
    assert_eq!(template_from_value(&Value::Bool(false)), Err(DocumentError::NotARecord));
}

#[test]
fn a_ratio_beyond_what_can_be_held_is_taken_for_the_nearest() {
    let spoon = |ratio: i128| {
        record(vec![
            ("type", text("spoon")),
            ("id", Value::Number(3_000_000)),
            ("orientation", text("vertical")),
            ("ratio", Value::Number(ratio)),
            ("first", node_to_value(&bite(1, "a", "sh"))),
            ("second", node_to_value(&bite(2, "b", "sh"))),
        ])
    };
    let ratio_of = |value: &Value| match node_from_value(value) {
        Ok(Node::Spoon { ratio, .. }) => ratio,
        other => panic!("a spoon was expected, not {:?}", other),
    };
    assert_eq!(ratio_of(&spoon(i128::MAX)), i64::MAX);
    assert_eq!(ratio_of(&spoon(i128::MIN)), i64::MIN);
    assert_eq!(ratio_of(&spoon(-7)), -7);
}

#[test]
fn the_last_field_of_a_name_counts() {
    let value = record(vec![("a", text("1")), ("b", text("2")), ("a", text("3"))]);
    assert_eq!(get(&value, "a"), Some(&text("3")));
    assert_eq!(get(&value, "b"), Some(&text("2")));
    assert_eq!(get(&value, "c"), None);
    assert_eq!(get(&Value::List(vec![text("a")]), "a"), None);
}

#[test]
fn errors_of_documents_have_their_words() {
    assert_eq!(DocumentError::NotARecord.message(), "expected a record");
    assert_eq!(DocumentError::MissingField.message(), "missing field");
    assert_eq!(DocumentError::NotText.message(), "expected text");
    assert_eq!(DocumentError::NotNumber.message(), "expected a number");
    assert_eq!(DocumentError::NotAnId.message(), "expected an id");
    assert_eq!(DocumentError::UnknownKind.message(), "unknown node type");
    assert_eq!(DocumentError::UnknownOrientation.message(), "unknown orientation");
}

#[test]
fn a_configuration_is_read_from_its_document() {
    let cfg = config_from_value(&parse(
        r#"{ "default_command": "zsh", "keybinds": { "split_vertical": "Ctrl+V", "quit": "q" } }"#,
    ))
    .expect("the document is a configuration");
    assert_eq!(cfg.default_command, "zsh");
    assert_eq!(cfg.keybind("split_vertical"), Some("Ctrl+V"));
    assert_eq!(cfg.keybind("quit"), Some("q"));
    assert_eq!(cfg.keybind("split_horizontal"), Some("h"));
    assert_eq!(config_from_value(&parse("{}")), Ok(Config::default()));
    assert_eq!(config_from_value(&parse(r#"{ "theme": 3 }"#)), Ok(Config::default()));
    assert_eq!(config_from_value(&parse("[]")), Err(DocumentError::NotARecord));
    assert_eq!(
        config_from_value(&parse(r#"{ "default_command": 3 }"#)),
        Err(DocumentError::NotText)
    );
    assert_eq!(
        config_from_value(&parse(r#"{ "default_command": null }"#)),
        Err(DocumentError::NotText)
    );
    assert_eq!(config_from_value(&parse(r#"{ "keybinds": [] }"#)), Err(DocumentError::NotARecord));
    assert_eq!(
        config_from_value(&parse(r#"{ "keybinds": { "quit": "q", "save": 1 } }"#)),
        Err(DocumentError::NotText)
    );
}

#[test]
fn a_configuration_written_is_read_with_its_command() {
    let mut cfg = Config::from_parts(Some("fish".to_string()), Vec::new());
    cfg.keybinds.push(("quit".to_string(), "q".to_string()));
    let read = config_from_value(&config_to_value(&cfg)).expect("it is a configuration");
    assert_eq!(read, Config::from_parts(Some("fish".to_string()), Vec::new()));
}

#[test]
fn a_binding_is_written_as_it_is_read() {
    let all = KeyModifiers { shift: true, control: true, alt: true, other: false };
    let none = KeyModifiers::none();
    let alt = KeyModifiers { shift: false, control: false, alt: true, other: false };
    assert_eq!(format_keybinding(&KeyBinding { code: KeyCode::Char('S'), modifiers: all }), "Ctrl+Alt+Shift+S");
    assert_eq!(format_keybinding(&KeyBinding { code: KeyCode::Char(' '), modifiers: none }), "Space");
    assert_eq!(format_keybinding(&KeyBinding { code: KeyCode::F(12), modifiers: alt }), "Alt+F12");
    assert_eq!(format_keybinding(&KeyBinding { code: KeyCode::F(0), modifiers: none }), "F0");
    assert_eq!(format_keybinding(&KeyBinding { code: KeyCode::PageDown, modifiers: none }), "PageDown");
    assert_eq!(format_keybinding(&KeyBinding { code: KeyCode::BackTab, modifiers: none }), "BackTab");
}

#[test]
fn reading_what_was_written_gives_the_binding_back() {
    let mut codes = vec![
        KeyCode::Enter,
        KeyCode::Esc,
        KeyCode::Tab,
        KeyCode::Backspace,
        KeyCode::Delete,
        KeyCode::Home,
        KeyCode::End,
        KeyCode::PageUp,
        KeyCode::PageDown,
        KeyCode::Insert,
        KeyCode::Left,
        KeyCode::Right,
        KeyCode::Up,
        KeyCode::Down,
    ];
    for n in 1..=12u8 {
        codes.push(KeyCode::F(n));
    }
    for code in (0u32..0x3000).chain([0x212A, 0x1F600, 0x10FFFF]) {
        if let Some(c) = char::from_u32(code) {
            if c != '+' && (c == ' ' || !c.is_whitespace()) {
                codes.push(KeyCode::Char(c));
            }
        }
    }
    for code in codes {
        for bits in 0..8u8 {
            let modifiers = KeyModifiers {
                shift: bits & 1 != 0,
                control: bits & 2 != 0,
                alt: bits & 4 != 0,
                other: false,
            };
            let binding = KeyBinding { code, modifiers };
            let read = parse_keybinding(&format_keybinding(&binding));
            let capital = matches!(code, KeyCode::Char(c) if c.is_uppercase());
            if capital && !modifiers.shift {
                let with_shift = KeyModifiers { shift: true, ..modifiers };
                assert_eq!(read, Some(KeyBinding { code, modifiers: with_shift }));
            } else {
                assert_eq!(read, Some(binding));
            }
        }
    }
    for n in [0u8, 13, 255] {
        let beyond = KeyBinding { code: KeyCode::F(n), modifiers: KeyModifiers::none() };
        assert_eq!(parse_keybinding(&format_keybinding(&beyond)), None);
    }
    let back = KeyBinding { code: KeyCode::BackTab, modifiers: KeyModifiers::none() };
    assert_eq!(
        parse_keybinding(&format_keybinding(&back)),
        Some(KeyBinding {
            code: KeyCode::Tab,
            modifiers: KeyModifiers { shift: true, control: false, alt: false, other: false },
        })
    );
}
