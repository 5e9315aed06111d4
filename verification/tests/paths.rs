use pudding::config::config_file_path;
use pudding::document::{DocumentError, Value};
use pudding::model::{default_template, Direction, Node, Template};
use pudding::paths::{config_dir, join, states_dir, templates_dir};
use pudding::template::{
    state_loaded, state_path, state_to_load, state_to_save, template_loaded, template_path,
    template_to_load, template_to_save, template_to_value, LoadError, ValidationError,
};

fn bad_tree() -> Template {
    Template {
        name: "dev".to_string(),
        root: Node::Spoon {
            id: 1,
            orientation: Direction::Vertical,
            ratio: 950_000,
            first: Box::new(Node::Bite { id: 2, name: "a".to_string(), command: "sh".to_string() }),
            second: Box::new(Node::Bite { id: 3, name: "b".to_string(), command: "sh".to_string() }),
        },
    }
}

#[test]
fn join_puts_one_separator_between_the_parts() {
    assert_eq!(join("/a", "b"), "/a/b");
    assert_eq!(join("/a/", "b"), "/a/b");
    assert_eq!(join("", "b"), "b");
    assert_eq!(join("/a", ""), "/a/");
    assert_eq!(join("/a", "/b"), "/b");
    assert_eq!(join("a", "b/c"), "a/b/c");
}

#[test]
fn join_agrees_with_the_paths_of_the_system() {
    for (base, part) in [("/a", "b"), ("/a/", "b"), ("", "b"), ("/a", "/b"), ("a", "b/c"), ("/", "x")] {
        let joined = std::path::Path::new(base).join(part);
        assert_eq!(join(base, part), joined.to_str().unwrap());
    }
}

#[test]
fn the_configuration_directory_follows_the_environment() {
    assert_eq!(config_dir(Some("/xdg"), Some("/home/u"), Some("/sys/u")), "/xdg");
    assert_eq!(config_dir(None, Some("/home/u"), Some("/sys/u")), "/home/u/.config");
    assert_eq!(config_dir(None, None, Some("/sys/u")), "/sys/u");
    assert_eq!(config_dir(None, None, None), ".");
}

#[test]
fn templates_and_states_have_sibling_directories() {
    assert_eq!(templates_dir("/c"), "/c/pudding/templates");
    assert_eq!(states_dir("/c"), "/c/pudding/states");
    assert_eq!(template_path("/c", "dev"), "/c/pudding/templates/dev.json");
    assert_eq!(state_path("/c", "dev"), "/c/pudding/states/dev.json");
    assert_eq!(config_file_path("/c"), "/c/pudding/config.json");
}

#[test]
fn a_name_is_checked_before_a_file_is_looked_for() {
    assert_eq!(template_to_load("/c", "dev"), Ok("/c/pudding/templates/dev.json".to_string()));
    assert_eq!(template_to_load("/c", "../evil"), Err(ValidationError::NameCharset));
    assert_eq!(template_to_load("/c", ""), Err(ValidationError::NameLength));
    assert_eq!(state_to_load("/c", "dev"), Ok("/c/pudding/states/dev.json".to_string()));
    assert_eq!(state_to_load("/c", "a/b"), Err(ValidationError::NameCharset));
}

#[test]
fn a_missing_template_gives_the_default_one() {
    assert_eq!(template_loaded(None), Ok(default_template()));
}

#[test]
fn a_missing_state_gives_the_default_template() {
    assert_eq!(state_loaded(None), Ok(default_template()));
    assert_eq!(
        state_loaded(None).map(|t| t.root),
        Ok(Node::Bite { id: 1, name: "main".to_string(), command: "bash".to_string() })
    );
}

#[test]
fn what_was_read_is_checked_and_handed_on() {
    let good = Template::default_with_name("dev");
    let document = template_to_value(&good);
    assert_eq!(template_loaded(Some(&document)), Ok(good.clone()));
    assert_eq!(state_loaded(Some(&document)), Ok(good));
    let bad = template_to_value(&bad_tree());
    assert_eq!(
        template_loaded(Some(&bad)),
        Err(LoadError::Invalid(ValidationError::RatioOutOfRange))
    );
    assert_eq!(
        state_loaded(Some(&bad)),
        Err(LoadError::Invalid(ValidationError::RatioOutOfRange))
    );
    assert_eq!(
        state_loaded(Some(&Value::Null)),
        Err(LoadError::Document(DocumentError::NotARecord))
    );
    assert_eq!(
        template_loaded(Some(&Value::Record(Vec::new()))),
        Err(LoadError::Document(DocumentError::MissingField))
    );
    assert_eq!(
        LoadError::Invalid(ValidationError::RatioOutOfRange).message(),
        "spoon ratio must be in [0.1,0.9]"
    );
    assert_eq!(LoadError::Document(DocumentError::NotARecord).message(), "expected a record");
}

#[test]
fn a_template_is_checked_before_it_is_written() {
    let good = Template::default_with_name("dev");
    assert_eq!(
        template_to_save("/c", &good),
        Ok(("/c/pudding/templates/dev.json".to_string(), template_to_value(&good)))
    );
    assert_eq!(template_to_save("/c", &bad_tree()), Err(ValidationError::RatioOutOfRange));
    let unnamed = Template::default_with_name("");
    assert_eq!(template_to_save("/c", &unnamed), Err(ValidationError::NameLength));
    assert_eq!(
        state_to_save("/c", "snap", &good),
        Ok(("/c/pudding/states/snap.json".to_string(), template_to_value(&good)))
    );
    assert_eq!(state_to_save("/c", "bad name", &bad_tree()), Err(ValidationError::NameCharset));
    assert_eq!(state_to_save("/c", "snap", &bad_tree()), Err(ValidationError::RatioOutOfRange));
    assert_eq!(state_to_save("/c", "snap", &unnamed), Err(ValidationError::NameLength));
}
