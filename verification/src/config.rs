//! The configuration: the command that new panes run, and the key bindings
//! by the names of their actions.

use crate::document::{field, get, Doc, DocumentError, Value};
use crate::paths::{join, joined};
use crate::text::same_text;
use vstd::prelude::*;

verus! {

/// The configuration. `keybinds` pairs the name of an action with the text
/// of a key binding; where a name occurs more than once, its last entry
/// counts.
#[derive(Debug, Clone, PartialEq, Eq)]
pub struct Config {
    pub default_command: String,
    pub keybinds: Vec<(String, String)>,
}

/// The mathematical value of a [`Config`].
pub ghost struct ConfigView {
    pub default_command: Seq<char>,
    pub keybinds: Seq<(Seq<char>, Seq<char>)>,
}

/// The pairs of strings as pairs of character sequences.
pub open spec fn pairs_view(pairs: Seq<(String, String)>) -> Seq<(Seq<char>, Seq<char>)> {
    Seq::new(pairs.len(), |i: int| (pairs[i].0@, pairs[i].1@))
}

impl View for Config {
    type V = ConfigView;

    open spec fn view(&self) -> ConfigView {
        ConfigView { default_command: self.default_command@, keybinds: pairs_view(self.keybinds@) }
    }
}

/// What the last entry for `name` holds, if there is one.
pub open spec fn lookup(pairs: Seq<(Seq<char>, Seq<char>)>, name: Seq<char>) -> Option<Seq<char>>
    decreases pairs.len(),
{
    if pairs.len() == 0 {
        None
    } else if pairs.last().0 == name {
        Some(pairs.last().1)
    } else {
        lookup(pairs.drop_last(), name)
    }
}

/// The bindings that hold where the configuration names none.
pub open spec fn default_keybinds_spec() -> Seq<(Seq<char>, Seq<char>)> {
    seq![
        ("split_vertical"@, "v"@),
        ("split_horizontal"@, "h"@),
        ("resize_left"@, "H"@),
        ("resize_right"@, "L"@),
        ("resize_up"@, "K"@),
        ("resize_down"@, "J"@),
        ("swap_vertical"@, "S"@),
        ("swap_horizontal"@, "s"@),
        ("save_state"@, "Ctrl+S"@),
        ("restore_state"@, "Ctrl+R"@),
        ("focus_next"@, "Tab"@),
        ("quit"@, "Ctrl+C"@),
    ]
}

/// The configuration that a file gives: the file's command, or `bash` where
/// it names none, and the default bindings followed by the file's, so that
/// the file's count where both name an action.
pub open spec fn config_from(
    default_command: Option<Seq<char>>,
    keybinds: Seq<(Seq<char>, Seq<char>)>,
) -> ConfigView {
    ConfigView {
        default_command: match default_command {
            Some(command) => command,
            None => "bash"@,
        },
        keybinds: default_keybinds_spec() + keybinds,
    }
}

/// The command that new panes run where the configuration names none.
pub fn default_command_value() -> (command: String)
    ensures
        command@ == "bash"@,
{
    "bash".to_owned()
}

fn pair(name: &str, key: &str) -> (p: (String, String))
    ensures
        p.0@ == name@,
        p.1@ == key@,
{
    (name.to_owned(), key.to_owned())
}

/// The bindings that hold where the configuration names none.
pub fn default_keybinds() -> (keybinds: Vec<(String, String)>)
    ensures
        pairs_view(keybinds@) == default_keybinds_spec(),
{
    let mut keybinds: Vec<(String, String)> = Vec::new();
    keybinds.push(pair("split_vertical", "v"));
    keybinds.push(pair("split_horizontal", "h"));
    keybinds.push(pair("resize_left", "H"));
    keybinds.push(pair("resize_right", "L"));
    keybinds.push(pair("resize_up", "K"));
    keybinds.push(pair("resize_down", "J"));
    keybinds.push(pair("swap_vertical", "S"));
    keybinds.push(pair("swap_horizontal", "s"));
    keybinds.push(pair("save_state", "Ctrl+S"));
    keybinds.push(pair("restore_state", "Ctrl+R"));
    keybinds.push(pair("focus_next", "Tab"));
    keybinds.push(pair("quit", "Ctrl+C"));
    assert(pairs_view(keybinds@) =~= default_keybinds_spec());
    keybinds
}

impl Default for Config {
    /// The configuration that holds where there is no file: `bash`, and the
    /// default bindings.
    fn default() -> (config: Config)
        ensures
            config@ == config_from(None, Seq::empty()),
    {
        let config = Config {
            default_command: default_command_value(),
            keybinds: default_keybinds(),
        };
        assert(default_keybinds_spec() + Seq::empty() =~= default_keybinds_spec());
        config
    }
}

impl Config {
    /// The configuration that a file gives, from what was read in it: its
    /// command, if it names one, and its bindings.
    pub fn from_parts(default_command: Option<String>, keybinds: Vec<(String, String)>) -> (config:
        Config)
        ensures
            config@ == config_from(
                match default_command {
                    Some(command) => Some(command@),
                    None => None,
                },
                pairs_view(keybinds@),
            ),
    {
        let command = match default_command {
            Some(command) => command,
            None => default_command_value(),
        };
        let mut merged = default_keybinds();
        let ghost defaults = merged@;
        let mut keybinds = keybinds;
        let ghost given = keybinds@;
        merged.append(&mut keybinds);
        assert(pairs_view(merged@) =~= pairs_view(defaults) + pairs_view(given));
        Config { default_command: command, keybinds: merged }
    }

    /// The key binding that the configuration gives the action `name`.
    pub fn keybind(&self, name: &str) -> (found: Option<&str>)
        ensures
            match found {
                Some(key) => lookup(self@.keybinds, name@) == Some(key@),
                None => lookup(self@.keybinds, name@) is None,
            },
    {
        keybind_for(&self.keybinds, name)
    }
}

/// The key binding that the last entry for the action `name` holds.
pub fn keybind_for<'a>(keybinds: &'a Vec<(String, String)>, name: &str) -> (found: Option<&'a str>)
    ensures
        match found {
            Some(key) => lookup(pairs_view(keybinds@), name@) == Some(key@),
            None => lookup(pairs_view(keybinds@), name@) is None,
        },
{
    let mut i: usize = keybinds.len();
    let ghost all = pairs_view(keybinds@);
    proof {
        assert(all.take(i as int) == all);
    }
    while i > 0
        invariant
            i <= keybinds.len(),
            all == pairs_view(keybinds@),
            lookup(all, name@) == lookup(all.take(i as int), name@),
        decreases i,
    {
        let ghost upto = all.take(i as int);
        proof {
            assert(upto.last() == all[i - 1]);
            assert(upto.drop_last() == all.take(i - 1));
        }
        if same_text(keybinds[i - 1].0.as_str(), name) {
            return Some(keybinds[i - 1].1.as_str());
        }
        i -= 1;
    }
    None
}

/// The configuration file below the configuration directory.
pub fn config_file_path(config_dir: &str) -> (path: String)
    ensures
        path@ == joined(joined(config_dir@, "pudding"@), "config.json"@),
{
    let dir = join(config_dir, "pudding");
    join(dir.as_str(), "config.json")
}

/// The pairs of texts that the fields of a record hold, or why they are
/// none: every field must hold text.
pub open spec fn doc_pairs(fields: Seq<(Seq<char>, Doc)>) -> Result<
    Seq<(Seq<char>, Seq<char>)>,
    DocumentError,
>
    decreases fields.len(),
{
    if fields.len() == 0 {
        Ok(Seq::empty())
    } else {
        match doc_pairs(fields.drop_last()) {
            Err(e) => Err(e),
            Ok(pairs) => match fields.last().1 {
                Doc::Text(key) => Ok(pairs.push((fields.last().0, key))),
                _ => Err(DocumentError::NotText),
            },
        }
    }
}

/// The configuration that a document stands for, or why it stands for none.
/// The document is a record; `default_command`, where it is there, holds
/// text, and `keybinds`, where it is there, is a record of texts. What is
/// not there is as it is by default, and other fields are passed over.
pub open spec fn doc_config(d: Doc) -> Result<ConfigView, DocumentError> {
    match d {
        Doc::Record(fields) => match field(fields, "default_command"@) {
            Some(Doc::Text(command)) => match doc_keybinds(fields) {
                Err(e) => Err(e),
                Ok(keybinds) => Ok(config_from(Some(command), keybinds)),
            },
            Some(_) => Err(DocumentError::NotText),
            None => match doc_keybinds(fields) {
                Err(e) => Err(e),
                Ok(keybinds) => Ok(config_from(None, keybinds)),
            },
        },
        _ => Err(DocumentError::NotARecord),
    }
}

/// The bindings that the field `keybinds` of a record holds; none where
/// the record has no such field.
pub open spec fn doc_keybinds(fields: Seq<(Seq<char>, Doc)>) -> Result<
    Seq<(Seq<char>, Seq<char>)>,
    DocumentError,
> {
    match field(fields, "keybinds"@) {
        None => Ok(Seq::empty()),
        Some(Doc::Record(bound)) => doc_pairs(bound),
        Some(_) => Err(DocumentError::NotARecord),
    }
}

/// A configuration as a document: a record of `default_command` alone. The
/// bindings are not written: they are read where a file has them, and are as
/// they are by default where it has none.
pub open spec fn config_doc(config: ConfigView) -> Doc {
    Doc::Record(seq![("default_command"@, Doc::Text(config.default_command))])
}

/// A configuration that was written is read with the command it had and the
/// default bindings.
pub proof fn lemma_config_round_trip(config: ConfigView)
    ensures
        doc_config(config_doc(config)) == Ok::<ConfigView, DocumentError>(
            config_from(Some(config.default_command), Seq::empty()),
        ),
{
    reveal_strlit("default_command");
    reveal_strlit("keybinds");
    let fields = config_doc(config)->Record_0;
    assert(fields.last() == fields[0]);
    assert(fields.drop_last() =~= Seq::<(Seq<char>, Doc)>::empty());
    assert("default_command"@.len() != "keybinds"@.len());
    assert(field(fields.drop_last(), "keybinds"@) is None);
}

fn pairs_of(value: &Value) -> (r: Result<Vec<(String, String)>, DocumentError>)
    requires
        value@ is Record,
    ensures
        match r {
            Ok(pairs) => doc_pairs(value@->Record_0) == Ok::<
                Seq<(Seq<char>, Seq<char>)>,
                DocumentError,
            >(pairs_view(pairs@)),
            Err(e) => doc_pairs(value@->Record_0) == Err::<
                Seq<(Seq<char>, Seq<char>)>,
                DocumentError,
            >(e),
        },
{
    match value {
        Value::Record(fields) => {
            let ghost all = value@->Record_0;
            let mut pairs: Vec<(String, String)> = Vec::new();
            let mut i: usize = 0;
            proof {
                assert(all.take(0) =~= Seq::<(Seq<char>, Doc)>::empty());
                assert(pairs_view(pairs@) =~= Seq::<(Seq<char>, Seq<char>)>::empty());
            }
            while i < fields.len()
                invariant
                    i <= fields.len(),
                    value@ == Doc::Record(all),
                    all.len() == fields@.len(),
                    forall|j: int|
                        0 <= j < fields@.len() ==> all[j] == (fields@[j].0@, fields@[j].1@),
                    doc_pairs(all.take(i as int)) == Ok::<
                        Seq<(Seq<char>, Seq<char>)>,
                        DocumentError,
                    >(pairs_view(pairs@)),
                decreases fields.len() - i,
            {
                let ghost upto = all.take(i + 1);
                proof {
                    assert(upto.last() == all[i as int]);
                    assert(upto.drop_last() == all.take(i as int));
                }
                match &fields[i].1 {
                    Value::Text(key) => {
                        let entry = (fields[i].0.clone(), key.clone());
                        proof {
                            assert(pairs_view(pairs@.push(entry)) =~= pairs_view(pairs@).push(
                                (entry.0@, entry.1@),
                            ));
                        }
                        pairs.push(entry);
                    },
                    _ => {
                        proof {
                            lemma_pairs_fail(all, i as int);
                        }
                        return Err(DocumentError::NotText);
                    },
                }
                i += 1;
            }
            proof {
                assert(all.take(fields.len() as int) == all);
            }
            Ok(pairs)
        },
        _ => Ok(Vec::new()),
    }
}

/// Once a field holds no text, no longer run of the fields gives pairs.
proof fn lemma_pairs_fail(fields: Seq<(Seq<char>, Doc)>, at: int)
    requires
        0 <= at < fields.len(),
        doc_pairs(fields.take(at)) is Ok,
        !(fields[at].1 is Text),
    ensures
        doc_pairs(fields) == Err::<Seq<(Seq<char>, Seq<char>)>, DocumentError>(
            DocumentError::NotText,
        ),
    decreases fields.len() - at,
{
    if at < fields.len() - 1 {
        assert(fields.drop_last().take(at) == fields.take(at));
        lemma_pairs_fail(fields.drop_last(), at);
    } else {
        assert(fields.drop_last() == fields.take(at));
    }
}

/// Takes a document for a configuration.
pub fn config_from_value(value: &Value) -> (r: Result<Config, DocumentError>)
    ensures
        match r {
            Ok(config) => doc_config(value@) == Ok::<ConfigView, DocumentError>(config@),
            Err(e) => doc_config(value@) == Err::<ConfigView, DocumentError>(e),
        },
{
    match value {
        Value::Record(_) => {},
        _ => {
            return Err(DocumentError::NotARecord);
        },
    }
    let command = match get(value, "default_command") {
        None => None,
        Some(Value::Text(command)) => Some(command.clone()),
        Some(_) => {
            return Err(DocumentError::NotText);
        },
    };
    let keybinds = match get(value, "keybinds") {
        None => Vec::new(),
        Some(bound) => match bound {
            Value::Record(_) => match pairs_of(bound) {
                Err(e) => {
                    return Err(e);
                },
                Ok(pairs) => pairs,
            },
            _ => {
                return Err(DocumentError::NotARecord);
            },
        },
    };
    proof {
        assert(pairs_view(Seq::<(String, String)>::empty()) =~= Seq::<
            (Seq<char>, Seq<char>),
        >::empty());
    }
    Ok(Config::from_parts(command, keybinds))
}

/// A configuration as a document.
pub fn config_to_value(config: &Config) -> (value: Value)
    ensures
        value@ == config_doc(config@),
{
    let mut fields: Vec<(String, Value)> = Vec::new();
    let held = Value::Text(config.default_command.clone());
    assert(held@ == Doc::Text(config.default_command@));
    fields.push(("default_command".to_owned(), held));
    let value = Value::Record(fields);
    assert(value@->Record_0 =~= config_doc(config@)->Record_0);
    value
}

} // verus!
