//! Where the program keeps its files, below the user's configuration
//! directory. Paths are strings here; finding the directory in the
//! environment and touching the disk is the caller's part.

use crate::text::chars_of;
use vstd::prelude::*;

verus! {

/// `component` joined to the path `base`, as paths are joined on Unix: a
/// component that starts at the root stands alone, and a `/` is put between
/// the two unless `base` is empty or ends in one.
pub open spec fn joined(base: Seq<char>, component: Seq<char>) -> Seq<char> {
    if component.len() > 0 && component[0] == '/' {
        component
    } else if base.len() > 0 && base.last() != '/' {
        base + seq!['/'] + component
    } else {
        base + component
    }
}

/// The configuration directory: `$XDG_CONFIG_HOME` where it is set, else
/// `.config` below `$HOME`, else the home directory that the system reports,
/// else the current directory.
pub open spec fn config_dir_spec(
    xdg_config_home: Option<Seq<char>>,
    home: Option<Seq<char>>,
    home_dir: Option<Seq<char>>,
) -> Seq<char> {
    match xdg_config_home {
        Some(dir) => dir,
        None => match home {
            Some(home) => joined(home, ".config"@),
            None => match home_dir {
                Some(dir) => dir,
                None => "."@,
            },
        },
    }
}

/// The directory of templates below the configuration directory.
pub open spec fn templates_dir_spec(config_dir: Seq<char>) -> Seq<char> {
    joined(joined(config_dir, "pudding"@), "templates"@)
}

/// The directory of saved states below the configuration directory.
pub open spec fn states_dir_spec(config_dir: Seq<char>) -> Seq<char> {
    joined(joined(config_dir, "pudding"@), "states"@)
}

/// The file name of a template or a saved state: its name and `.json`.
pub open spec fn file_name(name: Seq<char>) -> Seq<char> {
    name + ".json"@
}

/// Joins `component` to the path `base`.
pub fn join(base: &str, component: &str) -> (path: String)
    ensures
        path@ == joined(base@, component@),
{
    let b = chars_of(base);
    let c = chars_of(component);
    if c.len() > 0 && c[0] == '/' {
        return component.to_owned();
    }
    let mut path = base.to_owned();
    if b.len() > 0 && b[b.len() - 1] != '/' {
        path.push('/');
    }
    path.append(component);
    path
}

/// The configuration directory, from what the environment holds:
/// `xdg_config_home` and `home` are the values of the variables of those
/// names where they are set, `home_dir` the home directory that the system
/// reports.
pub fn config_dir(xdg_config_home: Option<&str>, home: Option<&str>, home_dir: Option<&str>) -> (dir:
    String)
    ensures
        dir@ == config_dir_spec(
            match xdg_config_home {
                Some(s) => Some(s@),
                None => None,
            },
            match home {
                Some(s) => Some(s@),
                None => None,
            },
            match home_dir {
                Some(s) => Some(s@),
                None => None,
            },
        ),
{
    match xdg_config_home {
        Some(dir) => dir.to_owned(),
        None => match home {
            Some(home) => join(home, ".config"),
            None => match home_dir {
                Some(dir) => dir.to_owned(),
                None => ".".to_owned(),
            },
        },
    }
}

/// The directory of templates below the configuration directory.
pub fn templates_dir(config_dir: &str) -> (dir: String)
    ensures
        dir@ == templates_dir_spec(config_dir@),
{
    let base = join(config_dir, "pudding");
    join(base.as_str(), "templates")
}

/// The directory of saved states below the configuration directory.
pub fn states_dir(config_dir: &str) -> (dir: String)
    ensures
        dir@ == states_dir_spec(config_dir@),
{
    let base = join(config_dir, "pudding");
    join(base.as_str(), "states")
}

} // verus!
