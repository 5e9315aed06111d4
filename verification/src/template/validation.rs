//! What the store accepts: names that are safe as file names, and trees that
//! keep the layout invariant.

use crate::layout::geometry::{MAX_RATIO, MIN_RATIO};
use crate::model::{Node, Template, TemplateView, Tree};
use crate::text::{blank, chars_of, is_blank};
use std::collections::HashSet;
use vstd::prelude::*;
use vstd::utf8::{encode_utf8, is_ascii_chars, is_ascii_chars_encode_utf8};

verus! {

/// Why a name or a tree is refused. Where several hold, the one reported is
/// the first met: the name before the tree, and in the tree each node before
/// its children, the first child before the second.
#[derive(Debug, Clone, Copy, PartialEq, Eq, Structural)]
pub enum ValidationError {
    /// The name is empty or longer than 64 bytes.
    NameLength,
    /// The name holds a character outside `[A-Za-z0-9_-]`.
    NameCharset,
    /// Two nodes have the same id.
    DuplicateId,
    /// A bite's name is blank.
    EmptyName,
    /// A bite's command is blank.
    EmptyCommand,
    /// A spoon's ratio lies outside `[MIN_RATIO, MAX_RATIO]`.
    RatioOutOfRange,
}

impl ValidationError {
    /// The error in words.
    pub open spec fn words(self) -> Seq<char> {
        match self {
            ValidationError::NameLength => "name must be 1..=64 chars"@,
            ValidationError::NameCharset => "name supports only [A-Za-z0-9_-]"@,
            ValidationError::DuplicateId => "node id must be unique"@,
            ValidationError::EmptyName => "bite name must not be empty"@,
            ValidationError::EmptyCommand => "bite command must not be empty"@,
            ValidationError::RatioOutOfRange => "spoon ratio must be in [0.1,0.9]"@,
        }
    }

    /// The error in words.
    pub fn message(&self) -> (text: &'static str)
        ensures
            text@ == self.words(),
    {
        match self {
            ValidationError::NameLength => "name must be 1..=64 chars",
            ValidationError::NameCharset => "name supports only [A-Za-z0-9_-]",
            ValidationError::DuplicateId => "node id must be unique",
            ValidationError::EmptyName => "bite name must not be empty",
            ValidationError::EmptyCommand => "bite command must not be empty",
            ValidationError::RatioOutOfRange => "spoon ratio must be in [0.1,0.9]",
        }
    }
}

/// A character that a name may hold: an ASCII letter or digit, `-` or `_`.
pub open spec fn name_char(c: char) -> bool {
    ||| 'a' <= c <= 'z'
    ||| 'A' <= c <= 'Z'
    ||| '0' <= c <= '9'
    ||| c == '-'
    ||| c == '_'
}

/// The length of a string in bytes, as UTF-8.
pub open spec fn byte_len(s: Seq<char>) -> nat {
    encode_utf8(s).len()
}

/// What is wrong with a name, if anything: its length in bytes is checked
/// first, then its characters.
pub open spec fn name_fault(name: Seq<char>) -> Option<ValidationError> {
    if byte_len(name) == 0 || byte_len(name) > 64 {
        Some(ValidationError::NameLength)
    } else if exists|i: int| 0 <= i < name.len() && !name_char(#[trigger] name[i]) {
        Some(ValidationError::NameCharset)
    } else {
        None
    }
}

/// A name is accepted exactly when it has between 1 and 64 characters, each
/// of them an ASCII letter or digit, `-` or `_`.
pub proof fn lemma_valid_name(name: Seq<char>)
    ensures
        name_fault(name) is None <==> (1 <= name.len() <= 64 && forall|i: int|
            0 <= i < name.len() ==> name_char(#[trigger] name[i])),
{
    if forall|i: int| 0 <= i < name.len() ==> name_char(#[trigger] name[i]) {
        assert(is_ascii_chars(name));
        is_ascii_chars_encode_utf8(name);
    }
}

/// What is wrong with a tree, if anything, given the ids `seen` before it.
pub open spec fn tree_fault(t: Tree, seen: Set<u64>) -> Option<ValidationError>
    decreases t,
{
    if seen.contains(t.id()) {
        Some(ValidationError::DuplicateId)
    } else {
        match t {
            Tree::Bite { name, command, .. } => {
                if blank(name) {
                    Some(ValidationError::EmptyName)
                } else if blank(command) {
                    Some(ValidationError::EmptyCommand)
                } else {
                    None
                }
            },
            Tree::Spoon { id, ratio, first, second, .. } => {
                if !(MIN_RATIO <= ratio <= MAX_RATIO) {
                    Some(ValidationError::RatioOutOfRange)
                } else {
                    match tree_fault(*first, seen.insert(id)) {
                        Some(fault) => Some(fault),
                        None => tree_fault(*second, seen.insert(id) + first.ids().to_set()),
                    }
                }
            },
        }
    }
}

/// What is wrong with a template, if anything.
pub open spec fn template_fault(template: TemplateView) -> Option<ValidationError> {
    match name_fault(template.name) {
        Some(fault) => Some(fault),
        None => tree_fault(template.root, Set::empty()),
    }
}

/// A tree has no fault, given the ids seen before it, exactly when it is
/// well formed, holds no id twice, and holds none of the ids seen.
pub proof fn lemma_tree_fault(t: Tree, seen: Set<u64>)
    ensures
        tree_fault(t, seen) is None <==> {
            &&& t.well_formed()
            &&& t.ids().no_duplicates()
            &&& forall|x: u64| t.has_id(x) ==> !seen.contains(x)
        },
    decreases t,
{
    match t {
        Tree::Bite { id, .. } => {
            crate::layout::ids::lemma_bite_ids(t, id);
            assert forall|x: u64| t.has_id(x) <==> x == id by {
                crate::layout::ids::lemma_bite_ids(t, x);
            }
        },
        Tree::Spoon { id, first, second, .. } => {
            let seen1 = seen.insert(id);
            let seen2 = seen1 + first.ids().to_set();
            lemma_tree_fault(*first, seen1);
            lemma_tree_fault(*second, seen2);
            crate::layout::ids::lemma_spoon_distinct(t);
            crate::layout::ids::lemma_spoon_ids(t, id);
            assert forall|x: u64|
                t.has_id(x) <==> (x == id || first.has_id(x) || second.has_id(x)) by {
                crate::layout::ids::lemma_spoon_ids(t, x);
            }
            assert forall|x: u64| seen2.contains(x) <==> (seen.contains(x) || x == id
                || first.has_id(x)) by {
                assert(first.ids().to_set().contains(x) <==> first.ids().contains(x));
            }
        },
    }
}

/// A template has no fault exactly when its name is accepted and its tree is
/// valid.
pub proof fn lemma_template_fault(template: TemplateView)
    ensures
        template_fault(template) is None <==> (name_fault(template.name) is None
            && template.root.valid()),
{
    lemma_tree_fault(template.root, Set::empty());
}

fn is_name_char(c: char) -> (r: bool)
    ensures
        r == name_char(c),
{
    ('a' <= c && c <= 'z') || ('A' <= c && c <= 'Z') || ('0' <= c && c <= '9') || c == '-' || c
        == '_'
}

/// Checks a name under which a template or a state is stored: 1 to 64
/// characters of `[A-Za-z0-9_-]`, so that it names one file and no path.
pub fn validate_store_name(name: &str) -> (r: Result<(), ValidationError>)
    ensures
        match r {
            Ok(()) => name_fault(name@) is None,
            Err(e) => name_fault(name@) == Some(e),
        },
{
    let bytes = name.as_bytes().len();
    if bytes == 0 || bytes > 64 {
        return Err(ValidationError::NameLength);
    }
    let chars = chars_of(name);
    let mut i: usize = 0;
    while i < chars.len()
        invariant
            i <= chars.len(),
            chars@ == name@,
            1 <= byte_len(name@) <= 64,
            forall|j: int| 0 <= j < i ==> name_char(#[trigger] chars@[j]),
        decreases chars.len() - i,
    {
        if !is_name_char(chars[i]) {
            assert(!name_char(name@[i as int]));
            return Err(ValidationError::NameCharset);
        }
        i += 1;
    }
    Ok(())
}

fn validate_node(node: &Node, ids: &mut HashSet<u64>) -> (r: Result<(), ValidationError>)
    ensures
        match r {
            Ok(()) => tree_fault(node@, old(ids)@) is None && final(ids)@ == old(ids)@
                + node@.ids().to_set(),
            Err(e) => tree_fault(node@, old(ids)@) == Some(e),
        },
    decreases node,
{
    broadcast use vstd::std_specs::hash::group_hash_axioms;

    if !ids.insert(node.id()) {
        return Err(ValidationError::DuplicateId);
    }
    match node {
        Node::Bite { id, name, command } => {
            if is_blank(name.as_str()) {
                return Err(ValidationError::EmptyName);
            }
            if is_blank(command.as_str()) {
                return Err(ValidationError::EmptyCommand);
            }
            assert(ids@ =~= old(ids)@ + node@.ids().to_set()) by {
                assert forall|x: u64| node@.ids().to_set().contains(x) <==> x == *id by {
                    crate::layout::ids::lemma_bite_ids(node@, x);
                }
            }
            Ok(())
        },
        Node::Spoon { id, ratio, first, second, .. } => {
            if !(*ratio >= MIN_RATIO && *ratio <= MAX_RATIO) {
                return Err(ValidationError::RatioOutOfRange);
            }
            match validate_node(first, ids) {
                Err(e) => {
                    return Err(e);
                },
                Ok(()) => {},
            }
            let r = validate_node(second, ids);
            proof {
                if r is Ok {
                    assert(ids@ =~= old(ids)@ + node@.ids().to_set()) by {
                        assert forall|x: u64|
                            node@.ids().to_set().contains(x) <==> (x == *id || first@.ids().to_set().contains(
                                x,
                            ) || second@.ids().to_set().contains(x)) by {
                            crate::layout::ids::lemma_spoon_ids(node@, x);
                        }
                    }
                }
            }
            r
        },
    }
}

/// Checks a template: its name as [`validate_store_name`] does, then its
/// tree for ids that occur twice, blank names and commands, and ratios out
/// of range. It is accepted exactly when the name is and the tree is valid.
pub fn validate_template(template: &Template) -> (r: Result<(), ValidationError>)
    ensures
        match r {
            Ok(()) => template_fault(template@) is None,
            Err(e) => template_fault(template@) == Some(e),
        },
        r is Ok <==> (name_fault(template@.name) is None && template@.root.valid()),
{
    proof {
        lemma_template_fault(template@);
    }
    match validate_store_name(template.name.as_str()) {
        Err(e) => {
            return Err(e);
        },
        Ok(()) => {},
    }
    let mut ids: HashSet<u64> = HashSet::new();
    validate_node(&template.root, &mut ids)
}

} // verus!
