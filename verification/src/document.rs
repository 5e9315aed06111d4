//! A document as a file holds it, before it is taken for a template or a
//! configuration: numbers, texts, lists, and records of named fields. The
//! program reads and writes the file in the notation it likes and hands the
//! document over; what the fields are called and what they must hold is
//! decided here.

use crate::text::same_text;
use vstd::prelude::*;

verus! {

/// Why a document is not what it is taken for.
#[derive(Debug, Clone, Copy, PartialEq, Eq, Structural)]
pub enum DocumentError {
    /// Where a record must stand, there is something else.
    NotARecord,
    /// A field that must be there is not.
    MissingField,
    /// A field that must hold text holds something else.
    NotText,
    /// A field that must hold a number holds something else.
    NotNumber,
    /// An id is not a whole number from 0 to `u64::MAX`.
    NotAnId,
    /// The `type` of a node is neither `bite` nor `spoon`.
    UnknownKind,
    /// The `orientation` of a spoon is neither `vertical` nor `horizontal`.
    UnknownOrientation,
}

impl DocumentError {
    /// The error in words.
    pub open spec fn words(self) -> Seq<char> {
        match self {
            DocumentError::NotARecord => "expected a record"@,
            DocumentError::MissingField => "missing field"@,
            DocumentError::NotText => "expected text"@,
            DocumentError::NotNumber => "expected a number"@,
            DocumentError::NotAnId => "expected an id"@,
            DocumentError::UnknownKind => "unknown node type"@,
            DocumentError::UnknownOrientation => "unknown orientation"@,
        }
    }

    /// The error in words.
    pub fn message(&self) -> (text: &'static str)
        ensures
            text@ == self.words(),
    {
        match self {
            DocumentError::NotARecord => "expected a record",
            DocumentError::MissingField => "missing field",
            DocumentError::NotText => "expected text",
            DocumentError::NotNumber => "expected a number",
            DocumentError::NotAnId => "expected an id",
            DocumentError::UnknownKind => "unknown node type",
            DocumentError::UnknownOrientation => "unknown orientation",
        }
    }
}

/// A value in a document. A number is kept in millionths, so that `1` is
/// `1_000_000` and `0.5` is `500_000`.
#[derive(Debug, PartialEq, Eq)]
pub enum Value {
    Null,
    Bool(bool),
    Number(i128),
    Text(String),
    List(Vec<Value>),
    Record(Vec<(String, Value)>),
}

/// The mathematical value of a [`Value`].
pub ghost enum Doc {
    Null,
    Bool(bool),
    Number(i128),
    Text(Seq<char>),
    List(Seq<Doc>),
    Record(Seq<(Seq<char>, Doc)>),
}

impl Value {
    /// The document as a mathematical value.
    pub open spec fn doc(&self) -> Doc
        decreases self,
    {
        match self {
            Value::Null => Doc::Null,
            Value::Bool(b) => Doc::Bool(*b),
            Value::Number(n) => Doc::Number(*n),
            Value::Text(s) => Doc::Text(s@),
            Value::List(items) => Doc::List(
                Seq::new(
                    items@.len(),
                    |i: int|
                        if 0 <= i < items@.len() {
                            items@[i].doc()
                        } else {
                            Doc::Null
                        },
                ),
            ),
            Value::Record(fields) => Doc::Record(
                Seq::new(
                    fields@.len(),
                    |i: int|
                        if 0 <= i < fields@.len() {
                            (fields@[i].0@, fields@[i].1.doc())
                        } else {
                            (Seq::empty(), Doc::Null)
                        },
                ),
            ),
        }
    }
}

impl View for Value {
    type V = Doc;

    open spec fn view(&self) -> Doc {
        self.doc()
    }
}

/// What the last field of the given name holds, if there is one.
pub open spec fn field(fields: Seq<(Seq<char>, Doc)>, name: Seq<char>) -> Option<Doc>
    decreases fields.len(),
{
    if fields.len() == 0 {
        None
    } else if fields.last().0 == name {
        Some(fields.last().1)
    } else {
        field(fields.drop_last(), name)
    }
}

/// The last field of the given name in a record; nothing where the value is
/// no record or has no such field.
pub fn get<'a>(value: &'a Value, name: &str) -> (found: Option<&'a Value>)
    ensures
        match found {
            Some(held) => value@ matches Doc::Record(fields) && field(fields, name@) == Some(held@),
            None => value@ matches Doc::Record(fields) ==> field(fields, name@) is None,
        },
{
    match value {
        Value::Record(fields) => {
            let ghost all = value@->Record_0;
            let mut i: usize = fields.len();
            proof {
                assert(all.take(i as int) == all);
            }
            while i > 0
                invariant
                    i <= fields.len(),
                    value@ == Doc::Record(all),
                    all.len() == fields@.len(),
                    forall|j: int|
                        0 <= j < fields@.len() ==> all[j] == (fields@[j].0@, fields@[j].1@),
                    field(all, name@) == field(all.take(i as int), name@),
                decreases i,
            {
                let ghost upto = all.take(i as int);
                proof {
                    assert(upto.last() == all[i - 1]);
                    assert(upto.drop_last() == all.take(i - 1));
                }
                if same_text(fields[i - 1].0.as_str(), name) {
                    return Some(&fields[i - 1].1);
                }
                i -= 1;
            }
            None
        },
        _ => None,
    }
}

} // verus!
