//! A template as a document: which fields a template and its nodes have in
//! a file, and how a document is taken for a template again.
//!
//! A template is a record of `name` and `layout`. A node is a record whose
//! `type` is `bite` or `spoon`: a bite has `id`, `name` and `command`, a
//! spoon `id`, `orientation` (`vertical` or `horizontal`), `ratio`, `first`
//! and `second`. Fields that are not named here are passed over.

use crate::document::{field, get, Doc, DocumentError, Value};
use crate::model::{Direction, Node, Template, TemplateView, Tree};
use crate::text::same_text;
use vstd::prelude::*;

verus! {

/// One, in the millionths that a document keeps its numbers in.
pub const ONE: i128 = 1_000_000;

/// The text under which an orientation is written.
pub open spec fn orientation_name(orientation: Direction) -> Seq<char> {
    match orientation {
        Direction::Vertical => "vertical"@,
        Direction::Horizontal => "horizontal"@,
    }
}

/// A node as a document.
pub open spec fn node_doc(t: Tree) -> Doc
    decreases t,
{
    match t {
        Tree::Bite { id, name, command } => Doc::Record(
            seq![
                ("type"@, Doc::Text("bite"@)),
                ("id"@, Doc::Number((id * ONE) as i128)),
                ("name"@, Doc::Text(name)),
                ("command"@, Doc::Text(command)),
            ],
        ),
        Tree::Spoon { id, orientation, ratio, first, second } => Doc::Record(
            seq![
                ("type"@, Doc::Text("spoon"@)),
                ("id"@, Doc::Number((id * ONE) as i128)),
                ("orientation"@, Doc::Text(orientation_name(orientation))),
                ("ratio"@, Doc::Number(ratio as i128)),
                ("first"@, node_doc(*first)),
                ("second"@, node_doc(*second)),
            ],
        ),
    }
}

/// A template as a document.
pub open spec fn template_doc(template: TemplateView) -> Doc {
    Doc::Record(seq![("name"@, Doc::Text(template.name)), ("layout"@, node_doc(template.root))])
}

/// The text that a field of a record holds.
pub open spec fn text_field(fields: Seq<(Seq<char>, Doc)>, name: Seq<char>) -> Result<
    Seq<char>,
    DocumentError,
> {
    match field(fields, name) {
        None => Err(DocumentError::MissingField),
        Some(Doc::Text(text)) => Ok(text),
        Some(_) => Err(DocumentError::NotText),
    }
}

/// The number that a field of a record holds, in millionths.
pub open spec fn number_field(fields: Seq<(Seq<char>, Doc)>, name: Seq<char>) -> Result<
    i128,
    DocumentError,
> {
    match field(fields, name) {
        None => Err(DocumentError::MissingField),
        Some(Doc::Number(n)) => Ok(n),
        Some(_) => Err(DocumentError::NotNumber),
    }
}

/// The id that the field `id` of a record holds.
pub open spec fn id_field(fields: Seq<(Seq<char>, Doc)>) -> Result<u64, DocumentError> {
    match number_field(fields, "id"@) {
        Err(e) => Err(e),
        Ok(n) => if n >= 0 && n % ONE == 0 && n / ONE <= u64::MAX {
            Ok((n / ONE) as u64)
        } else {
            Err(DocumentError::NotAnId)
        },
    }
}

/// A number of a document as a ratio: numbers beyond what a ratio can hold
/// are taken for the greatest or the least that it can.
pub open spec fn ratio_of(n: i128) -> i64 {
    if n > i64::MAX {
        i64::MAX
    } else if n < i64::MIN {
        i64::MIN
    } else {
        n as i64
    }
}

/// The orientation that a text names.
pub open spec fn orientation_of(text: Seq<char>) -> Result<Direction, DocumentError> {
    if text == "vertical"@ {
        Ok(Direction::Vertical)
    } else if text == "horizontal"@ {
        Ok(Direction::Horizontal)
    } else {
        Err(DocumentError::UnknownOrientation)
    }
}

/// The place of the last field of the given name, if there is one.
pub open spec fn field_at(fields: Seq<(Seq<char>, Doc)>, name: Seq<char>) -> Option<int>
    decreases fields.len(),
{
    if fields.len() == 0 {
        None
    } else if fields.last().0 == name {
        Some(fields.len() - 1)
    } else {
        field_at(fields.drop_last(), name)
    }
}

/// The node that a document stands for, or why it stands for none. The
/// fields are looked at in the order `type`, `id`, and then for a bite
/// `name` and `command`, for a spoon `orientation`, `ratio`, `first` and
/// `second`; the first fault met is the one reported.
pub open spec fn doc_node(d: Doc) -> Result<Tree, DocumentError>
    decreases d, 1int,
{
    match d {
        Doc::Record(fields) => match text_field(fields, "type"@) {
            Err(e) => Err(e),
            Ok(kind) => if kind == "bite"@ {
                match id_field(fields) {
                    Err(e) => Err(e),
                    Ok(id) => match text_field(fields, "name"@) {
                        Err(e) => Err(e),
                        Ok(name) => match text_field(fields, "command"@) {
                            Err(e) => Err(e),
                            Ok(command) => Ok(Tree::Bite { id, name, command }),
                        },
                    },
                }
            } else if kind == "spoon"@ {
                match id_field(fields) {
                    Err(e) => Err(e),
                    Ok(id) => match text_field(fields, "orientation"@) {
                        Err(e) => Err(e),
                        Ok(name) => match orientation_of(name) {
                            Err(e) => Err(e),
                            Ok(orientation) => match number_field(fields, "ratio"@) {
                                Err(e) => Err(e),
                                Ok(ratio) => match child(d, fields, "first"@) {
                                    Err(e) => Err(e),
                                    Ok(first) => match child(d, fields, "second"@) {
                                        Err(e) => Err(e),
                                        Ok(second) => Ok(
                                            Tree::Spoon {
                                                id,
                                                orientation,
                                                ratio: ratio_of(ratio),
                                                first: Box::new(first),
                                                second: Box::new(second),
                                            },
                                        ),
                                    },
                                },
                            },
                        },
                    },
                }
            } else {
                Err(DocumentError::UnknownKind)
            },
        },
        _ => Err(DocumentError::NotARecord),
    }
}

/// The node that the field `name` of the record `d` stands for.
pub open spec fn child(d: Doc, fields: Seq<(Seq<char>, Doc)>, name: Seq<char>) -> Result<
    Tree,
    DocumentError,
>
    decreases d, 0int,
{
    match field_at(fields, name) {
        None => Err(DocumentError::MissingField),
        Some(i) => if d == Doc::Record(fields) && 0 <= i < fields.len() {
            proof {
                assert(decreases_to!(d => d->Record_0));
                assert(decreases_to!(fields => fields[i]));
                assert(decreases_to!(fields[i] => fields[i].1));
            }
            doc_node(fields[i].1)
        } else {
            Err(DocumentError::NotARecord)
        },
    }
}

/// The template that a document stands for, or why it stands for none.
pub open spec fn doc_template(d: Doc) -> Result<TemplateView, DocumentError> {
    match d {
        Doc::Record(fields) => match text_field(fields, "name"@) {
            Err(e) => Err(e),
            Ok(name) => match child(d, fields, "layout"@) {
                Err(e) => Err(e),
                Ok(root) => Ok(TemplateView { name, root }),
            },
        },
        _ => Err(DocumentError::NotARecord),
    }
}

/// The last field of a name is the field at the place of the last field of
/// that name.
pub proof fn lemma_field_at(fields: Seq<(Seq<char>, Doc)>, name: Seq<char>)
    ensures
        match field_at(fields, name) {
            Some(i) => 0 <= i < fields.len() && field(fields, name) == Some(fields[i].1),
            None => field(fields, name) is None,
        },
    decreases fields.len(),
{
    if fields.len() > 0 && fields.last().0 != name {
        lemma_field_at(fields.drop_last(), name);
    }
}

fn text(s: &str) -> (value: Value)
    ensures
        value@ == Doc::Text(s@),
{
    Value::Text(s.to_owned())
}

fn named(name: &str, value: Value) -> (entry: (String, Value))
    ensures
        entry.0@ == name@,
        entry.1 == value,
{
    (name.to_owned(), value)
}

fn number(n: i128) -> (value: Value)
    ensures
        value@ == Doc::Number(n),
{
    Value::Number(n)
}

fn id_value(id: u64) -> (value: Value)
    ensures
        value@ == Doc::Number((id * ONE) as i128),
{
    Value::Number((id as i128) * ONE)
}

/// A node as a document.
pub fn node_to_value(node: &Node) -> (value: Value)
    ensures
        value@ == node_doc(node@),
    decreases node,
{
    match node {
        Node::Bite { id, name, command } => {
            let mut fields: Vec<(String, Value)> = Vec::new();
            fields.push(named("type", text("bite")));
            fields.push(named("id", id_value(*id)));
            fields.push(named("name", text(name.as_str())));
            fields.push(named("command", text(command.as_str())));
            let value = Value::Record(fields);
            assert(value@->Record_0 =~= node_doc(node@)->Record_0);
            value
        },
        Node::Spoon { id, orientation, ratio, first, second } => {
            let mut fields: Vec<(String, Value)> = Vec::new();
            fields.push(named("type", text("spoon")));
            fields.push(named("id", id_value(*id)));
            fields.push(
                named(
                    "orientation",
                    match orientation {
                        Direction::Vertical => text("vertical"),
                        Direction::Horizontal => text("horizontal"),
                    },
                ),
            );
            fields.push(named("ratio", number(*ratio as i128)));
            fields.push(named("first", node_to_value(first)));
            fields.push(named("second", node_to_value(second)));
            let value = Value::Record(fields);
            assert(value@->Record_0 =~= node_doc(node@)->Record_0);
            value
        },
    }
}

/// A template as a document.
pub fn template_to_value(template: &Template) -> (value: Value)
    ensures
        value@ == template_doc(template@),
{
    let mut fields: Vec<(String, Value)> = Vec::new();
    fields.push(named("name", text(template.name.as_str())));
    fields.push(named("layout", node_to_value(&template.root)));
    let value = Value::Record(fields);
    assert(value@->Record_0 =~= template_doc(template@)->Record_0);
    value
}

fn get_text(value: &Value, name: &str) -> (r: Result<String, DocumentError>)
    requires
        value@ is Record,
    ensures
        match r {
            Ok(s) => text_field(value@->Record_0, name@) == Ok::<Seq<char>, DocumentError>(s@),
            Err(e) => text_field(value@->Record_0, name@) == Err::<Seq<char>, DocumentError>(e),
        },
{
    match get(value, name) {
        None => Err(DocumentError::MissingField),
        Some(Value::Text(s)) => Ok(s.clone()),
        Some(_) => Err(DocumentError::NotText),
    }
}

fn get_number(value: &Value, name: &str) -> (r: Result<i128, DocumentError>)
    requires
        value@ is Record,
    ensures
        r == number_field(value@->Record_0, name@),
{
    match get(value, name) {
        None => Err(DocumentError::MissingField),
        Some(Value::Number(n)) => Ok(*n),
        Some(_) => Err(DocumentError::NotNumber),
    }
}

fn get_id(value: &Value) -> (r: Result<u64, DocumentError>)
    requires
        value@ is Record,
    ensures
        r == id_field(value@->Record_0),
{
    match get_number(value, "id") {
        Err(e) => Err(e),
        Ok(n) => {
            if n >= 0 && n % ONE == 0 && n / ONE <= u64::MAX as i128 {
                Ok((n / ONE) as u64)
            } else {
                Err(DocumentError::NotAnId)
            }
        },
    }
}

fn to_ratio(n: i128) -> (ratio: i64)
    ensures
        ratio == ratio_of(n),
{
    if n > i64::MAX as i128 {
        i64::MAX
    } else if n < i64::MIN as i128 {
        i64::MIN
    } else {
        n as i64
    }
}

fn to_orientation(name: &str) -> (r: Result<Direction, DocumentError>)
    ensures
        r == orientation_of(name@),
{
    if same_text(name, "vertical") {
        Ok(Direction::Vertical)
    } else if same_text(name, "horizontal") {
        Ok(Direction::Horizontal)
    } else {
        Err(DocumentError::UnknownOrientation)
    }
}

fn get_child(value: &Value, name: &str) -> (r: Result<Node, DocumentError>)
    requires
        value@ is Record,
    ensures
        match r {
            Ok(node) => child(value@, value@->Record_0, name@) == Ok::<Tree, DocumentError>(node@),
            Err(e) => child(value@, value@->Record_0, name@) == Err::<Tree, DocumentError>(e),
        },
    decreases value, 0int,
{
    proof {
        lemma_field_at(value@->Record_0, name@);
    }
    match value {
        Value::Record(fields) => {
            let mut i: usize = fields.len();
            let ghost all = value@->Record_0;
            proof {
                assert(all.take(i as int) == all);
            }
            while i > 0
                invariant
                    i <= fields.len(),
                    value@ == Doc::Record(all),
                    all.len() == fields@.len(),
                    value == Value::Record(*fields),
                    forall|j: int|
                        0 <= j < fields@.len() ==> all[j] == (fields@[j].0@, fields@[j].1@),
                    match field_at(all.take(i as int), name@) {
                        Some(at) => field_at(all, name@) == Some(at),
                        None => field_at(all, name@) is None,
                    },
                decreases i,
            {
                let ghost upto = all.take(i as int);
                proof {
                    assert(upto.last() == all[i - 1]);
                    assert(upto.drop_last() == all.take(i - 1));
                }
                if same_text(fields[i - 1].0.as_str(), name) {
                    proof {
                        assert(decreases_to!(value => fields));
                        assert(decreases_to!(fields => fields@));
                        assert(decreases_to!(fields@ => fields@[i - 1]));
                        assert(decreases_to!(fields@[i - 1] => fields@[i - 1].1));
                    }
                    return node_from_value(&fields[i - 1].1);
                }
                i -= 1;
            }
            Err(DocumentError::MissingField)
        },
        _ => Err(DocumentError::NotARecord),
    }
}

/// Takes a document for a node.
pub fn node_from_value(value: &Value) -> (r: Result<Node, DocumentError>)
    ensures
        match r {
            Ok(node) => doc_node(value@) == Ok::<Tree, DocumentError>(node@),
            Err(e) => doc_node(value@) == Err::<Tree, DocumentError>(e),
        },
    decreases value, 1int,
{
    match value {
        Value::Record(_) => {},
        _ => {
            return Err(DocumentError::NotARecord);
        },
    }
    let kind = match get_text(value, "type") {
        Err(e) => {
            return Err(e);
        },
        Ok(kind) => kind,
    };
    if same_text(kind.as_str(), "bite") {
        let id = match get_id(value) {
            Err(e) => {
                return Err(e);
            },
            Ok(id) => id,
        };
        let name = match get_text(value, "name") {
            Err(e) => {
                return Err(e);
            },
            Ok(name) => name,
        };
        let command = match get_text(value, "command") {
            Err(e) => {
                return Err(e);
            },
            Ok(command) => command,
        };
        Ok(Node::Bite { id, name, command })
    } else if same_text(kind.as_str(), "spoon") {
        let id = match get_id(value) {
            Err(e) => {
                return Err(e);
            },
            Ok(id) => id,
        };
        let written = match get_text(value, "orientation") {
            Err(e) => {
                return Err(e);
            },
            Ok(written) => written,
        };
        let orientation = match to_orientation(written.as_str()) {
            Err(e) => {
                return Err(e);
            },
            Ok(orientation) => orientation,
        };
        let ratio = match get_number(value, "ratio") {
            Err(e) => {
                return Err(e);
            },
            Ok(ratio) => ratio,
        };
        let first = match get_child(value, "first") {
            Err(e) => {
                return Err(e);
            },
            Ok(first) => first,
        };
        let second = match get_child(value, "second") {
            Err(e) => {
                return Err(e);
            },
            Ok(second) => second,
        };
        Ok(
            Node::Spoon {
                id,
                orientation,
                ratio: to_ratio(ratio),
                first: Box::new(first),
                second: Box::new(second),
            },
        )
    } else {
        Err(DocumentError::UnknownKind)
    }
}

/// Takes a document for a template. Whether the template is a valid one is
/// not looked at here.
pub fn template_from_value(value: &Value) -> (r: Result<Template, DocumentError>)
    ensures
        match r {
            Ok(template) => doc_template(value@) == Ok::<TemplateView, DocumentError>(template@),
            Err(e) => doc_template(value@) == Err::<TemplateView, DocumentError>(e),
        },
{
    match value {
        Value::Record(_) => {},
        _ => {
            return Err(DocumentError::NotARecord);
        },
    }
    let name = match get_text(value, "name") {
        Err(e) => {
            return Err(e);
        },
        Ok(name) => name,
    };
    match get_child(value, "layout") {
        Err(e) => Err(e),
        Ok(root) => Ok(Template { name, root }),
    }
}

/// A field that no later field has the name of is the one found under its
/// name.
pub proof fn lemma_field_found(fields: Seq<(Seq<char>, Doc)>, name: Seq<char>, at: int)
    requires
        0 <= at < fields.len(),
        fields[at].0 == name,
        forall|j: int| at < j < fields.len() ==> fields[j].0 != name,
    ensures
        field(fields, name) == Some(fields[at].1),
        field_at(fields, name) == Some(at),
    decreases fields.len(),
{
    if at < fields.len() - 1 {
        lemma_field_found(fields.drop_last(), name, at);
    }
}

/// The names of the fields and the words of a template's document: their
/// lengths and first letters, which tell them apart.
proof fn lemma_words()
    ensures
        "type"@.len() == 4 && "type"@[0] == 't',
        "id"@.len() == 2,
        "name"@.len() == 4 && "name"@[0] == 'n',
        "command"@.len() == 7,
        "orientation"@.len() == 11,
        "ratio"@.len() == 5 && "ratio"@[0] == 'r',
        "first"@.len() == 5 && "first"@[0] == 'f',
        "second"@.len() == 6,
        "layout"@.len() == 6,
        "bite"@.len() == 4,
        "spoon"@.len() == 5,
        "vertical"@.len() == 8,
        "horizontal"@.len() == 10,
{
    reveal_strlit("type");
    reveal_strlit("id");
    reveal_strlit("name");
    reveal_strlit("command");
    reveal_strlit("orientation");
    reveal_strlit("ratio");
    reveal_strlit("first");
    reveal_strlit("second");
    reveal_strlit("layout");
    reveal_strlit("bite");
    reveal_strlit("spoon");
    reveal_strlit("vertical");
    reveal_strlit("horizontal");
}

/// A node written as a document is read as the same node.
pub proof fn lemma_node_round_trip(t: Tree)
    ensures
        doc_node(node_doc(t)) == Ok::<Tree, DocumentError>(t),
    decreases t,
{
    lemma_words();
    let d = node_doc(t);
    let fields = d->Record_0;
    match t {
        Tree::Bite { id, name, command } => {
            lemma_field_found(fields, "type"@, 0);
            lemma_field_found(fields, "id"@, 1);
            lemma_field_found(fields, "name"@, 2);
            lemma_field_found(fields, "command"@, 3);
            assert(id_field(fields) == Ok::<u64, DocumentError>(id));
        },
        Tree::Spoon { id, orientation, ratio, first, second } => {
            lemma_field_found(fields, "type"@, 0);
            lemma_field_found(fields, "id"@, 1);
            lemma_field_found(fields, "orientation"@, 2);
            lemma_field_found(fields, "ratio"@, 3);
            lemma_field_found(fields, "first"@, 4);
            lemma_field_found(fields, "second"@, 5);
            lemma_node_round_trip(*first);
            lemma_node_round_trip(*second);
            assert(id_field(fields) == Ok::<u64, DocumentError>(id));
            assert(orientation_of(orientation_name(orientation)) == Ok::<Direction, DocumentError>(
                orientation,
            ));
            assert(child(d, fields, "first"@) == Ok::<Tree, DocumentError>(*first));
            assert(child(d, fields, "second"@) == Ok::<Tree, DocumentError>(*second));
        },
    }
}

/// A template written as a document is read as the same template: nothing
/// is lost between writing and reading, whatever the template holds.
pub proof fn lemma_template_round_trip(template: TemplateView)
    ensures
        doc_template(template_doc(template)) == Ok::<TemplateView, DocumentError>(template),
{
    lemma_words();
    let d = template_doc(template);
    let fields = d->Record_0;
    lemma_field_found(fields, "name"@, 0);
    lemma_field_found(fields, "layout"@, 1);
    lemma_node_round_trip(template.root);
}

} // verus!
