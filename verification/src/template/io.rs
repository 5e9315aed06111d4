//! Where templates and saved states are kept, and what passes between the
//! store and the disk: the checks made before a file is looked for, the
//! document that is written, and what a document that was read is taken
//! for. Reading and writing the file itself is the program's part.

use super::document::{
    doc_template, lemma_template_round_trip, template_doc, template_from_value, template_to_value,
};
use super::validation::{
    name_fault, template_fault, validate_store_name, validate_template, ValidationError,
};
use crate::document::{Doc, DocumentError, Value};
use crate::model::{default_template, single_bite, Template, TemplateView};
use crate::paths::{
    file_name, join, joined, states_dir, states_dir_spec, templates_dir, templates_dir_spec,
};
use vstd::prelude::*;

verus! {

/// Why a document that was read gives no template.
#[derive(Debug, Clone, Copy, PartialEq, Eq, Structural)]
pub enum LoadError {
    /// The document is not that of a template.
    Document(DocumentError),
    /// The document is that of a template, which is not accepted.
    Invalid(ValidationError),
}

impl LoadError {
    /// The error in words: those of the fault it holds.
    pub open spec fn words(self) -> Seq<char> {
        match self {
            LoadError::Document(e) => e.words(),
            LoadError::Invalid(e) => e.words(),
        }
    }

    /// The error in words.
    pub fn message(&self) -> (text: &'static str)
        ensures
            text@ == self.words(),
    {
        match self {
            LoadError::Document(e) => e.message(),
            LoadError::Invalid(e) => e.message(),
        }
    }
}

/// The file of the template `name` below the configuration directory.
pub open spec fn template_path_spec(config_dir: Seq<char>, name: Seq<char>) -> Seq<char> {
    joined(templates_dir_spec(config_dir), file_name(name))
}

/// The file of the saved state `name` below the configuration directory.
pub open spec fn state_path_spec(config_dir: Seq<char>, name: Seq<char>) -> Seq<char> {
    joined(states_dir_spec(config_dir), file_name(name))
}

/// The document that is written for a template: none unless the template
/// is accepted.
pub open spec fn written(template: TemplateView) -> Result<Doc, ValidationError> {
    match template_fault(template) {
        Some(fault) => Err(fault),
        None => Ok(template_doc(template)),
    }
}

/// The template that a document is read as: the document must be that of a
/// template, and the template must be accepted.
pub open spec fn read(document: Doc) -> Result<TemplateView, LoadError> {
    match doc_template(document) {
        Err(e) => Err(LoadError::Document(e)),
        Ok(template) => match template_fault(template) {
            Some(fault) => Err(LoadError::Invalid(fault)),
            None => Ok(template),
        },
    }
}

/// What is wrong with saving `template` as the state `name`, if anything:
/// the state's name is checked first, then the template.
pub open spec fn state_fault(name: Seq<char>, template: TemplateView) -> Option<ValidationError> {
    match name_fault(name) {
        Some(fault) => Some(fault),
        None => template_fault(template),
    }
}

/// What was saved is what is loaded: a template that is accepted is written
/// as a document that is read as the same template, with its names, ids,
/// orientations, ratios and commands.
pub proof fn lemma_save_then_load(template: TemplateView)
    requires
        template_fault(template) is None,
    ensures
        written(template) matches Ok(document) && read(document) == Ok::<TemplateView, LoadError>(
            template,
        ),
{
    lemma_template_round_trip(template);
}

/// The file of the template `name` below the configuration directory.
pub fn template_path(config_dir: &str, name: &str) -> (path: String)
    ensures
        path@ == template_path_spec(config_dir@, name@),
{
    let dir = templates_dir(config_dir);
    let mut file = name.to_owned();
    file.append(".json");
    join(dir.as_str(), file.as_str())
}

/// The file of the saved state `name` below the configuration directory.
pub fn state_path(config_dir: &str, name: &str) -> (path: String)
    ensures
        path@ == state_path_spec(config_dir@, name@),
{
    let dir = states_dir(config_dir);
    let mut file = name.to_owned();
    file.append(".json");
    join(dir.as_str(), file.as_str())
}

/// Before a template is loaded: checks the name and gives the file to look
/// for.
pub fn template_to_load(config_dir: &str, name: &str) -> (r: Result<String, ValidationError>)
    ensures
        match r {
            Ok(path) => name_fault(name@) is None && path@ == template_path_spec(
                config_dir@,
                name@,
            ),
            Err(e) => name_fault(name@) == Some(e),
        },
{
    match validate_store_name(name) {
        Err(e) => Err(e),
        Ok(()) => Ok(template_path(config_dir, name)),
    }
}

fn read_document(document: &Value) -> (r: Result<Template, LoadError>)
    ensures
        match r {
            Ok(template) => read(document@) == Ok::<TemplateView, LoadError>(template@),
            Err(e) => read(document@) == Err::<TemplateView, LoadError>(e),
        },
{
    match template_from_value(document) {
        Err(e) => Err(LoadError::Document(e)),
        Ok(template) => match validate_template(&template) {
            Err(e) => Err(LoadError::Invalid(e)),
            Ok(()) => Ok(template),
        },
    }
}

/// After a template's file was looked for: where there was none, the
/// default template takes its place; a document that was read is taken for
/// a template and checked.
pub fn template_loaded(found: Option<&Value>) -> (r: Result<Template, LoadError>)
    ensures
        match found {
            None => r matches Ok(template) && template@ == (TemplateView {
                name: "default"@,
                root: single_bite("bash"@),
            }),
            Some(document) => match r {
                Ok(template) => read(document@) == Ok::<TemplateView, LoadError>(template@),
                Err(e) => read(document@) == Err::<TemplateView, LoadError>(e),
            },
        },
{
    match found {
        None => Ok(default_template()),
        Some(document) => read_document(document),
    }
}

/// Before a template is saved: checks its name and its tree and gives the
/// file to write and the document to write in it.
pub fn template_to_save(config_dir: &str, template: &Template) -> (r: Result<
    (String, Value),
    ValidationError,
>)
    ensures
        match r {
            Ok(file) => written(template@) == Ok::<Doc, ValidationError>(file.1@) && file.0@
                == template_path_spec(config_dir@, template@.name),
            Err(e) => written(template@) == Err::<Doc, ValidationError>(e),
        },
{
    match validate_template(template) {
        Err(e) => Err(e),
        Ok(()) => Ok(
            (template_path(config_dir, template.name.as_str()), template_to_value(template)),
        ),
    }
}

/// Before a state is loaded: checks the name and gives the file to read.
pub fn state_to_load(config_dir: &str, name: &str) -> (r: Result<String, ValidationError>)
    ensures
        match r {
            Ok(path) => name_fault(name@) is None && path@ == state_path_spec(config_dir@, name@),
            Err(e) => name_fault(name@) == Some(e),
        },
{
    match validate_store_name(name) {
        Err(e) => Err(e),
        Ok(()) => Ok(state_path(config_dir, name)),
    }
}

/// After a state's file was looked for: as with a template, the default
/// template takes the place of a file that is not there, and a document that
/// was read is taken for a template and checked.
pub fn state_loaded(found: Option<&Value>) -> (r: Result<Template, LoadError>)
    ensures
        match found {
            None => r matches Ok(template) && template@ == (TemplateView {
                name: "default"@,
                root: single_bite("bash"@),
            }),
            Some(document) => match r {
                Ok(template) => read(document@) == Ok::<TemplateView, LoadError>(template@),
                Err(e) => read(document@) == Err::<TemplateView, LoadError>(e),
            },
        },
{
    match found {
        None => Ok(default_template()),
        Some(document) => read_document(document),
    }
}

/// Before a state is saved: checks the state's name and the template and
/// gives the file to write and the document to write in it.
pub fn state_to_save(config_dir: &str, name: &str, template: &Template) -> (r: Result<
    (String, Value),
    ValidationError,
>)
    ensures
        match r {
            Ok(file) => state_fault(name@, template@) is None && file.1@ == template_doc(
                template@,
            ) && file.0@ == state_path_spec(config_dir@, name@),
            Err(e) => state_fault(name@, template@) == Some(e),
        },
{
    match validate_store_name(name) {
        Err(e) => {
            return Err(e);
        },
        Ok(()) => {},
    }
    match validate_template(template) {
        Err(e) => Err(e),
        Ok(()) => Ok((state_path(config_dir, name), template_to_value(template))),
    }
}

} // verus!
