//! The rules of the template store: which names and trees it accepts, where
//! each template and saved state is kept, and how a template stands in a
//! file.

pub mod document;
pub mod io;
pub mod validation;

pub use document::{node_from_value, node_to_value, template_from_value, template_to_value};
pub use io::{
    state_loaded, state_path, state_to_load, state_to_save, template_loaded, template_path,
    template_to_load, template_to_save, LoadError,
};
pub use validation::{validate_store_name, validate_template, ValidationError};
