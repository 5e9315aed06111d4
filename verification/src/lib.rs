//! The core of a minimal terminal pane multiplexer: the layout tree and its
//! geometry, key bindings and the action map, the rules of the template
//! store, the line buffer behind each pane, and the editor and runtime state
//! machines. Terminal, process and file I/O are left to the program around it.

pub mod action;
pub mod cli;
pub mod config;
pub mod document;
pub mod editor;
pub mod input;
pub mod keybind;
pub mod layout;
pub mod model;
pub mod paths;
pub mod runtime;
pub mod template;
pub mod text;
