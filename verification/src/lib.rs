//! Core of a small interactive command shell: a line editor, an
//! incremental command-line parser, command lookup, completion search
//! and the selection list shown under the prompt.

pub mod builtin;
pub mod common;
pub mod editor;
pub mod exec;
pub mod fugu_env;
pub mod fugu_screen;
pub mod parser;
pub mod pattern;
pub mod point;
pub mod read_line;
pub mod selector;
pub mod settings;
pub mod shell;
pub mod strings;
