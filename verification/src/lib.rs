//! Scaffolding of projects from templates: the template command language.
//!
//! A template holds shell commands with placeholders such as `#{name!}` or
//! `#{1:file}`. This crate compiles such commands, derives the arguments a
//! template asks for, resolves the user's extra arguments against them and
//! substitutes the values back into the commands.
//!
//! - [`grammar`] says what a command means, over sequences of characters;
//!   [`commands_parser`] compiles commands to that grammar, and
//!   [`composition`] shows that what stands before a placeholder compiles as
//!   it does alone.
//! - [`registry`] collects the placeholders of a template, each once;
//!   [`arguments`] makes the `clap` arguments that stand for them, and
//!   [`schema`] says which placeholders make arguments that `clap` takes.
//! - [`resolution`] reads what `clap` matched, and [`values`] puts the values
//!   into the compiled commands.
//! - [`config`] holds the templates, [`project`] decides what is done for a
//!   project, and [`utils`], [`listing`] and [`echo`] serve the program
//!   around the library.

pub mod arguments;
pub mod commands_parser;
pub mod composition;
pub mod config;
pub mod echo;
pub mod grammar;
pub mod listing;
pub mod project;
pub mod registry;
pub mod resolution;
pub mod schema;
pub mod utils;
pub mod values;
