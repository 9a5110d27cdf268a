//! A toolkit for building interactive shells: a tree of named commands, a
//! quote-aware tokenizer, a resolver that walks input lines down the tree, and
//! the completion and validation rules a line editor needs.
//!
//! The commands of a shell are kept in a [`command_set::CommandSet`]. A
//! [`parser::Parser`] splits a line into tokens and resolves them against two
//! such sets, the custom commands and the builtins, into a
//! [`parser::Outcome`]. A [`shell::Shell`] holds the custom commands and the
//! state they run on, and evaluates lines. Reading lines from a terminal is
//! left to the program that drives the shell; [`readline`] holds what a line
//! editor asks of it.

pub mod command;
pub mod command_set;
pub mod error;
pub mod parser;
pub mod readline;
pub mod shell;
pub mod text;
pub mod tokenizer;
