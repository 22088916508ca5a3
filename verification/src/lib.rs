//! Core of an embeddable command-execution framework for a line-oriented
//! scripting runtime: a registry of pluggable command implementations that an
//! interpreter dispatches by name, a handle-indexed auxiliary store through
//! which commands exchange non-textual values, and an alias mechanism that
//! expands a command invocation into a parameterized sub-script.

pub mod alias;
pub mod cli;
pub mod command;
pub mod encoding;
pub mod numfmt;
pub mod process;
pub mod registry;
pub mod store;
pub mod strmap;
pub mod value;
