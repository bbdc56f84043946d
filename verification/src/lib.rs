//! A small interactive command interpreter: a pipeline parser and planner,
//! a built-in command dispatcher, alias and environment-variable expansion,
//! and in-memory command history, all with verified contracts.
//!
//! The library itself performs no I/O: spawning processes, reading files and
//! changing the working directory are requested through plan and action
//! values that an embedding program carries out.

pub mod engine;
pub mod error;
pub mod expand;
pub mod flags;
pub mod input;
pub mod path;
pub mod process;
pub mod shell;
pub mod table;
pub mod text;
