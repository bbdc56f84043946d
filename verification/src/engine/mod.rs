//! The interpreter's core: built-in commands and their dispatcher, the
//! startup configuration state, and environment handling.

pub mod commands;
pub mod config;
pub mod env;
pub mod state;
