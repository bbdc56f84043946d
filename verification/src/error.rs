//! The top-level error type of the interpreter.

use vstd::prelude::*;
use crate::engine::commands::CommandError;
use crate::engine::config::ConfigError;
use crate::input::history::HistoryError;
use crate::process::ProcessError;
use crate::shell::pipeline::PipelineError;

verus! {

/// Everything that can go wrong at the session's top level.
#[derive(Debug)]
pub enum ShellError {
    Io(String),
    HomeDirNotFound,
    InvalidShellPath,
    CommandNotFound(String),
    ProcessError(ProcessError),
    ConfigError(ConfigError),
    FlagError(String),
    CtrlC(String),
    CommandError(CommandError),
    HistoryError(HistoryError),
    PipelineError(PipelineError),
    PathError(String),
    FileReadError(String),
    IoError(String),
    ShellRegistrationError(String),
}

} // verus!
