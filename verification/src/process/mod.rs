//! Spawning of external programs. The library prepares the argument list
//! and classifies outcomes; the embedding program performs the actual spawn
//! and wait, which this library cannot do.

pub mod executor;

use vstd::prelude::*;
use vstd::string::StringExecFns;

verus! {

/// Failures of spawning or waiting for an external program.
#[derive(Debug)]
pub enum ProcessError {
    CommandNotFound(String),
    SignalError(String),
    Other(String),
}

impl ProcessError {
    /// The human-readable description of this error.
    pub fn message(&self) -> (r: String)
        ensures
            match self {
                ProcessError::CommandNotFound(cmd) => r@ == "Command not found: "@ + cmd@,
                ProcessError::SignalError(msg) => r@ == "Signal error: "@ + msg@,
                ProcessError::Other(msg) => r@ == "Other error: "@ + msg@,
            },
    {
        match self {
            ProcessError::CommandNotFound(cmd) => {
                let mut s = String::from_str("Command not found: ");
                s.append(cmd.as_str());
                s
            },
            ProcessError::SignalError(msg) => {
                let mut s = String::from_str("Signal error: ");
                s.append(msg.as_str());
                s
            },
            ProcessError::Other(msg) => {
                let mut s = String::from_str("Other error: ");
                s.append(msg.as_str());
                s
            },
        }
    }
}

} // verus!
