//! Environment state: the process environment-variable table as the library
//! models it, and the well-known per-user paths.

pub mod paths;
pub mod vars;

pub use paths::EnvPaths;
pub use vars::EnvVarManager;

use vstd::prelude::*;

verus! {

/// Failures of environment handling.
#[derive(Debug)]
pub enum EnvError {
    HomeDirNotFound,
    VarNotFound(String),
    IoError(String),
    InvalidPath(String),
    InvalidValue(String),
}

} // verus!
