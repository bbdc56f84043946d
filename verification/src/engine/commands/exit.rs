//! The `exit` built-in: end the session.

use vstd::prelude::*;
use super::{Action, ActionView, CommandError};

verus! {

/// Ends the session. The process termination itself is the embedding
/// program's part; within a pipeline nothing after it runs.
#[derive(Debug, Clone)]
pub struct ExitCommand;

impl Default for ExitCommand {
    /// The command has no state.
    fn default() -> (r: ExitCommand) {
        ExitCommand
    }
}

impl ExitCommand {
    pub fn new() -> (r: ExitCommand) {
        ExitCommand
    }

    /// Always asks for process termination, whatever the arguments.
    pub fn execute(&self, _args: &[String]) -> (r: Result<Action, CommandError>)
        ensures
            r matches Ok(a) && a@ == ActionView::Exit,
    {
        Ok(Action::Exit)
    }
}

} // verus!
