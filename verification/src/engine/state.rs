//! The long-lived session state outside the dispatcher: the working
//! directory as the interpreter last saw it, and whether the session keeps
//! running.

use vstd::prelude::*;
use vstd::string::StringExecFns;
use crate::error::ShellError;

verus! {

/// The session's own state.
#[derive(Debug)]
pub struct ShellState {
    current_dir: String,
    running: bool,
}

impl ShellState {
    /// The recorded working directory.
    pub closed spec fn current_dir_spec(&self) -> Seq<char> {
        self.current_dir@
    }

    /// Whether the session keeps running.
    pub closed spec fn running_spec(&self) -> bool {
        self.running
    }

    /// A running session with no directory recorded yet; the embedding
    /// program records the real one.
    pub fn new() -> (r: Result<ShellState, ShellError>)
        ensures
            r matches Ok(s) && s.current_dir_spec() == Seq::<char>::empty() && s.running_spec(),
    {
        Ok(ShellState { current_dir: String::new(), running: true })
    }

    /// Record the working directory.
    pub fn set_current_dir(&mut self, dir: String)
        ensures
            final(self).current_dir_spec() == dir@,
            final(self).running_spec() == old(self).running_spec(),
    {
        self.current_dir = dir;
    }

    /// The recorded working directory.
    pub fn current_dir(&self) -> (r: &str)
        ensures
            r@ == self.current_dir_spec(),
    {
        self.current_dir.as_str()
    }

    /// End the session.
    pub fn stop(&mut self)
        ensures
            !final(self).running_spec(),
            final(self).current_dir_spec() == old(self).current_dir_spec(),
    {
        self.running = false;
    }

    /// Whether the session keeps running.
    pub fn is_running(&self) -> (r: bool)
        ensures
            r == self.running_spec(),
    {
        self.running
    }
}

} // verus!
