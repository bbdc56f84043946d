//! The `cd` built-in: change the working directory.

use vstd::prelude::*;
use vstd::string::StringExecFns;
use super::{Action, ActionView, CommandError};
use crate::path::{spec_expand_path, spec_is_home_path, PathExpander};

verus! {

/// The directory `cd` goes to: its first argument, or `~` without one.
pub open spec fn spec_cd_target(args: Seq<Seq<char>>) -> Seq<char> {
    if args.len() > 0 {
        args[0]
    } else {
        "~"@
    }
}

/// Resolves its target path and asks for the directory change; whether the
/// target exists is checked by the embedding program when it performs it,
/// failing as the dispatcher's execution error.
#[derive(Debug, Clone)]
pub struct CdCommand {
    path_expander: PathExpander,
}

impl Default for CdCommand {
    /// The command has no state beyond the expander.
    fn default() -> (r: CdCommand) {
        CdCommand { path_expander: PathExpander::new() }
    }
}

impl CdCommand {
    pub fn new() -> (r: CdCommand) {
        CdCommand { path_expander: PathExpander::new() }
    }

    /// The directory change for the first argument (or `~`), with a leading
    /// `~` resolved against the home directory; only a missing home
    /// directory fails here.
    pub fn execute(&self, args: &[String]) -> (r: Result<Action, CommandError>)
        ensures
            match r {
                Ok(a) => {
                    let target = spec_cd_target(args.deep_view());
                    &&& a@ matches ActionView::Chdir(p)
                    &&& (!spec_is_home_path(target) ==> p == target)
                    &&& (spec_is_home_path(target) ==> exists|home: Seq<char>|
                        p == spec_expand_path(target, home))
                },
                Err(e) => spec_is_home_path(spec_cd_target(args.deep_view())) && (e
                    matches CommandError::ExecutionError(_)),
            },
    {
        let expanded = if args.len() > 0 {
            proof {
                assert(args.deep_view()[0] == args@[0]@);
            }
            self.path_expander.expand(args[0].as_str())
        } else {
            self.path_expander.expand("~")
        };
        match expanded {
            Ok(p) => {
                let a = Action::Chdir(p);
                proof {
                    assert(a@ is Chdir);
                }
                Ok(a)
            },
            Err(e) => {
                let msg = match e {
                    crate::error::ShellError::HomeDirNotFound => String::from_str("Home directory not found"),
                    _ => String::from_str("Path expansion failed"),
                };
                Err(CommandError::ExecutionError(msg))
            },
        }
    }
}

} // verus!
