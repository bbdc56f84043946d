//! Preparation of external-process spawns: argument expansion and the
//! quiet-mode decision. The spawn itself, the interrupt-signal handler and
//! the wait are the embedding program's part.

use vstd::prelude::*;
use super::ProcessError;
use crate::flags::{spec_is_set, Flags};
use crate::path::{spec_expand_path, spec_is_home_path, PathExpander};
use crate::text::contains_char;

verus! {

/// What becomes of a failed spawn attempt: a missing executable is not an
/// error — the session continues, with a diagnostic unless quiet mode
/// suppresses it — while any other failure is real.
#[derive(Debug, PartialEq, Eq, Structural)]
pub enum SpawnFailure {
    ContinueQuietly,
    ContinueWithWarning,
    Fail,
}

/// Prepares the argument list of an external command and remembers
/// whether diagnostics are suppressed.
#[derive(Clone)]
pub struct CommandExecutor {
    quiet_mode: bool,
    path_expander: PathExpander,
}

impl CommandExecutor {
    /// Whether diagnostics are suppressed.
    pub closed spec fn quiet_spec(&self) -> bool {
        self.quiet_mode
    }

    pub fn new(flags: &Flags) -> (r: Result<CommandExecutor, ProcessError>)
        ensures
            r matches Ok(ex) && ex.quiet_spec() == spec_is_set(flags@, "quiet"@),
    {
        Ok(CommandExecutor { quiet_mode: flags.is_set("quiet"), path_expander: PathExpander::new() })
    }

    /// Whether diagnostics are suppressed.
    pub fn quiet_mode(&self) -> (r: bool)
        ensures
            r == self.quiet_spec(),
    {
        self.quiet_mode
    }

    /// Classify a failed spawn: an executable that was not found lets the
    /// session continue as a success — warning unless quiet — and any
    /// other failure propagates.
    pub fn classify_spawn_failure(&self, not_found: bool) -> (r: SpawnFailure)
        ensures
            not_found && self.quiet_spec() ==> r == SpawnFailure::ContinueQuietly,
            not_found && !self.quiet_spec() ==> r == SpawnFailure::ContinueWithWarning,
            !not_found ==> r == SpawnFailure::Fail,
    {
        if not_found {
            if self.quiet_mode {
                SpawnFailure::ContinueQuietly
            } else {
                SpawnFailure::ContinueWithWarning
            }
        } else {
            SpawnFailure::Fail
        }
    }

    /// The arguments as the child process receives them: every argument
    /// containing `~` is path-expanded; one whose expansion fails is kept
    /// as it is.
    pub fn prepare_args(&self, args: &[String]) -> (r: Vec<String>)
        ensures
            r.deep_view().len() == args.deep_view().len(),
            forall|i: int|
                0 <= i < args.deep_view().len() && !contains_char(
                    #[trigger] args.deep_view()[i],
                    '~',
                ) ==> r.deep_view()[i] == args.deep_view()[i],
            forall|i: int|
                0 <= i < args.deep_view().len() && contains_char(
                    #[trigger] args.deep_view()[i],
                    '~',
                ) ==> (r.deep_view()[i] == args.deep_view()[i] || (spec_is_home_path(
                    args.deep_view()[i],
                ) && exists|home: Seq<char>|
                    r.deep_view()[i] == spec_expand_path(args.deep_view()[i], home))),
    {
        let mut out: Vec<String> = Vec::new();
        let mut i: usize = 0;
        while i < args.len()
            invariant
                0 <= i <= args@.len(),
                out.deep_view().len() == i,
                forall|j: int|
                    0 <= j < i && !contains_char(#[trigger] args.deep_view()[j], '~')
                        ==> out.deep_view()[j] == args.deep_view()[j],
                forall|j: int|
                    0 <= j < i && contains_char(#[trigger] args.deep_view()[j], '~') ==> (
                    out.deep_view()[j] == args.deep_view()[j] || (spec_is_home_path(
                        args.deep_view()[j],
                    ) && exists|home: Seq<char>|
                        out.deep_view()[j] == spec_expand_path(args.deep_view()[j], home))),
            decreases args@.len() - i,
        {
            proof {
                assert(args.deep_view()[i as int] == args@[i as int]@);
            }
            let cs = crate::text::chars_of(args[i].as_str());
            let ghost pre = out.deep_view();
            if crate::text::has_char(cs.as_slice(), '~') {
                match self.path_expander.expand(args[i].as_str()) {
                    Ok(p) => {
                        let ghost pv = p@;
                        out.push(p);
                        proof {
                            assert(out.deep_view() =~~= pre.push(pv));
                        }
                    },
                    Err(_) => {
                        let a = args[i].clone();
                        let ghost av = a@;
                        out.push(a);
                        proof {
                            assert(out.deep_view() =~~= pre.push(av));
                        }
                    },
                }
            } else {
                let a = args[i].clone();
                let ghost av = a@;
                out.push(a);
                proof {
                    assert(out.deep_view() =~~= pre.push(av));
                }
            }
            i = i + 1;
        }
        out
    }
}

} // verus!
