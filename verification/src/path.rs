//! Path expansion: resolving a leading `~` to the user's home directory.

use vstd::prelude::*;
use vstd::string::StringExecFns;
use crate::error::ShellError;
use crate::text::{chars_of, string_from_chars};

verus! {

/// Relies on `dirs::home_dir`: the user's home directory as the platform
/// reports it, or `None` when it has none. The value depends on the
/// machine and environment, so nothing is promised about it.
#[verifier::external_body]
pub(crate) fn home_dir_string() -> (r: Option<String>) {
    dirs::home_dir().map(|p| p.to_string_lossy().into_owned())
}

/// Whether the path asks for home expansion.
pub open spec fn spec_is_home_path(path: Seq<char>) -> bool {
    path.len() > 0 && path[0] == '~'
}

/// A path with its leading `~` resolved against `home`: `~` alone becomes
/// `home`, `~/rest` becomes `home` joined with `rest`, and any other path
/// (including `~user` forms) is returned unchanged.
pub open spec fn spec_expand_path(path: Seq<char>, home: Seq<char>) -> Seq<char> {
    if path == seq!['~'] {
        home
    } else if path.len() >= 2 && path[0] == '~' && path[1] == '/' {
        home + seq!['/'] + path.skip(2)
    } else {
        path
    }
}

/// Resolves a leading `~` in paths to the user's home directory.
#[derive(Debug, Clone)]
pub struct PathExpander;

impl Default for PathExpander {
    /// The expander has no state.
    fn default() -> (r: PathExpander) {
        PathExpander
    }
}

impl PathExpander {
    pub fn new() -> (r: PathExpander) {
        PathExpander
    }

    /// Whether `path` starts with `~`.
    pub fn is_home_path(&self, path: &str) -> (r: bool)
        ensures
            r == spec_is_home_path(path@),
    {
        let cs = chars_of(path);
        cs.len() > 0 && cs[0] == '~'
    }

    /// `path` with a leading `~` resolved against the given home directory.
    pub fn expand_with_home(&self, path: &str, home: &str) -> (r: String)
        ensures
            r@ == spec_expand_path(path@, home@),
    {
        let cs = chars_of(path);
        if cs.len() == 1 && cs[0] == '~' {
            proof {
                assert(cs@ =~= seq!['~']);
            }
            String::from_str(home)
        } else if cs.len() >= 2 && cs[0] == '~' && cs[1] == '/' {
            let hc = chars_of(home);
            let mut out: Vec<char> = Vec::new();
            let mut h = hc;
            out.append(&mut h);
            out.push('/');
            let mut i: usize = 2;
            while i < cs.len()
                invariant
                    2 <= i <= cs@.len(),
                    cs@.len() >= 2,
                    out@ == home@ + seq!['/'] + cs@.subrange(2, i as int),
                decreases cs@.len() - i,
            {
                out.push(cs[i]);
                assert(out@ =~= home@ + seq!['/'] + cs@.subrange(2, i as int + 1));
                i = i + 1;
            }
            proof {
                assert(cs@.subrange(2, cs@.len() as int) =~= cs@.skip(2));
                assert(path@ != seq!['~']);
            }
            string_from_chars(out.as_slice())
        } else {
            proof {
                if path@ == seq!['~'] {
                    assert(cs@.len() == 1 && cs@[0] == '~');
                }
            }
            String::from_str(path)
        }
    }

    /// Resolve `path`: one that does not start with `~` is returned
    /// unchanged; one that does is resolved against the home directory the
    /// platform reports, or fails when it reports none.
    pub fn expand(&self, path: &str) -> (r: Result<String, ShellError>)
        ensures
            match r {
                Ok(p) => {
                    &&& (!spec_is_home_path(path@) ==> p@ == path@)
                    &&& (spec_is_home_path(path@) ==> exists|home: Seq<char>|
                        p@ == spec_expand_path(path@, home))
                },
                Err(e) => spec_is_home_path(path@) && e matches ShellError::HomeDirNotFound,
            },
    {
        if self.is_home_path(path) {
            match home_dir_string() {
                Some(home) => {
                    let expanded = self.expand_with_home(path, home.as_str());
                    proof {
                        assert(expanded@ == spec_expand_path(path@, home@));
                    }
                    Ok(expanded)
                },
                None => Err(ShellError::HomeDirNotFound),
            }
        } else {
            proof {
                if path@ == seq!['~'] {
                    assert(spec_is_home_path(path@));
                }
                if path@.len() >= 2 && path@[0] == '~' {
                    assert(spec_is_home_path(path@));
                }
            }
            Ok(String::from_str(path))
        }
    }
}

} // verus!
