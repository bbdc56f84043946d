//! The per-user base directories derived from the home directory. The
//! embedding program supplies the home path and checks that it exists on
//! disk; the library only builds the derived paths.

use vstd::prelude::*;
use vstd::string::StringExecFns;
use super::EnvError;

verus! {

/// The home, configuration and cache directories of the current user.
#[derive(Debug)]
pub struct EnvPaths {
    home: String,
    config_dir: String,
    cache_dir: String,
}

impl View for EnvPaths {
    type V = (Seq<char>, Seq<char>, Seq<char>);

    closed spec fn view(&self) -> (Seq<char>, Seq<char>, Seq<char>) {
        (self.home@, self.config_dir@, self.cache_dir@)
    }
}

/// `dir` and `name` joined by a single `/`.
pub open spec fn spec_join_path(dir: Seq<char>, name: Seq<char>) -> Seq<char> {
    dir + seq!['/'] + name
}

/// Join a directory and a file name with `/`.
pub fn join_path(dir: &str, name: &str) -> (r: String)
    ensures
        r@ == spec_join_path(dir@, name@),
{
    let mut out = String::from_str(dir);
    out.append("/");
    out.append(name);
    proof {
        reveal_strlit("/");
        assert(out@ =~= spec_join_path(dir@, name@));
    }
    out
}

impl EnvPaths {
    /// Build the paths below `home`. An empty home path is refused.
    pub fn new(home: &str) -> (r: Result<EnvPaths, EnvError>)
        ensures
            match r {
                Ok(p) => {
                    &&& home@.len() > 0
                    &&& p@.0 == home@
                    &&& p@.1 == spec_join_path(home@, ".config"@)
                    &&& p@.2 == spec_join_path(home@, ".cache"@)
                },
                Err(e) => home@.len() == 0 && e matches EnvError::HomeDirNotFound,
            },
    {
        if home.is_empty() {
            return Err(EnvError::HomeDirNotFound);
        }
        let config_dir = join_path(home, ".config");
        let cache_dir = join_path(home, ".cache");
        Ok(EnvPaths { home: String::from_str(home), config_dir, cache_dir })
    }

    pub fn home(&self) -> (r: &str)
        ensures
            r@ == self@.0,
    {
        self.home.as_str()
    }

    pub fn config_dir(&self) -> (r: &str)
        ensures
            r@ == self@.1,
    {
        self.config_dir.as_str()
    }

    pub fn cache_dir(&self) -> (r: &str)
        ensures
            r@ == self@.2,
    {
        self.cache_dir.as_str()
    }

    /// The path of `name` inside the configuration directory.
    pub fn get_config_file(&self, name: &str) -> (r: String)
        ensures
            r@ == spec_join_path(self@.1, name@),
    {
        join_path(self.config_dir.as_str(), name)
    }

    /// The path of `name` inside the cache directory.
    pub fn get_cache_file(&self, name: &str) -> (r: String)
        ensures
            r@ == spec_join_path(self@.2, name@),
    {
        join_path(self.cache_dir.as_str(), name)
    }
}

} // verus!
