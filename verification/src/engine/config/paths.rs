//! Where the startup configuration files live.

use vstd::prelude::*;
use vstd::string::StringExecFns;
use super::ConfigError;
use crate::engine::env::paths::{join_path, spec_join_path};

verus! {

/// The rc file and the profile below the home directory.
#[derive(Debug, Clone)]
pub struct ConfigPaths {
    pub rc_path: String,
    pub profile_path: String,
}

impl ConfigPaths {
    /// The paths below `home`; an empty home path is refused.
    pub fn new(home: &str) -> (r: Result<ConfigPaths, ConfigError>)
        ensures
            match r {
                Ok(p) => {
                    &&& home@.len() > 0
                    &&& p.rc_path@ == spec_join_path(home@, ".aortarc"@)
                    &&& p.profile_path@ == spec_join_path(home@, ".profile"@)
                },
                Err(e) => home@.len() == 0 && e matches ConfigError::HomeDirNotFound,
            },
    {
        if home.is_empty() {
            return Err(ConfigError::HomeDirNotFound);
        }
        Ok(
            ConfigPaths {
                rc_path: join_path(home, ".aortarc"),
                profile_path: join_path(home, ".profile"),
            },
        )
    }
}

} // verus!
