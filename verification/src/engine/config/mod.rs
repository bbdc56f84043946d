//! Startup configuration state: aliases and environment variables read from
//! the user's rc files. The embedding program reads the files; the library
//! interprets their lines.

pub mod aliases;
pub mod env_vars;
pub mod loader;
pub mod paths;

pub use aliases::AliasManager;
pub use env_vars::EnvVarManager;
pub use loader::ConfigLoader;
pub use paths::ConfigPaths;

use vstd::prelude::*;
use crate::engine::commands::CommandError;

verus! {

/// Failures of loading or interpreting the configuration.
#[derive(Debug)]
pub enum ConfigError {
    HomeDirNotFound,
    EnvVarNotFound(String),
    ConfigFileNotFound(String),
    IoError(String),
    CommandError(CommandError),
}


/// The startup configuration state: the alias table, the environment
/// table, the file paths, and optionally a dispatcher that plain
/// configuration lines run through.
pub struct Config {
    pub(crate) paths: ConfigPaths,
    pub(crate) aliases: AliasManager,
    pub(crate) env_vars: EnvVarManager,
    executor: Option<crate::engine::commands::CommandExecutor>,
}

impl Config {
    /// The configuration's alias table.
    pub closed spec fn aliases_view(&self) -> Seq<(Seq<char>, Seq<char>)> {
        self.aliases@
    }

    /// The configuration's environment table.
    pub closed spec fn env_view(&self) -> Seq<(Seq<char>, Seq<char>)> {
        self.env_vars@
    }

    /// Whether a dispatcher was attached.
    pub closed spec fn has_executor(&self) -> bool {
        self.executor is Some
    }

    /// The profile file sourced first at startup.
    pub closed spec fn profile_path_spec(&self) -> Seq<char> {
        self.paths.profile_path@
    }

    /// The rc file sourced second at startup.
    pub closed spec fn rc_path_spec(&self) -> Seq<char> {
        self.paths.rc_path@
    }

    /// An empty configuration below `home`; an empty home path is refused.
    /// The embedding program seeds the environment table from the real
    /// process environment.
    pub fn new(home: &str) -> (r: Result<Config, ConfigError>)
        ensures
            match r {
                Ok(c) => {
                    &&& home@.len() > 0
                    &&& c.aliases_view() == Seq::<(Seq<char>, Seq<char>)>::empty()
                    &&& c.env_view() == Seq::<(Seq<char>, Seq<char>)>::empty()
                    &&& !c.has_executor()
                    &&& c.profile_path_spec() == crate::engine::env::paths::spec_join_path(
                        home@,
                        ".profile"@,
                    )
                    &&& c.rc_path_spec() == crate::engine::env::paths::spec_join_path(
                        home@,
                        ".aortarc"@,
                    )
                },
                Err(e) => home@.len() == 0 && e matches ConfigError::HomeDirNotFound,
            },
    {
        let paths = match ConfigPaths::new(home) {
            Ok(p) => p,
            Err(e) => {
                return Err(e);
            },
        };
        Ok(
            Config {
                paths,
                aliases: AliasManager::new(),
                env_vars: EnvVarManager::new(),
                executor: None,
            },
        )
    }

    /// Attach the dispatcher that plain configuration lines run through.
    pub fn with_executor(self, executor: crate::engine::commands::CommandExecutor) -> (r: Config)
        ensures
            r.aliases_view() == self.aliases_view(),
            r.env_view() == self.env_view(),
            r.has_executor(),
            r.profile_path_spec() == self.profile_path_spec(),
            r.rc_path_spec() == self.rc_path_spec(),
    {
        Config {
            paths: self.paths,
            aliases: self.aliases,
            env_vars: self.env_vars,
            executor: Some(executor),
        }
    }

    /// Run one plain configuration line through the attached dispatcher:
    /// the line is whitespace-split and its first token dispatched with
    /// the rest as arguments, once. A blank line or comment does nothing,
    /// and without a dispatcher every line does nothing. The
    /// configuration's own alias and environment tables never change —
    /// the dispatcher runs on its own state — and the returned action, if
    /// any, is the embedding program's to perform.
    pub fn execute_command(&mut self, line: &str) -> (r: Result<
        Option<crate::engine::commands::Action>,
        ConfigError,
    >)
        ensures
            final(self).aliases_view() == old(self).aliases_view(),
            final(self).env_view() == old(self).env_view(),
            final(self).has_executor() == old(self).has_executor(),
            match r {
                Ok(opt) => {
                    if opt is Some {
                        crate::engine::commands::source::spec_script_line(line@) is Some && old(
                            self,
                        ).has_executor()
                    } else {
                        crate::engine::commands::source::spec_script_line(line@) is None || !old(
                            self,
                        ).has_executor()
                    }
                },
                Err(e) => crate::engine::commands::source::spec_script_line(line@) is Some && old(
                    self,
                ).has_executor() && (e matches ConfigError::CommandError(_)),
            },
            match crate::engine::commands::source::spec_script_line(line@) {
                Some(p) => {
                    &&& old(self).has_executor() && !crate::engine::commands::spec_is_builtin(p.0)
                        ==> (r matches Ok(opt) && (opt matches Some(act) && (act@
                        matches crate::engine::commands::ActionView::Spawn(full) && full == seq![
                        p.0] + p.1)))
                    &&& old(self).has_executor() && p.0 == "exit"@ ==> (r matches Ok(opt) && (opt
                        matches Some(act) && act@ == crate::engine::commands::ActionView::Exit))
                },
                None => true,
            },
    {
        let parsed = crate::engine::commands::source::parse_script_line(line);
        match parsed {
            Some(p) => {
                let (command, args) = p;
                match &mut self.executor {
                    Some(ex) => match ex.execute(command.as_str(), args.as_slice()) {
                        Ok(a) => Ok(Some(a)),
                        Err(e) => Err(ConfigError::CommandError(e)),
                    },
                    None => Ok(None),
                }
            },
            None => Ok(None),
        }
    }

    /// The files to source at startup, in order: the profile, then the rc
    /// file.
    pub fn load(&self) -> (r: Vec<String>)
        ensures
            r.deep_view() == seq![self.profile_path_spec(), self.rc_path_spec()],
    {
        let loader = ConfigLoader::new(&self.paths);
        loader.load_configs()
    }

    /// The replacement text of `cmd`, if it is an alias.
    pub fn get_alias(&self, cmd: &str) -> (r: Option<&String>)
        ensures
            match r {
                Some(v) => crate::table::spec_lookup(self.aliases_view(), cmd@) == Some(v@),
                None => crate::table::spec_lookup(self.aliases_view(), cmd@) is None,
            },
    {
        self.aliases.get(cmd)
    }

    /// Replace the first token of `command` by its alias value, leaving
    /// the line unchanged when no alias matches.
    pub fn expand_aliases(&self, command: &str) -> (r: String)
        ensures
            r@ == crate::expand::spec_expand_command(self.aliases_view(), command@),
    {
        self.aliases.expand_command(command)
    }

    /// Every alias binding exactly once, sorted ascending by name.
    pub fn get_aliases(&self) -> (r: Vec<(String, String)>)
        ensures
            aliases::sorted_listing_of(self.aliases_view(), aliases::pairs_view(r@)),
            r@.len() == self.aliases_view().len(),
    {
        self.aliases.get_all()
    }
}

} // verus!
