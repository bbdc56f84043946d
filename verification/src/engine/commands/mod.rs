//! The built-in commands and their dispatcher.

pub mod alias;
pub mod cd;
pub mod exit;
pub mod export;
pub mod history;
pub mod source;

pub use alias::AliasCommand;
pub use cd::CdCommand;
pub use exit::ExitCommand;
pub use export::ExportCommand;
pub use history::HistoryCommand;
pub use source::SourceCommand;

use vstd::prelude::*;
use vstd::string::StringExecFns;
use crate::engine::env::EnvVarManager;
use crate::input::history::{History, HistoryError};
use crate::process::ProcessError;

verus! {

/// Failures of dispatching or running a command.
#[derive(Debug)]
pub enum CommandError {
    NotFound(String),
    InvalidArguments(String),
    ExecutionError(String),
    IoError(String),
    ProcessError(ProcessError),
    HistoryError(HistoryError),
}

impl CommandError {
    /// The human-readable description of this error.
    pub fn message(&self) -> (r: String)
        ensures
            match self {
                CommandError::NotFound(cmd) => r@ == "command not found: "@ + cmd@,
                CommandError::InvalidArguments(msg) => r@ == "invalid arguments: "@ + msg@,
                CommandError::ExecutionError(msg) => r@ == "execution error: "@ + msg@,
                CommandError::IoError(msg) => r@ == "IO error: "@ + msg@,
                CommandError::ProcessError(_) => r@.len() > 0,
                CommandError::HistoryError(_) => r@.len() > 0,
            },
    {
        match self {
            CommandError::NotFound(cmd) => {
                let mut s = String::from_str("command not found: ");
                s.append(cmd.as_str());
                s
            },
            CommandError::InvalidArguments(msg) => {
                let mut s = String::from_str("invalid arguments: ");
                s.append(msg.as_str());
                s
            },
            CommandError::ExecutionError(msg) => {
                let mut s = String::from_str("execution error: ");
                s.append(msg.as_str());
                s
            },
            CommandError::IoError(msg) => {
                let mut s = String::from_str("IO error: ");
                s.append(msg.as_str());
                s
            },
            CommandError::ProcessError(err) => {
                let mut s = String::from_str("Process error: ");
                let inner = err.message();
                s.append(inner.as_str());
                proof {
                    reveal_strlit("Process error: ");
                }
                s
            },
            CommandError::HistoryError(err) => {
                let mut s = String::from_str("History error: ");
                let inner = err.message();
                s.append(inner.as_str());
                proof {
                    reveal_strlit("History error: ");
                }
                s
            },
        }
    }
}


/// What the embedding program must do after a dispatch: the library
/// updates its own state and describes the outside effect, which it cannot
/// perform itself.
#[derive(Debug)]
pub enum Action {
    /// Nothing outside the library changes.
    Done,
    /// Print these lines to standard output.
    Output(Vec<String>),
    /// Change the working directory to this path.
    Chdir(String),
    /// Terminate the process with code 0.
    Exit,
    /// Read the script at this path and feed its lines back through the
    /// dispatcher.
    ReadScript(String),
    /// Spawn an external process with these arguments.
    Spawn(Vec<String>),
    /// Set this variable to this value in the real process environment.
    SetEnv(String, String),
    /// Rewrite the history file with these lines.
    PersistHistory(Vec<String>),
}

/// The mathematical shape of an action.
pub ghost enum ActionView {
    Done,
    Output(Seq<Seq<char>>),
    Chdir(Seq<char>),
    Exit,
    ReadScript(Seq<char>),
    Spawn(Seq<Seq<char>>),
    SetEnv(Seq<char>, Seq<char>),
    PersistHistory(Seq<Seq<char>>),
}

impl View for Action {
    type V = ActionView;

    open spec fn view(&self) -> ActionView {
        match self {
            Action::Done => ActionView::Done,
            Action::Output(lines) => ActionView::Output(lines.deep_view()),
            Action::Chdir(path) => ActionView::Chdir(path@),
            Action::Exit => ActionView::Exit,
            Action::ReadScript(path) => ActionView::ReadScript(path@),
            Action::Spawn(args) => ActionView::Spawn(args.deep_view()),
            Action::SetEnv(name, value) => ActionView::SetEnv(name@, value@),
            Action::PersistHistory(lines) => ActionView::PersistHistory(lines.deep_view()),
        }
    }
}


/// The built-in command names.
pub open spec fn spec_is_builtin(c: Seq<char>) -> bool {
    c == "cd"@ || c == "source"@ || c == "exit"@ || c == "alias"@ || c == "history"@ || c
        == "export"@
}

/// The six built-in names are pairwise distinct.
proof fn lemma_builtin_names_distinct()
    ensures
        "cd"@ != "source"@ && "cd"@ != "exit"@ && "cd"@ != "alias"@ && "cd"@ != "history"@ && "cd"@
            != "export"@,
        "source"@ != "exit"@ && "source"@ != "alias"@ && "source"@ != "history"@,
        "exit"@ != "alias"@ && "exit"@ != "history"@ && "exit"@ != "export"@,
        "alias"@ != "history"@ && "alias"@ != "export"@,
        "history"@ != "export"@,
        "source"@ != "export"@,
{
    reveal_strlit("cd");
    reveal_strlit("source");
    reveal_strlit("exit");
    reveal_strlit("alias");
    reveal_strlit("history");
    reveal_strlit("export");
    assert("cd"@.len() == 2);
    assert("source"@.len() == 6);
    assert("exit"@.len() == 4);
    assert("alias"@.len() == 5);
    assert("history"@.len() == 7);
    assert("export"@.len() == 6);
    assert("source"@[0] == 's');
    assert("export"@[0] == 'e');
}

/// Routes a command name to its built-in, or hands it to the process
/// spawner. The built-ins share this dispatcher's alias table, environment
/// table and history.
pub struct CommandExecutor {
    cd: CdCommand,
    exit: ExitCommand,
    alias: AliasCommand,
    export: ExportCommand,
    history: HistoryCommand,
    source: SourceCommand,
}

impl CommandExecutor {
    /// The dispatcher's alias table.
    pub closed spec fn aliases_view(&self) -> Seq<(Seq<char>, Seq<char>)> {
        self.alias@
    }

    /// The dispatcher's environment-variable table.
    pub closed spec fn env_view(&self) -> Seq<(Seq<char>, Seq<char>)> {
        self.export@
    }

    /// The dispatcher's history records.
    pub closed spec fn history_view(&self) -> Seq<crate::input::history::types::EntryView> {
        self.history@
    }

    /// A dispatcher with empty tables, its history backed by
    /// `.aorta_history` under the home directory the platform reports;
    /// without one the dispatcher cannot be built. The flags belong to the
    /// session as a whole; the spawner reads them when a dispatch asks for
    /// an external process, so the dispatcher itself keeps none.
    pub fn new(flags: &crate::flags::Flags) -> (r: Result<CommandExecutor, CommandError>)
        ensures
            match r {
                Ok(ex) => {
                    &&& ex.aliases_view() == Seq::<(Seq<char>, Seq<char>)>::empty()
                    &&& ex.env_view() == Seq::<(Seq<char>, Seq<char>)>::empty()
                    &&& ex.history_view() == Seq::<
                        crate::input::history::types::EntryView,
                    >::empty()
                },
                Err(e) => e matches CommandError::IoError(_),
            },
    {
        let _session_flags = flags;
        let home = match crate::path::home_dir_string() {
            Some(h) => h,
            None => {
                return Err(
                    CommandError::IoError(String::from_str("Home directory not found")),
                );
            },
        };
        let history_path = crate::engine::env::paths::join_path(home.as_str(), ".aorta_history");
        let history = match History::new(history_path, 1000) {
            Ok(h) => h,
            Err(_) => {
                return Err(CommandError::IoError(String::from_str("History unavailable")));
            },
        };
        let env_vars = match EnvVarManager::new() {
            Ok(m) => m,
            Err(_) => {
                return Err(
                    CommandError::IoError(String::from_str("Environment unavailable")),
                );
            },
        };
        Ok(
            CommandExecutor {
                cd: CdCommand::new(),
                exit: ExitCommand::new(),
                alias: AliasCommand::new(crate::engine::config::AliasManager::new()),
                export: ExportCommand::new(env_vars),
                history: HistoryCommand::new(history),
                source: SourceCommand::new(),
            },
        )
    }

    /// Whether the name is handled inside the interpreter.
    pub fn is_builtin(&self, command: &str) -> (r: bool)
        ensures
            r == spec_is_builtin(command@),
    {
        crate::text::str_eq(command, "cd") || crate::text::str_eq(command, "source")
            || crate::text::str_eq(command, "exit") || crate::text::str_eq(command, "alias")
            || crate::text::str_eq(command, "history") || crate::text::str_eq(command, "export")
    }

    /// Route `command`: a built-in runs on this dispatcher's state and
    /// yields its action; any other name becomes a request to spawn
    /// `[command] ++ args` as an external process.
    pub fn execute(&mut self, command: &str, args: &[String]) -> (r: Result<Action, CommandError>)
        ensures
            command@ == "exit"@ ==> final(self).aliases_view() == old(self).aliases_view()
                && final(self).env_view() == old(self).env_view() && final(self).history_view()
                == old(self).history_view() && (r matches Ok(a) && a@ == ActionView::Exit),
            command@ == "alias"@ ==> final(self).env_view() == old(self).env_view() && final(self).history_view() == old(self).history_view() && (match r {
                Ok(a) => {
                    if args.deep_view().len() == 0 {
                        final(self).aliases_view() == old(self).aliases_view() && (a@
                            matches ActionView::Output(lines) && lines.len() == old(self).aliases_view().len())
                    } else {
                        (crate::engine::commands::alias::spec_alias_def(
                            crate::expand::join_spaces(args.deep_view()),
                        ) matches Some(def) && final(self).aliases_view()
                            == crate::table::spec_put(old(self).aliases_view(), def.0, def.1)
                            && a@ is Done)
                    }
                },
                Err(e) => final(self).aliases_view() == old(self).aliases_view() && (e
                    matches CommandError::InvalidArguments(_)),
            }),
            command@ == "export"@ ==> final(self).aliases_view() == old(self).aliases_view()
                && final(self).history_view() == old(self).history_view() && (match r {
                Ok(a) => {
                    &&& crate::engine::commands::export::spec_parse_export(args.deep_view())
                        matches Some(def)
                    &&& {
                        let stored = if def.0 == "PATH"@ {
                            crate::engine::env::vars::spec_sanitize_path(def.1)
                        } else {
                            def.1
                        };
                        &&& final(self).env_view() == crate::table::spec_put(
                            old(self).env_view(),
                            def.0,
                            stored,
                        )
                        &&& a@ == ActionView::SetEnv(def.0, stored)
                    }
                },
                Err(e) => final(self).env_view() == old(self).env_view() && (e
                    matches CommandError::InvalidArguments(_)),
            }),
            command@ == "cd"@ ==> final(self).aliases_view() == old(self).aliases_view() && final(self).env_view() == old(self).env_view() && final(self).history_view() == old(self).history_view() && (match r {
                Ok(a) => {
                    let target = crate::engine::commands::cd::spec_cd_target(args.deep_view());
                    &&& a@ matches ActionView::Chdir(p)
                    &&& (!crate::path::spec_is_home_path(target) ==> p == target)
                    &&& (crate::path::spec_is_home_path(target) ==> exists|home: Seq<char>|
                        p == crate::path::spec_expand_path(target, home))
                },
                Err(e) => e matches CommandError::ExecutionError(_),
            }),
            command@ == "source"@ ==> final(self).aliases_view() == old(self).aliases_view()
                && final(self).env_view() == old(self).env_view() && final(self).history_view()
                == old(self).history_view() && (match r {
                Ok(a) => {
                    &&& args.deep_view().len() > 0
                    &&& a@ matches ActionView::ReadScript(p)
                    &&& (!crate::path::spec_is_home_path(args.deep_view()[0]) ==> p
                        == args.deep_view()[0])
                    &&& (crate::path::spec_is_home_path(args.deep_view()[0]) ==> exists|
                        home: Seq<char>,
                    |
                        p == crate::path::spec_expand_path(args.deep_view()[0], home))
                },
                Err(e) => (e matches CommandError::InvalidArguments(_)) || (e
                    matches CommandError::ExecutionError(_)),
            }),
            command@ == "history"@ ==> final(self).aliases_view() == old(self).aliases_view()
                && final(self).env_view() == old(self).env_view(),
            command@ == "history"@ && args.deep_view().len() > 0 && args.deep_view()[0]
                == "clear"@ ==> final(self).history_view() == Seq::<
                crate::input::history::types::EntryView,
            >::empty(),
            !spec_is_builtin(command@) ==> final(self).aliases_view() == old(self).aliases_view()
                && final(self).env_view() == old(self).env_view() && final(self).history_view()
                == old(self).history_view() && (r matches Ok(a) && (a@ matches ActionView::Spawn(
                full,
            ) && full == seq![command@] + args.deep_view())),
    {
        proof {
            lemma_builtin_names_distinct();
        }
        if crate::text::str_eq(command, "cd") {
            self.cd.execute(args)
        } else if crate::text::str_eq(command, "source") {
            self.source.execute(args)
        } else if crate::text::str_eq(command, "exit") {
            self.exit.execute(args)
        } else if crate::text::str_eq(command, "alias") {
            self.alias.execute(args)
        } else if crate::text::str_eq(command, "history") {
            self.history.execute(args)
        } else if crate::text::str_eq(command, "export") {
            self.export.execute(args)
        } else {
            let mut full: Vec<String> = Vec::new();
            full.push(String::from_str(command));
            let mut k: usize = 0;
            while k < args.len()
                invariant
                    0 <= k <= args@.len(),
                    full.deep_view() == seq![command@] + args.deep_view().subrange(0, k as int),
                decreases args@.len() - k,
            {
                let ghost pre = full.deep_view();
                let a = args[k].clone();
                proof {
                    assert(a@ == args.deep_view()[k as int]);
                }
                full.push(a);
                proof {
                    assert(full.deep_view() =~~= pre.push(a@));
                    assert(full.deep_view() =~~= seq![command@] + args.deep_view().subrange(
                        0,
                        k as int + 1,
                    ));
                }
                k = k + 1;
            }
            proof {
                assert(full.deep_view() =~~= seq![command@] + args.deep_view());
            }
            Ok(Action::Spawn(full))
        }
    }

    /// The replacement text of an alias in the dispatcher's table.
    pub fn get_alias(&self, cmd: &str) -> (r: Option<&String>)
        ensures
            match r {
                Some(v) => crate::table::spec_lookup(self.aliases_view(), cmd@) == Some(v@),
                None => crate::table::spec_lookup(self.aliases_view(), cmd@) is None,
            },
    {
        self.alias.get(cmd)
    }
}

} // verus!
