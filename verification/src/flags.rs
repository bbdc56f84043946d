//! Command-line flags of the interpreter itself.

use vstd::prelude::*;
use vstd::string::StringExecFns;
use crate::error::ShellError;
use crate::text::str_eq;

verus! {

/// One flag: its short and long spelling, a description, and the value it
/// was given (flags without an argument get `true`).
#[derive(Debug, Clone)]
pub struct Flag {
    pub short: String,
    pub long: String,
    pub description: String,
    pub value: Option<String>,
}

/// The mathematical shape of a flag.
pub ghost struct FlagView {
    pub short: Seq<char>,
    pub long: Seq<char>,
    pub description: Seq<char>,
    pub value: Option<Seq<char>>,
}

impl View for Flag {
    type V = FlagView;

    open spec fn view(&self) -> FlagView {
        FlagView {
            short: self.short@,
            long: self.long@,
            description: self.description@,
            value: match &self.value {
                Some(v) => Some(v@),
                None => None,
            },
        }
    }
}

/// The mathematical shape of the flag set.
pub ghost struct FlagsView {
    pub help: FlagView,
    pub version: FlagView,
    pub config: FlagView,
    pub quiet: FlagView,
    pub debug: FlagView,
}

/// The interpreter's flags: help, version, config, quiet and debug.
#[derive(Debug, Clone)]
pub struct Flags {
    help: Flag,
    version: Flag,
    config: Flag,
    quiet: Flag,
    debug: Flag,
}

impl View for Flags {
    type V = FlagsView;

    closed spec fn view(&self) -> FlagsView {
        FlagsView {
            help: self.help@,
            version: self.version@,
            config: self.config@,
            quiet: self.quiet@,
            debug: self.debug@,
        }
    }
}

/// Whether `arg` spells the flag `f`.
pub open spec fn spec_arg_hits(f: FlagView, arg: Seq<char>) -> bool {
    arg == f.short || arg == f.long
}

/// `f` given the value `v`.
pub open spec fn spec_with_value(f: FlagView, v: Seq<char>) -> FlagView {
    FlagView { short: f.short, long: f.long, description: f.description, value: Some(v) }
}

/// The flag set after reading the arguments from `i` on: `-c`/`--config`
/// takes the next argument as its value (and fails without one), any other
/// recognized flag is set to `true`, anything else is ignored.
pub open spec fn spec_parse_flags(fs: FlagsView, args: Seq<Seq<char>>, i: int) -> Result<
    FlagsView,
    (),
>
    decreases args.len() - i,
{
    if i < 0 || i >= args.len() {
        Ok(fs)
    } else {
        let arg = args[i];
        if arg == "-c"@ || arg == "--config"@ {
            if spec_arg_hits(fs.config, arg) {
                if i + 1 < args.len() {
                    spec_parse_flags(
                        FlagsView {
                            config: spec_with_value(fs.config, args[i + 1]),
                            ..fs
                        },
                        args,
                        i + 2,
                    )
                } else {
                    Err(())
                }
            } else {
                spec_parse_flags(fs, args, i + 1)
            }
        } else if spec_arg_hits(fs.help, arg) {
            spec_parse_flags(FlagsView { help: spec_with_value(fs.help, "true"@), ..fs }, args, i + 1)
        } else if spec_arg_hits(fs.version, arg) {
            spec_parse_flags(
                FlagsView { version: spec_with_value(fs.version, "true"@), ..fs },
                args,
                i + 1,
            )
        } else if spec_arg_hits(fs.config, arg) {
            spec_parse_flags(
                FlagsView { config: spec_with_value(fs.config, "true"@), ..fs },
                args,
                i + 1,
            )
        } else if spec_arg_hits(fs.quiet, arg) {
            spec_parse_flags(
                FlagsView { quiet: spec_with_value(fs.quiet, "true"@), ..fs },
                args,
                i + 1,
            )
        } else if spec_arg_hits(fs.debug, arg) {
            spec_parse_flags(
                FlagsView { debug: spec_with_value(fs.debug, "true"@), ..fs },
                args,
                i + 1,
            )
        } else {
            spec_parse_flags(fs, args, i + 1)
        }
    }
}

impl Default for Flags {
    /// The five flags, none given a value yet.
    fn default() -> (r: Flags)
        ensures
            r@ == spec_new_flags(),
    {
        Flags::new()
    }
}

/// The freshly registered flag set.
pub open spec fn spec_new_flags() -> FlagsView {
    FlagsView {
        help: FlagView {
            short: "-h"@,
            long: "--help"@,
            description: "Print this help message"@,
            value: None,
        },
        version: FlagView {
            short: "-v"@,
            long: "--version"@,
            description: "Show version information"@,
            value: None,
        },
        config: FlagView {
            short: "-c"@,
            long: "--config"@,
            description: "Specify custom config file path"@,
            value: None,
        },
        quiet: FlagView {
            short: "-q"@,
            long: "--quiet"@,
            description: "Suppress output"@,
            value: None,
        },
        debug: FlagView {
            short: "-d"@,
            long: "--debug"@,
            description: "Enable debug output"@,
            value: None,
        },
    }
}

impl Flags {
    pub fn new() -> (r: Flags)
        ensures
            r@ == spec_new_flags(),
    {
        Flags {
            help: Flag {
                short: String::from_str("-h"),
                long: String::from_str("--help"),
                description: String::from_str("Print this help message"),
                value: None,
            },
            version: Flag {
                short: String::from_str("-v"),
                long: String::from_str("--version"),
                description: String::from_str("Show version information"),
                value: None,
            },
            config: Flag {
                short: String::from_str("-c"),
                long: String::from_str("--config"),
                description: String::from_str("Specify custom config file path"),
                value: None,
            },
            quiet: Flag {
                short: String::from_str("-q"),
                long: String::from_str("--quiet"),
                description: String::from_str("Suppress output"),
                value: None,
            },
            debug: Flag {
                short: String::from_str("-d"),
                long: String::from_str("--debug"),
                description: String::from_str("Enable debug output"),
                value: None,
            },
        }
    }

    /// Read the arguments into the flags.
    pub fn parse(&mut self, args: &[String]) -> (r: Result<(), ShellError>)
        ensures
            match r {
                Ok(()) => spec_parse_flags(old(self)@, args.deep_view(), 0) == Ok::<FlagsView, ()>(
                    final(self)@,
                ),
                Err(e) => spec_parse_flags(old(self)@, args.deep_view(), 0) is Err && (e
                    matches ShellError::FlagError(_)),
            },
    {
        let ghost av = args.deep_view();
        let mut i: usize = 0;
        while i < args.len()
            invariant
                0 <= i <= av.len(),
                av == args.deep_view(),
                spec_parse_flags(old(self)@, av, 0) == spec_parse_flags(self@, av, i as int),
            decreases av.len() - i,
        {
            proof {
                assert(av[i as int] == args@[i as int]@);
            }
            let arg = &args[i];
            if str_eq(arg.as_str(), "-c") || str_eq(arg.as_str(), "--config") {
                if str_eq(arg.as_str(), self.config.short.as_str()) || str_eq(
                    arg.as_str(),
                    self.config.long.as_str(),
                ) {
                    if i + 1 < args.len() {
                        proof {
                            assert(av[i as int + 1] == args@[i as int + 1]@);
                        }
                        self.config.value = Some(args[i + 1].clone());
                        i = i + 2;
                    } else {
                        return Err(
                            ShellError::FlagError(String::from_str("Flag requires a value")),
                        );
                    }
                } else {
                    i = i + 1;
                }
            } else if str_eq(arg.as_str(), self.help.short.as_str()) || str_eq(
                arg.as_str(),
                self.help.long.as_str(),
            ) {
                self.help.value = Some(String::from_str("true"));
                i = i + 1;
            } else if str_eq(arg.as_str(), self.version.short.as_str()) || str_eq(
                arg.as_str(),
                self.version.long.as_str(),
            ) {
                self.version.value = Some(String::from_str("true"));
                i = i + 1;
            } else if str_eq(arg.as_str(), self.config.short.as_str()) || str_eq(
                arg.as_str(),
                self.config.long.as_str(),
            ) {
                self.config.value = Some(String::from_str("true"));
                i = i + 1;
            } else if str_eq(arg.as_str(), self.quiet.short.as_str()) || str_eq(
                arg.as_str(),
                self.quiet.long.as_str(),
            ) {
                self.quiet.value = Some(String::from_str("true"));
                i = i + 1;
            } else if str_eq(arg.as_str(), self.debug.short.as_str()) || str_eq(
                arg.as_str(),
                self.debug.long.as_str(),
            ) {
                self.debug.value = Some(String::from_str("true"));
                i = i + 1;
            } else {
                i = i + 1;
            }
        }
        Ok(())
    }

    /// Whether the named flag was given a value.
    pub fn is_set(&self, name: &str) -> (r: bool)
        ensures
            r == spec_is_set(self@, name@),
    {
        match self.flag_ref(name) {
            Some(f) => f.value.is_some(),
            None => false,
        }
    }

    /// The value the named flag was given, if any.
    pub fn get_value(&self, name: &str) -> (r: Option<&String>)
        ensures
            match r {
                Some(v) => spec_get_value(self@, name@) == Some(v@),
                None => spec_get_value(self@, name@) is None,
            },
    {
        match self.flag_ref(name) {
            Some(f) => match &f.value {
                Some(v) => Some(v),
                None => None,
            },
            None => None,
        }
    }

    /// The named flag.
    fn flag_ref(&self, name: &str) -> (r: Option<&Flag>)
        ensures
            match r {
                Some(f) => spec_flag_of(self@, name@) == Some(f@),
                None => spec_flag_of(self@, name@) is None,
            },
    {
        if str_eq(name, "help") {
            Some(&self.help)
        } else if str_eq(name, "version") {
            Some(&self.version)
        } else if str_eq(name, "config") {
            Some(&self.config)
        } else if str_eq(name, "quiet") {
            Some(&self.quiet)
        } else if str_eq(name, "debug") {
            Some(&self.debug)
        } else {
            None
        }
    }
}

/// The flag a name picks.
pub open spec fn spec_flag_of(fs: FlagsView, name: Seq<char>) -> Option<FlagView> {
    if name == "help"@ {
        Some(fs.help)
    } else if name == "version"@ {
        Some(fs.version)
    } else if name == "config"@ {
        Some(fs.config)
    } else if name == "quiet"@ {
        Some(fs.quiet)
    } else if name == "debug"@ {
        Some(fs.debug)
    } else {
        None
    }
}

/// Whether the named flag has a value.
pub open spec fn spec_is_set(fs: FlagsView, name: Seq<char>) -> bool {
    match spec_flag_of(fs, name) {
        Some(f) => f.value is Some,
        None => false,
    }
}

/// The value of the named flag.
pub open spec fn spec_get_value(fs: FlagsView, name: Seq<char>) -> Option<Seq<char>> {
    match spec_flag_of(fs, name) {
        Some(f) => f.value,
        None => None,
    }
}

} // verus!
