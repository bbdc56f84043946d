use aorta::engine::commands::{Action, CommandExecutor};
use aorta::engine::env::EnvVarManager;
use aorta::flags::Flags;
use aorta::path::PathExpander;
use aorta::shell::pipeline::{Pipeline, PipelineOperator};

#[test]
fn test_flags_parse_quiet() {
    let mut flags = Flags::new();
    flags.parse(&["-q".to_string()]).unwrap();
    assert!(flags.is_set("quiet"));
    assert!(!flags.is_set("debug"));
    assert!(!flags.is_set("unknown"));
}

#[test]
fn test_flags_parse_config_value() {
    let mut flags = Flags::new();
    flags
        .parse(&["--config".to_string(), "/tmp/rc".to_string()])
        .unwrap();
    assert_eq!(flags.get_value("config").unwrap(), "/tmp/rc");
}

#[test]
fn test_flags_config_needs_value() {
    let mut flags = Flags::new();
    assert!(flags.parse(&["-c".to_string()]).is_err());
}

#[test]
fn test_flags_config_consumes_next_argument() {
    let mut flags = Flags::new();
    flags
        .parse(&["-c".to_string(), "-q".to_string()])
        .unwrap();
    // `-q` was consumed as the config value, so quiet is not set.
    assert!(!flags.is_set("quiet"));
    assert_eq!(flags.get_value("config").unwrap(), "-q");
}

#[test]
fn test_builtin_command_names() {
    let executor = CommandExecutor::new(&Flags::new()).unwrap();
    assert!(executor.is_builtin("cd"));
    assert!(executor.is_builtin("source"));
    assert!(executor.is_builtin("exit"));
    assert!(executor.is_builtin("alias"));
    assert!(executor.is_builtin("history"));
    assert!(executor.is_builtin("export"));
    assert!(!executor.is_builtin("unknown"));
    assert!(!executor.is_builtin(""));
}

#[test]
fn test_dispatch_unknown_command_becomes_spawn() {
    let mut executor = CommandExecutor::new(&Flags::new()).unwrap();
    match executor.execute("unknown_command", &["x".to_string()]) {
        Ok(Action::Spawn(full)) => {
            assert_eq!(full, vec!["unknown_command".to_string(), "x".to_string()]);
        }
        other => panic!("unexpected result: {:?}", other),
    }
}

#[test]
fn test_dispatch_exit_never_continues() {
    let mut executor = CommandExecutor::new(&Flags::new()).unwrap();
    match executor.execute("exit", &[]) {
        Ok(Action::Exit) => {}
        other => panic!("unexpected result: {:?}", other),
    }
}

#[test]
fn test_dispatch_cd_requests_directory_change() {
    let mut executor = CommandExecutor::new(&Flags::new()).unwrap();
    match executor.execute("cd", &["/nonexistent".to_string()]) {
        Ok(Action::Chdir(path)) => assert_eq!(path, "/nonexistent"),
        other => panic!("unexpected result: {:?}", other),
    }
}

#[test]
fn test_export_then_expand_scenario() {
    // The end-to-end shape of `export X=1;echo $X`: the parser splits the
    // two stages, the dispatcher sets `X`, and expanding the second stage
    // against the resulting environment yields `echo 1`.
    let p = Pipeline::parse("export X=1;echo $X").unwrap();
    let stages = p.stages();
    assert_eq!(stages.len(), 2);
    assert_eq!(stages[0].command, "export");
    assert_eq!(stages[0].args, vec!["X=1".to_string()]);
    assert!(matches!(stages[0].operator, Some(PipelineOperator::Sequence)));
    assert_eq!(stages[1].command, "echo");

    let mut executor = CommandExecutor::new(&Flags::new()).unwrap();
    let mut env = EnvVarManager::new().unwrap();
    match executor.execute("export", &["X=1".to_string()]) {
        Ok(Action::SetEnv(name, value)) => {
            env.set(name.as_str(), value.as_str()).unwrap();
        }
        other => panic!("unexpected result: {:?}", other),
    }
    assert_eq!(env.expand_string("echo $X"), "echo 1");
}

#[test]
fn test_expand_with_home() {
    let expander = PathExpander::new();
    assert_eq!(expander.expand_with_home("~", "/home/u"), "/home/u");
    assert_eq!(expander.expand_with_home("~/test", "/home/u"), "/home/u/test");
    assert_eq!(
        expander.expand_with_home("~/test/nested", "/home/u"),
        "/home/u/test/nested"
    );
    assert_eq!(expander.expand_with_home("~user", "/home/u"), "~user");
}

#[test]
fn test_non_tilde_paths() {
    let expander = PathExpander::new();

    assert_eq!(expander.expand("/usr/local").unwrap(), "/usr/local");

    assert_eq!(expander.expand("./test").unwrap(), "./test");
}

#[test]
fn test_is_home_path() {
    let expander = PathExpander::new();
    assert!(expander.is_home_path("~"));
    assert!(expander.is_home_path("~/x"));
    assert!(!expander.is_home_path("/tmp"));
}

#[test]
fn test_dispatch_history_listing_and_unknown_subcommand() {
    let mut executor = CommandExecutor::new(&Flags::new()).unwrap();
    match executor.execute("history", &[]) {
        Ok(Action::Output(lines)) => assert!(lines.is_empty()),
        other => panic!("unexpected result: {:?}", other),
    }
    assert!(executor
        .execute("history", &["bogus".to_string()])
        .is_err());
}

#[test]
fn test_dispatch_export_sanitizes_path() {
    let mut executor = CommandExecutor::new(&Flags::new()).unwrap();
    match executor.execute("export", &["PATH=/usr/bin:/usr/bin:/opt".to_string()]) {
        Ok(Action::SetEnv(name, value)) => {
            assert_eq!(name, "PATH");
            assert_eq!(value, "/usr/bin:/opt");
        }
        other => panic!("unexpected result: {:?}", other),
    }
}

#[test]
fn test_dispatch_alias_updates_own_table() {
    let mut executor = CommandExecutor::new(&Flags::new()).unwrap();
    executor
        .execute("alias", &["ll='ls -la'".to_string()])
        .unwrap();
    assert_eq!(executor.get_alias("ll").unwrap(), "ls -la");
    match executor.execute("alias", &[]) {
        Ok(Action::Output(lines)) => assert_eq!(lines, vec!["ll='ls -la'".to_string()]),
        other => panic!("unexpected result: {:?}", other),
    }
}

#[test]
fn test_dispatch_source_needs_path() {
    let mut executor = CommandExecutor::new(&Flags::new()).unwrap();
    assert!(executor.execute("source", &[]).is_err());
    match executor.execute("source", &["/tmp/script".to_string()]) {
        Ok(Action::ReadScript(path)) => assert_eq!(path, "/tmp/script"),
        other => panic!("unexpected result: {:?}", other),
    }
}
