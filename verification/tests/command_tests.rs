use aorta::engine::commands::{
    Action, AliasCommand, CommandError, ExitCommand, ExportCommand, SourceCommand,
};
use aorta::engine::config::AliasManager;
use aorta::engine::env::EnvVarManager;
use aorta::input::history::HistoryError;
use aorta::process::ProcessError;

fn alias_command() -> AliasCommand {
    AliasCommand::new(AliasManager::new())
}

fn export_command() -> ExportCommand {
    ExportCommand::new(EnvVarManager::new().unwrap())
}

#[test]
fn test_alias_add() {
    let mut cmd = alias_command();
    assert!(cmd.execute(&["ll='ls -l'".to_string()]).is_ok());
}

#[test]
fn test_alias_list() {
    let mut cmd = alias_command();
    assert!(cmd.execute(&[]).is_ok());
}

#[test]
fn test_alias_invalid() {
    let mut cmd = alias_command();
    assert!(cmd.execute(&["invalid_format".to_string()]).is_err());
}

#[test]
fn test_alias_listing_lines() {
    let mut cmd = alias_command();
    cmd.execute(&["ll='ls -l'".to_string()]).unwrap();
    match cmd.execute(&[]) {
        Ok(Action::Output(lines)) => {
            assert_eq!(lines, vec!["ll='ls -l'".to_string()]);
        }
        other => panic!("unexpected result: {:?}", other),
    }
}

#[test]
fn test_export_simple_sets_table() {
    let mut cmd = export_command();
    match cmd.execute(&["TEST_VAR=value".to_string()]) {
        Ok(Action::SetEnv(name, value)) => {
            assert_eq!(name, "TEST_VAR");
            assert_eq!(value, "value");
        }
        other => panic!("unexpected result: {:?}", other),
    }
}

#[test]
fn test_export_quoted_value() {
    let mut cmd = export_command();
    match cmd.execute(&["TEST_VAR=\"quoted value\"".to_string()]) {
        Ok(Action::SetEnv(_, value)) => assert_eq!(value, "quoted value"),
        other => panic!("unexpected result: {:?}", other),
    }
}

#[test]
fn test_export_empty_args() {
    let mut cmd = export_command();
    assert!(cmd.execute(&[]).is_err());
}

#[test]
fn test_export_invalid_format() {
    let mut cmd = export_command();
    assert!(cmd.execute(&["INVALID".to_string()]).is_err());
}

#[test]
fn test_export_empty_name() {
    let mut cmd = export_command();
    assert!(cmd.execute(&["=value".to_string()]).is_err());
}

#[test]
fn test_source_empty_args() {
    let cmd = SourceCommand::new();
    assert!(cmd.execute(&[]).is_err());
}

#[test]
fn test_exit_requests_termination() {
    let cmd = ExitCommand::new();
    match cmd.execute(&[]) {
        Ok(Action::Exit) => {}
        other => panic!("unexpected result: {:?}", other),
    }
}

#[test]
fn test_command_error_display() {
    let errors = vec![
        CommandError::NotFound("test".to_string()),
        CommandError::InvalidArguments("bad args".to_string()),
        CommandError::ExecutionError("failed".to_string()),
        CommandError::IoError("io error".to_string()),
    ];

    for error in errors {
        assert!(!error.message().is_empty());
    }
}

#[test]
fn test_command_error_messages_exact() {
    assert_eq!(
        CommandError::NotFound("test".to_string()).message(),
        "command not found: test"
    );
    assert_eq!(
        CommandError::InvalidArguments("bad args".to_string()).message(),
        "invalid arguments: bad args"
    );
    assert_eq!(
        CommandError::ExecutionError("failed".to_string()).message(),
        "execution error: failed"
    );
    assert_eq!(
        CommandError::IoError("io error".to_string()).message(),
        "IO error: io error"
    );
    assert_eq!(
        CommandError::ProcessError(ProcessError::CommandNotFound("x".to_string())).message(),
        "Process error: Command not found: x"
    );
    assert_eq!(
        CommandError::HistoryError(HistoryError::EmptyCommand).message(),
        "History error: Empty command"
    );
}

#[test]
fn test_alias_value_keeps_inner_quotes() {
    // Only one layer of matching quotes is removed from an alias value.
    let mut cmd = alias_command();
    cmd.execute(&["x=''y''".to_string()]).unwrap();
    match cmd.execute(&[]) {
        Ok(Action::Output(lines)) => {
            assert_eq!(lines, vec!["x=''y''".to_string()]);
        }
        other => panic!("unexpected result: {:?}", other),
    }
}
