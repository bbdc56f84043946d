use aorta::engine::commands::history::{format_timestamp, render_format_entry, HistoryCommand};
use aorta::engine::commands::Action;
use aorta::input::history::file_ops::{parse_entry_line, render_entry};
use aorta::input::history::{History, HistoryEntry, HistoryError, HistorySearchMode};

fn history() -> History {
    History::new(".test_history".to_string(), 1000).unwrap()
}

fn commands_of(entries: &[HistoryEntry]) -> Vec<String> {
    entries
        .iter()
        .map(|e| match e {
            HistoryEntry::Command { command, .. } => command.clone(),
            HistoryEntry::Event { description, .. } => description.clone(),
        })
        .collect()
}

#[test]
fn test_add_and_get_recent() {
    let mut h = history();
    h.add_with_details("ls", 0, 5, 100).unwrap();
    h.add_with_details("pwd", 0, 3, 101).unwrap();
    let recent = h.get_recent(10);
    assert_eq!(commands_of(&recent), vec!["pwd".to_string(), "ls".to_string()]);
}

#[test]
fn test_add_blank_command_rejected() {
    let mut h = history();
    assert!(matches!(
        h.add_with_details("   ", 0, 0, 100),
        Err(HistoryError::EmptyCommand)
    ));
}

#[test]
fn test_trimming_to_max_entries() {
    let mut h = History::new(".test_history".to_string(), 2).unwrap();
    h.add_with_details("a", 0, 0, 1).unwrap();
    h.add_with_details("b", 0, 0, 2).unwrap();
    h.add_with_details("c", 0, 0, 3).unwrap();
    let recent = h.get_recent(10);
    assert_eq!(commands_of(&recent), vec!["c".to_string(), "b".to_string()]);
}

#[test]
fn test_delete_at_and_invalid_index() {
    let mut h = history();
    h.add_with_details("a", 0, 0, 1).unwrap();
    h.add_with_details("b", 0, 0, 2).unwrap();
    assert!(matches!(h.delete_at(5), Err(HistoryError::InvalidIndex(5))));
    h.delete_at(0).unwrap();
    assert_eq!(commands_of(&h.get_recent(10)), vec!["b".to_string()]);
}

#[test]
fn test_search_modes() {
    let mut h = history();
    h.add_with_details("git status", 0, 0, 1).unwrap();
    h.add_with_details("git push", 0, 0, 2).unwrap();
    h.add_with_details("ls -la", 0, 0, 3).unwrap();

    let by_prefix = h.search(HistorySearchMode::Prefix, "git");
    assert_eq!(
        commands_of(&by_prefix),
        vec!["git status".to_string(), "git push".to_string()]
    );

    let by_contains = h.search(HistorySearchMode::Contains, "push");
    assert_eq!(commands_of(&by_contains), vec!["git push".to_string()]);

    let by_range = h.search(HistorySearchMode::TimeRange(2, 3), "");
    assert_eq!(
        commands_of(&by_range),
        vec!["git push".to_string(), "ls -la".to_string()]
    );

    let last = h.search(HistorySearchMode::LastN(1), "");
    assert_eq!(commands_of(&last), vec!["ls -la".to_string()]);
}

#[test]
fn test_calculate_stats_totals() {
    let mut h = history();
    h.add_with_details("ls", 0, 10, 1).unwrap();
    h.add_with_details("ls", 1, 20, 2).unwrap();
    h.add_with_details("pwd", 0, 30, 3).unwrap();
    let stats = h.calculate_stats();
    assert_eq!(stats.total_commands, 3);
    assert_eq!(stats.unique_commands, 2);
    assert_eq!(stats.failed_commands, 1);
    assert_eq!(stats.average_duration, 20);
    assert!(stats.most_used.len() <= 10);
    let ls = stats.most_used.iter().find(|p| p.0 == "ls").unwrap();
    assert_eq!(ls.1, 2);
}

#[test]
fn test_clear_forgets_everything() {
    let mut h = history();
    h.add_with_details("ls", 0, 0, 1).unwrap();
    h.clear().unwrap();
    assert!(h.get_recent(10).is_empty());
}

#[test]
fn test_render_and_parse_round_trip() {
    let entry = HistoryEntry::new_command("cargo build".to_string(), 1, 250, 1700000000);
    let line = render_entry(&entry);
    assert_eq!(line, "cargo build|1700000000|1|250");
    match parse_entry_line(&line, 0).unwrap() {
        HistoryEntry::Command {
            command,
            timestamp,
            exit_code,
            duration,
        } => {
            assert_eq!(command, "cargo build");
            assert_eq!(timestamp, 1700000000);
            assert_eq!(exit_code, 1);
            assert_eq!(duration, 250);
        }
        other => panic!("unexpected entry: {:?}", other),
    }
}

#[test]
fn test_parse_plain_line_as_command() {
    match parse_entry_line("just a command", 42).unwrap() {
        HistoryEntry::Command {
            command, timestamp, ..
        } => {
            assert_eq!(command, "just a command");
            assert_eq!(timestamp, 42);
        }
        other => panic!("unexpected entry: {:?}", other),
    }
}

#[test]
fn test_parse_bad_timestamp_fails() {
    assert!(parse_entry_line("cmd|notanumber|0|0", 0).is_err());
}

#[test]
fn test_format_timestamp_pads() {
    assert_eq!(format_timestamp(3661), "01:01:01");
    assert_eq!(format_timestamp(0), "00:00:00");
}

#[test]
fn test_format_entry_line() {
    let ok = HistoryEntry::new_command("ls".to_string(), 0, 7, 3661);
    assert_eq!(render_format_entry(&ok), "01:01:01 [\u{2713}] (0) ls [7ms]");
    let failed = HistoryEntry::new_command("ls".to_string(), 2, 7, 3661);
    assert_eq!(render_format_entry(&failed), "01:01:01 [\u{2717}] (2) ls [7ms]");
    let event = HistoryEntry::new_event("session started".to_string(), 60);
    assert_eq!(render_format_entry(&event), "00:01:00 [EVENT] session started");
}

#[test]
fn test_history_delete_via_command() {
    let mut h = history();
    h.add_with_details("a", 0, 0, 1).unwrap();
    h.add_with_details("b", 0, 0, 2).unwrap();
    let mut cmd = HistoryCommand::new(h);
    match cmd.execute(&["delete".to_string(), "0".to_string()]) {
        Ok(Action::PersistHistory(lines)) => {
            assert_eq!(lines, vec!["b|2|0|0".to_string()]);
        }
        other => panic!("unexpected result: {:?}", other),
    }
    assert!(cmd.execute(&["delete".to_string()]).is_err());
    assert!(cmd
        .execute(&["delete".to_string(), "notanumber".to_string()])
        .is_err());
}

#[test]
fn test_history_stats_via_command() {
    let mut h = history();
    h.add_with_details("ls", 0, 10, 1).unwrap();
    h.add_with_details("ls", 1, 30, 2).unwrap();
    let mut cmd = HistoryCommand::new(h);
    match cmd.execute(&["stats".to_string()]) {
        Ok(Action::Output(lines)) => {
            assert_eq!(lines[0], "History Statistics:");
            assert_eq!(lines[1], "Total commands: 2");
            assert_eq!(lines[2], "Unique commands: 1");
            assert_eq!(lines[3], "Failed commands: 1");
            assert_eq!(lines[4], "Average duration: 20ms");
            assert_eq!(lines[5], "\nMost used commands:");
            assert_eq!(lines[6], "  ls (2x)");
        }
        other => panic!("unexpected result: {:?}", other),
    }
}

#[test]
fn test_history_search_via_command() {
    let mut h = history();
    h.add_with_details("git status", 0, 0, 3600).unwrap();
    h.add_with_details("ls", 0, 0, 3600).unwrap();
    let mut cmd = HistoryCommand::new(h);
    match cmd.execute(&["search".to_string(), "--prefix".to_string(), "git".to_string()]) {
        Ok(Action::Output(lines)) => {
            assert_eq!(lines, vec!["01:00:00 [\u{2713}] (0) git status [0ms]".to_string()]);
        }
        other => panic!("unexpected result: {:?}", other),
    }
}

#[test]
fn test_most_used_ordering() {
    let mut h = history();
    h.add_with_details("b", 0, 0, 1).unwrap();
    h.add_with_details("a", 0, 0, 2).unwrap();
    h.add_with_details("c", 0, 0, 3).unwrap();
    h.add_with_details("c", 0, 0, 4).unwrap();
    let stats = h.calculate_stats();
    let listing: Vec<(String, usize)> = stats.most_used;
    assert_eq!(
        listing,
        vec![
            ("c".to_string(), 2),
            ("a".to_string(), 1),
            ("b".to_string(), 1)
        ]
    );
}
