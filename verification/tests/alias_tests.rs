use aorta::engine::config::AliasManager;

#[test]
fn test_add_and_get_alias() {
    let mut manager = AliasManager::new();
    manager.add("ll", "ls -la");
    assert_eq!(manager.get("ll").unwrap(), "ls -la");
}

#[test]
fn test_expand_command() {
    let mut manager = AliasManager::new();
    manager.add("ll", "ls -la");

    let expanded = manager.expand_command("ll /home");
    assert_eq!(expanded, "ls -la /home");
}

#[test]
fn aliases_test_no_expansion_needed() {
    let manager = AliasManager::new();
    let command = "ls -l";
    let expanded = manager.expand_command(command);
    assert_eq!(expanded, command);
}

#[test]
fn test_get_all() {
    let mut manager = AliasManager::new();
    manager.add("ll", "ls -la");
    manager.add("gs", "git status");

    let all = manager.get_all();
    assert_eq!(all.len(), 2);
    let ll = all.iter().find(|p| p.0 == "ll").unwrap();
    assert_eq!(ll.1, "ls -la");
    let gs = all.iter().find(|p| p.0 == "gs").unwrap();
    assert_eq!(gs.1, "git status");
    // The listing comes sorted ascending by name.
    assert_eq!(
        all,
        vec![
            ("gs".to_string(), "git status".to_string()),
            ("ll".to_string(), "ls -la".to_string())
        ]
    );
}

#[test]
fn test_alias_round_trip_with_arguments() {
    let mut manager = AliasManager::new();
    manager.add("ll", "ls -la");
    assert_eq!(manager.expand_command("ll /tmp"), "ls -la /tmp");
}

#[test]
fn test_expand_command_keeps_rest_of_line_untouched() {
    let mut manager = AliasManager::new();
    manager.add("ll", "ls -la");
    // Only the first token is replaced; interior whitespace stays.
    assert_eq!(manager.expand_command("ll  a	b"), "ls -la  a	b");
    // Leading whitespace before the first token also stays.
    assert_eq!(manager.expand_command("  ll x"), "  ls -la x");
    // A tab separator after the first token stays.
    assert_eq!(manager.expand_command("ll	x"), "ls -la	x");
}

#[test]
fn test_replacing_an_alias_keeps_one_binding() {
    let mut manager = AliasManager::new();
    manager.add("ll", "ls -l");
    manager.add("ll", "ls -la");
    assert_eq!(manager.len(), 1);
    assert_eq!(manager.get("ll").unwrap(), "ls -la");
}
