use aorta::engine::env::{EnvError, EnvPaths, EnvVarManager};

fn manager_with(vars: &[(&str, &str)]) -> EnvVarManager {
    let mut m = EnvVarManager::new().unwrap();
    for (k, v) in vars {
        m.set(k, v).unwrap();
    }
    m
}

#[test]
fn test_set_and_get_variable() {
    let mut manager = EnvVarManager::new().unwrap();
    manager.set("TEST_VAR", "test value").unwrap();
    assert_eq!(manager.get("TEST_VAR").unwrap(), "test value");
}

#[test]
fn test_get_missing_variable() {
    let manager = EnvVarManager::new().unwrap();
    assert!(matches!(
        manager.get("NOWHERE"),
        Err(EnvError::VarNotFound(_))
    ));
}

#[test]
fn test_invalid_var_name_rejected() {
    let mut manager = EnvVarManager::new().unwrap();
    assert!(manager.set("", "value").is_err());
}

#[test]
fn test_sanitize_path_dedup() {
    let manager = EnvVarManager::new().unwrap();
    let path = "/usr/bin:/usr/local/bin:/usr/bin";
    let sanitized = manager.sanitize_path(path).unwrap();
    assert_eq!(sanitized, "/usr/bin:/usr/local/bin");
}

#[test]
fn test_sanitize_path_strips_quotes_and_empties() {
    let manager = EnvVarManager::new().unwrap();
    let sanitized = manager.sanitize_path("\"/a\"::'/b'").unwrap();
    assert_eq!(sanitized, "/a:/b");
}

#[test]
fn test_expand_value_home_and_path() {
    let manager = manager_with(&[("HOME", "/home/test"), ("PATH", "/usr/bin")]);
    let expanded = manager.expand_value("$HOME/bin:$PATH").unwrap();
    assert_eq!(expanded, "/home/test/bin:/usr/bin");
}

#[test]
fn test_expand_home_reference() {
    let manager = manager_with(&[("HOME", "/home/u")]);
    assert_eq!(manager.expand_string("$HOME/bin"), "/home/u/bin");
}

#[test]
fn test_expand_unset_variable_becomes_empty() {
    let manager = manager_with(&[("HOME", "/home/u")]);
    assert_eq!(manager.expand_string("$MISSING"), "");
    assert_eq!(manager.expand_string("a$MISSING-b"), "a-b");
}

#[test]
fn test_expansion_is_idempotent() {
    let manager = manager_with(&[("HOME", "/home/u"), ("X", "1")]);
    let once = manager.expand_string("$HOME $X plain");
    let twice = manager.expand_string(once.as_str());
    assert_eq!(once, twice);
    assert_eq!(once, "/home/u 1 plain");
}

#[test]
fn test_env_paths_derived_dirs() {
    let paths = EnvPaths::new("/home/testuser").unwrap();
    assert_eq!(paths.home(), "/home/testuser");
    assert_eq!(paths.config_dir(), "/home/testuser/.config");
    assert_eq!(paths.cache_dir(), "/home/testuser/.cache");
    assert_eq!(paths.get_config_file("test.conf"), "/home/testuser/.config/test.conf");
    assert_eq!(paths.get_cache_file("c"), "/home/testuser/.cache/c");
}

#[test]
fn test_env_paths_need_home() {
    assert!(matches!(EnvPaths::new(""), Err(EnvError::HomeDirNotFound)));
}
