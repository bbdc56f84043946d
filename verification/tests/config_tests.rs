use aorta::engine::config::loader::{BlockStep, Condition, LineDirective};
use aorta::engine::config::{Config, ConfigError, ConfigLoader, ConfigPaths};

fn setup() -> (ConfigPaths, Config) {
    let paths = ConfigPaths::new("/home/testuser").unwrap();
    let config = Config::new("/home/testuser").unwrap();
    (paths, config)
}

#[test]
fn test_new_paths() {
    let paths = ConfigPaths::new("/home/testuser").unwrap();
    assert_eq!(paths.rc_path, "/home/testuser/.aortarc");
    assert_eq!(paths.profile_path, "/home/testuser/.profile");
}

#[test]
fn test_missing_home() {
    assert!(matches!(
        ConfigPaths::new(""),
        Err(ConfigError::HomeDirNotFound)
    ));
}

#[test]
fn test_process_alias() {
    let (paths, mut config) = setup();
    let loader = ConfigLoader::new(&paths);

    loader.process_alias("ll='ls -la'", &mut config).unwrap();
    assert_eq!(config.get_alias("ll").unwrap(), "ls -la");
}

#[test]
fn test_process_env_var_sets_table() {
    let (paths, mut config) = setup();
    let loader = ConfigLoader::new(&paths);

    loader
        .process_env_var("HOME=\"/home/u\"", &mut config)
        .unwrap();
    assert_eq!(
        config.expand_aliases("x"),
        "x",
        "aliases are untouched by an export"
    );
    let loader2 = ConfigLoader::new(&paths);
    assert!(loader2.check_equality("[ $HOME = /home/u ]", &config));
    assert!(!loader2.check_equality("[ $HOME = /other ]", &config));
}

#[test]
fn test_process_path_var_prepends() {
    let (paths, mut config) = setup();
    let loader = ConfigLoader::new(&paths);

    loader.process_env_var("PATH=/usr/bin", &mut config).unwrap();
    loader
        .process_path_var("/usr/local/bin:$PATH", &mut config)
        .unwrap();
    let line = loader
        .process_line("if [ $PATH = /usr/local/bin:/usr/bin ]", &mut config)
        .unwrap();
    match line {
        LineDirective::Branch(Condition::Decided(b)) => assert!(b),
        other => panic!("unexpected directive: {:?}", other),
    }
}

#[test]
fn test_process_path_var_without_path_fails() {
    let (paths, mut config) = setup();
    let loader = ConfigLoader::new(&paths);
    assert!(matches!(
        loader.process_path_var("/usr/local/bin", &mut config),
        Err(ConfigError::EnvVarNotFound(_))
    ));
}

#[test]
fn test_process_line_skips_comments_and_blanks() {
    let (paths, mut config) = setup();
    let loader = ConfigLoader::new(&paths);
    assert!(matches!(
        loader.process_line("# comment", &mut config).unwrap(),
        LineDirective::Handled
    ));
    assert!(matches!(
        loader.process_line("   ", &mut config).unwrap(),
        LineDirective::Handled
    ));
}

#[test]
fn test_process_line_alias() {
    let (paths, mut config) = setup();
    let loader = ConfigLoader::new(&paths);
    let d = loader.process_line("alias gs='git status'", &mut config).unwrap();
    assert!(matches!(d, LineDirective::Handled));
    assert_eq!(config.get_alias("gs").unwrap(), "git status");
}

#[test]
fn test_conditional_var_checks() {
    let (paths, mut config) = setup();
    let loader = ConfigLoader::new(&paths);
    loader.process_env_var("X=1", &mut config).unwrap();

    match loader.evaluate_condition("[ -n \"$X\" ]", &config).unwrap() {
        Condition::Decided(b) => assert!(b),
        other => panic!("unexpected condition: {:?}", other),
    }
    match loader.evaluate_condition("[ -z \"$X\" ]", &config).unwrap() {
        Condition::Decided(b) => assert!(!b),
        other => panic!("unexpected condition: {:?}", other),
    }
    match loader.evaluate_condition("[ -n \"$UNSET\" ]", &config).unwrap() {
        Condition::Decided(b) => assert!(!b),
        other => panic!("unexpected condition: {:?}", other),
    }
}

#[test]
fn test_conditional_file_checks_become_probes() {
    let (paths, config) = setup();
    let loader = ConfigLoader::new(&paths);
    match loader.evaluate_condition("[ -f \"/etc/hosts\" ]", &config).unwrap() {
        Condition::NeedsFile(p) => assert_eq!(p, "/etc/hosts"),
        other => panic!("unexpected condition: {:?}", other),
    }
    match loader.evaluate_condition("[ -d \"/etc\" ]", &config).unwrap() {
        Condition::NeedsDir(p) => assert_eq!(p, "/etc"),
        other => panic!("unexpected condition: {:?}", other),
    }
}

#[test]
fn test_conditional_block_steps() {
    let (paths, _config) = setup();
    let loader = ConfigLoader::new(&paths);
    let (in_then, skip, step) = loader.process_conditional_block(false, false, "then");
    assert!(in_then && !skip && step == BlockStep::Skip);
    let (in_then, skip, step) = loader.process_conditional_block(true, false, "export A=1");
    assert!(in_then && !skip && step == BlockStep::Process);
    let (in_then, skip, step) = loader.process_conditional_block(true, false, "else");
    assert!(in_then && skip && step == BlockStep::Skip);
    let (_, _, step) = loader.process_conditional_block(true, true, "fi");
    assert!(step == BlockStep::End);
}

#[test]
fn test_process_source_expands_path() {
    let (paths, mut config) = setup();
    let loader = ConfigLoader::new(&paths);
    loader.process_env_var("HOME=/home/u", &mut config).unwrap();
    let target = loader.process_source("source $HOME/.extra", &config).unwrap();
    assert_eq!(target, "/home/u/.extra");
}

#[test]
fn test_load_configs_order() {
    let (paths, _config) = setup();
    let loader = ConfigLoader::new(&paths);
    let files = loader.load_configs();
    assert_eq!(
        files,
        vec![
            "/home/testuser/.profile".to_string(),
            "/home/testuser/.aortarc".to_string()
        ]
    );
}
