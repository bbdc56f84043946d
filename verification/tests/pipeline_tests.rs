use aorta::engine::config::AliasManager;
use aorta::shell::pipeline::{Pipeline, PipelineError, PipelineOperator, StageAction};

fn parse_err_message(input: &str) -> String {
    match Pipeline::parse(input) {
        Ok(_) => panic!("expected a parse error for {:?}", input),
        Err(PipelineError::ParseError(m)) => m,
        Err(_) => panic!("expected a ParseError for {:?}", input),
    }
}

#[test]
fn test_parse_single_command() {
    let p = Pipeline::parse("ls -la").unwrap();
    let stages = p.stages();
    assert_eq!(stages.len(), 1);
    assert_eq!(stages[0].command, "ls");
    assert_eq!(stages[0].args, vec!["-la".to_string()]);
    assert!(stages[0].operator.is_none());
}

#[test]
fn test_parse_pipe() {
    let p = Pipeline::parse("ls | grep foo").unwrap();
    let stages = p.stages();
    assert_eq!(stages.len(), 2);
    assert_eq!(stages[0].command, "ls");
    assert!(stages[0].args.is_empty());
    assert!(matches!(stages[0].operator, Some(PipelineOperator::Pipe)));
    assert_eq!(stages[1].command, "grep");
    assert_eq!(stages[1].args, vec!["foo".to_string()]);
    assert!(stages[1].operator.is_none());
}

#[test]
fn test_parse_operators() {
    let p = Pipeline::parse("a && b ; c > d").unwrap();
    let stages = p.stages();
    assert_eq!(stages.len(), 4);
    assert!(matches!(stages[0].operator, Some(PipelineOperator::And)));
    assert!(matches!(stages[1].operator, Some(PipelineOperator::Sequence)));
    assert!(matches!(stages[2].operator, Some(PipelineOperator::Redirect)));
    assert_eq!(stages[3].command, "d");
}

#[test]
fn test_parse_or_operator() {
    let p = Pipeline::parse("a || b").unwrap();
    let stages = p.stages();
    assert_eq!(stages.len(), 2);
    assert!(matches!(stages[0].operator, Some(PipelineOperator::Or)));
}

#[test]
fn test_parse_dangling_pipe() {
    assert!(Pipeline::parse("ls |").is_err());
    assert!(Pipeline::parse("ls |   ").is_err());
}

#[test]
fn test_parse_dangling_and() {
    assert!(Pipeline::parse("ls &&").is_err());
    assert!(Pipeline::parse("ls && ").is_err());
}

#[test]
fn test_parse_dangling_or() {
    assert!(Pipeline::parse("ls ||").is_err());
}

#[test]
fn test_parse_empty_pipeline() {
    assert_eq!(parse_err_message(""), "Empty pipeline");
    assert_eq!(parse_err_message("   "), "Empty pipeline");
    assert_eq!(parse_err_message("\t \n"), "Empty pipeline");
}

#[test]
fn test_parse_empty_command() {
    assert_eq!(parse_err_message("; ls"), "Empty command");
    assert_eq!(parse_err_message("a | | b"), "Empty command");
}

#[test]
fn test_plan_pipe_stages() {
    let aliases = AliasManager::new();
    let p = Pipeline::parse("ls | grep foo").unwrap();
    let plan = p.execution_plan(&aliases).unwrap();
    assert_eq!(plan.len(), 2);
    match &plan[0] {
        StageAction::CaptureSpawn { command, args } => {
            assert_eq!(command, "ls");
            assert!(args.is_empty());
        }
        other => panic!("unexpected first action: {:?}", other),
    }
    match &plan[1] {
        StageAction::Run { command, args } => {
            assert_eq!(command, "grep");
            assert_eq!(args, &vec!["foo".to_string()]);
        }
        other => panic!("unexpected second action: {:?}", other),
    }
}

#[test]
fn test_plan_grep_filter() {
    let aliases = AliasManager::new();
    let p = Pipeline::parse("cat f | grep x | sort").unwrap();
    let plan = p.execution_plan(&aliases).unwrap();
    assert_eq!(plan.len(), 3);
    assert!(matches!(&plan[0], StageAction::CaptureSpawn { .. }));
    match &plan[1] {
        StageAction::CaptureGrep { args } => {
            assert_eq!(args, &vec!["x".to_string()]);
        }
        other => panic!("unexpected action: {:?}", other),
    }
    assert!(matches!(&plan[2], StageAction::Run { .. }));
}

#[test]
fn test_plan_grep_without_pattern() {
    let aliases = AliasManager::new();
    let p = Pipeline::parse("cat f | grep | sort").unwrap();
    match p.execution_plan(&aliases) {
        Err(PipelineError::ExecutionError(m)) => {
            assert_eq!(m, "grep: no pattern specified");
        }
        other => panic!("unexpected plan result: {:?}", other),
    }
}

#[test]
fn test_plan_redirect() {
    let aliases = AliasManager::new();
    let p = Pipeline::parse("ls > out.txt").unwrap();
    let plan = p.execution_plan(&aliases).unwrap();
    assert_eq!(plan.len(), 1);
    match &plan[0] {
        StageAction::RedirectSpawn { command, args, path } => {
            assert_eq!(command, "ls");
            assert!(args.is_empty());
            assert_eq!(path, "out.txt");
        }
        other => panic!("unexpected action: {:?}", other),
    }
}

#[test]
fn test_plan_redirect_of_captured_output() {
    let aliases = AliasManager::new();
    let p = Pipeline::parse("ls | sort > out.txt").unwrap();
    let plan = p.execution_plan(&aliases).unwrap();
    assert_eq!(plan.len(), 2);
    assert!(matches!(&plan[0], StageAction::CaptureSpawn { .. }));
    match &plan[1] {
        StageAction::RedirectBuffer { path } => assert_eq!(path, "out.txt"),
        other => panic!("unexpected action: {:?}", other),
    }
}

#[test]
fn test_plan_trailing_buffer_is_printed() {
    let aliases = AliasManager::new();
    let p = Pipeline::parse("ls | sort").unwrap();
    // The last stage runs through the dispatcher, so no buffer remains.
    let plan = p.execution_plan(&aliases).unwrap();
    assert_eq!(plan.len(), 2);
    assert!(matches!(&plan[1], StageAction::Run { .. }));
}

#[test]
fn test_plan_applies_alias() {
    let mut aliases = AliasManager::new();
    aliases.add("ll", "ls -la");
    let p = Pipeline::parse("ll /tmp ; pwd").unwrap();
    let plan = p.execution_plan(&aliases).unwrap();
    match &plan[0] {
        StageAction::Run { command, args } => {
            assert_eq!(command, "ls");
            assert_eq!(args, &vec!["-la".to_string(), "/tmp".to_string()]);
        }
        other => panic!("unexpected action: {:?}", other),
    }
}

#[test]
fn test_plan_redirect_without_target_fails() {
    let aliases = AliasManager::new();
    let p = Pipeline::parse("ls >").unwrap();
    match p.execution_plan(&aliases) {
        Err(PipelineError::ExecutionError(m)) => {
            assert_eq!(m, "Redirect operator requires a file path");
        }
        other => panic!("unexpected plan result: {:?}", other),
    }
}

#[test]
fn test_plan_alias_with_empty_value_keeps_command() {
    let mut aliases = AliasManager::new();
    aliases.add("x", "");
    let p = Pipeline::parse("x").unwrap();
    let plan = p.execution_plan(&aliases).unwrap();
    match &plan[0] {
        StageAction::Run { command, .. } => assert_eq!(command, "x"),
        other => panic!("unexpected action: {:?}", other),
    }
}
