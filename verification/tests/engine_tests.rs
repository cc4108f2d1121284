use pipr::command_evaluation::{
    CmdOutput, CommandExecutionHandler, CommandExecutionRequest, EngineEvent, ExecutionMode,
};

fn shell() -> Vec<String> {
    vec!["bash".to_string(), "-c".to_string()]
}

fn stdout_of(out: Option<CmdOutput>) -> String {
    match out {
        Some(CmdOutput::Okay(s)) => s,
        _ => panic!("expected a successful result"),
    }
}

fn message_of(out: Option<CmdOutput>) -> String {
    match out {
        Some(CmdOutput::NotOk(s)) => s,
        _ => panic!("expected a failed result"),
    }
}

#[test]
fn test_replacement_discards_previous_output() {
    // submitting B right after A must deliver only B's output
    let mut engine = CommandExecutionHandler::start(2000, ExecutionMode::UNSAFE, shell());
    let a = CommandExecutionRequest::new("echo a".to_string(), None);
    assert!(engine.on_request(a).is_ok());
    assert!(engine.on_event(EngineEvent::OutLine("from-a".to_string())).is_none());

    let b = CommandExecutionRequest::new("echo b".to_string(), None);
    assert!(engine.on_request(b).is_ok());
    assert!(engine.on_event(EngineEvent::OutLine("from-b".to_string())).is_none());
    let delivered = stdout_of(engine.on_event(EngineEvent::Exited(true)));
    assert_eq!(delivered, "from-b\n");
    assert!(!delivered.contains("from-a"));
}

#[test]
fn test_timeout_yields_not_ok() {
    let mut engine = CommandExecutionHandler::start(10, ExecutionMode::UNSAFE, shell());
    let req = CommandExecutionRequest::new("sleep 5".to_string(), None);
    assert!(engine.on_request(req).is_ok());
    assert_eq!(message_of(engine.on_event(EngineEvent::TimedOut)), "Command timed out");
    // the slot is idle again: further events deliver nothing
    assert!(engine.on_event(EngineEvent::Exited(true)).is_none());
}

#[test]
fn test_failed_run_delivers_stderr() {
    let mut engine = CommandExecutionHandler::start(2000, ExecutionMode::UNSAFE, shell());
    let req = CommandExecutionRequest::new("boom".to_string(), None);
    assert!(engine.on_request(req).is_ok());
    engine.on_event(EngineEvent::OutLine("partial".to_string()));
    engine.on_event(EngineEvent::ErrLine("command not found".to_string()));
    assert_eq!(
        message_of(engine.on_event(EngineEvent::Exited(false))),
        "command not found\n"
    );
}

#[test]
fn test_guard_rejects_destructive_commands() {
    let mode = ExecutionMode::UNSAFE;
    let err = mode.spawn_invocation(&shell(), &"rm -rf /tmp/x".to_string());
    assert!(err.is_err());
    let err = mode.spawn_invocation(&shell(), &"echo a; mv x y".to_string());
    assert!(err.is_err());
    let err = mode.spawn_invocation(&shell(), &"dd if=/dev/zero".to_string());
    assert!(err.is_err());
    let ok = mode.spawn_invocation(&shell(), &"echo rma".to_string());
    assert_eq!(ok.unwrap(), vec!["bash", "-c", "echo rma"]);
}

#[test]
fn test_rejected_request_reports_not_ok() {
    let mut engine = CommandExecutionHandler::start(2000, ExecutionMode::UNSAFE, shell());
    let req = CommandExecutionRequest::new("rm file".to_string(), None);
    match engine.on_request(req) {
        Err(CmdOutput::NotOk(m)) => {
            assert_eq!(m, "Will not run this command, it's for your own good. Believe me.")
        }
        _ => panic!("the guard should reject the command"),
    }
}

#[test]
fn test_isolated_invocation_uses_sandbox() {
    let mode = ExecutionMode::ISOLATED;
    let argv = mode.spawn_invocation(&shell(), &"rm x".to_string()).unwrap();
    assert_eq!(argv[0], "bwrap");
    assert_eq!(argv[argv.len() - 1], "rm x");
    assert!(argv.contains(&"--unshare-pid".to_string()));
}

#[test]
fn test_read_error_reports_message() {
    let mut engine = CommandExecutionHandler::start(2000, ExecutionMode::ISOLATED, shell());
    let req = CommandExecutionRequest::new("cat big".to_string(), None);
    assert!(engine.on_request(req).is_ok());
    assert_eq!(
        message_of(engine.on_event(EngineEvent::ReadError("bad byte".to_string()))),
        "Error: bad byte"
    );
}

#[test]
fn test_rejected_submission_abandons_previous_run() {
    // a rejected submission still cancels the run it replaces: nothing
    // of the earlier command's output is ever delivered
    let mut engine = CommandExecutionHandler::start(2000, ExecutionMode::UNSAFE, shell());
    let a = CommandExecutionRequest::new("echo a".to_string(), None);
    assert!(engine.on_request(a).is_ok());
    engine.on_event(EngineEvent::OutLine("from-a".to_string()));

    let b = CommandExecutionRequest::new("rm x".to_string(), None);
    assert!(engine.on_request(b).is_err());
    // the slot is idle: the earlier run's exit delivers nothing
    assert!(engine.on_event(EngineEvent::Exited(true)).is_none());
}
