use codex_core::cmd::{
    exit_code_gt_one, exit_status_ok, version_cmd, version_result, EngineError, ToolEvent,
};

#[test]
fn version_query_uses_the_discovered_binary() {
    let cmd = version_cmd("/usr/local/bin/codex".to_string());
    assert_eq!(cmd.program, "/usr/local/bin/codex".to_string());
    assert_eq!(cmd.args, vec!["-V".to_string()]);
    assert!(cmd.stdin_text.is_none());
}

#[test]
fn version_success_is_the_trimmed_output() {
    let ev = ToolEvent::Exited {
        success: true,
        code: Some(0),
        stdout: " codex 1.2.3 \n".to_string(),
        stderr: String::new(),
    };
    assert_eq!(version_result(ev).unwrap(), "codex 1.2.3".to_string());
}

#[test]
fn version_failure_carries_the_trimmed_error() {
    let ev = ToolEvent::Exited {
        success: false,
        code: Some(1),
        stdout: String::new(),
        stderr: " no such option \n".to_string(),
    };
    match version_result(ev) {
        Err(EngineError::ToolExecutionFailure { tool_error }) => {
            assert_eq!(tool_error, "no such option".to_string());
        }
        _ => panic!("expected a tool failure"),
    }
}

#[test]
fn version_spawn_failure_is_reported() {
    assert!(matches!(
        version_result(ToolEvent::SpawnFailed),
        Err(EngineError::ProcessSpawnFailure)
    ));
}

#[test]
fn exit_code_interpretation() {
    assert!(exit_code_gt_one(&Some(2)));
    assert!(!exit_code_gt_one(&Some(1)));
    assert!(!exit_code_gt_one(&Some(0)));
    assert!(!exit_code_gt_one(&None));
    assert!(exit_status_ok(true, &Some(0)));
    assert!(exit_status_ok(false, &Some(1)));
    assert!(!exit_status_ok(false, &Some(2)));
    assert!(!exit_status_ok(false, &None));
}

#[test]
fn error_descriptions_name_the_failure() {
    assert_eq!(
        EngineError::ProcessSpawnFailure.describe(),
        "failed to spawn the external tool".to_string()
    );
    assert_eq!(
        EngineError::ProcessIOFailure.describe(),
        "failed to write the input of the external tool".to_string()
    );
    assert_eq!(
        EngineError::ToolExecutionFailure { tool_error: "boom".to_string() }.describe(),
        "the external tool failed: boom".to_string()
    );
}
