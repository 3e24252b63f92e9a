use codex_core::cmd::{EngineError, ToolEvent};
use codex_core::revert::{revert_begin, revert_next, RevertStep};

fn exited(success: bool, code: Option<i32>, stdout: &str, stderr: &str) -> ToolEvent {
    ToolEvent::Exited {
        success,
        code,
        stdout: stdout.to_string(),
        stderr: stderr.to_string(),
    }
}

fn expect_run(step: RevertStep) -> (codex_core::cmd::Cmd, codex_core::revert::RevertPhase) {
    match step {
        RevertStep::Run(cmd, phase) => (cmd, phase),
        RevertStep::Done(_) => panic!("expected a command to run"),
    }
}

#[test]
fn empty_diff_succeeds_without_any_tool() {
    assert!(matches!(revert_begin(""), RevertStep::Done(Ok(()))));
    assert!(matches!(revert_begin("  \t\n\r\n "), RevertStep::Done(Ok(()))));
}

#[test]
fn primary_tool_gets_the_trimmed_diff_on_stdin() {
    let (cmd, _) = expect_run(revert_begin("\ndiff --git a/x b/x\n-old\n+new\n\n"));
    assert_eq!(cmd.program, "git".to_string());
    assert_eq!(
        cmd.args,
        vec!["apply".to_string(), "-R".to_string(), "--whitespace=nowarn".to_string()]
    );
    assert_eq!(cmd.stdin_text, Some("diff --git a/x b/x\n-old\n+new".to_string()));
}

#[test]
fn primary_success_ends_the_revert() {
    let (_, phase) = expect_run(revert_begin("some diff"));
    // exit zero: done, the secondary tool is never invoked
    assert!(matches!(
        revert_next(phase, exited(true, Some(0), "", "")),
        RevertStep::Done(Ok(()))
    ));
}

#[test]
fn fallback_runs_the_permissive_tool_on_the_same_diff() {
    let (_, phase) = expect_run(revert_begin("some diff"));
    let (cmd, phase) = expect_run(revert_next(phase, exited(false, Some(1), "", " corrupt patch \n")));
    assert_eq!(cmd.program, "patch".to_string());
    assert_eq!(cmd.args, vec!["-p1".to_string(), "-R".to_string()]);
    assert_eq!(cmd.stdin_text, Some("some diff".to_string()));
    assert!(matches!(
        revert_next(phase, exited(true, Some(0), "", "")),
        RevertStep::Done(Ok(()))
    ));
}

#[test]
fn both_failures_surface_both_diagnostics() {
    let (_, phase) = expect_run(revert_begin("some diff"));
    let (_, phase) = expect_run(revert_next(phase, exited(false, Some(1), "", "git said no\n")));
    match revert_next(phase, exited(false, Some(1), "", "patch said no\n")) {
        RevertStep::Done(Err(
            e @ EngineError::PatchApplicationFailure { .. },
        )) => {
            let text = e.describe();
            assert!(text.contains("git said no"));
            assert!(text.contains("patch said no"));
            assert_eq!(
                text,
                "Failed to revert change. git apply error: git said no. patch error: patch said no"
                    .to_string()
            );
        }
        _ => panic!("expected the combined failure"),
    }
}

#[test]
fn empty_diagnostics_become_the_placeholder() {
    let (_, phase) = expect_run(revert_begin("some diff"));
    let (_, phase) = expect_run(revert_next(phase, exited(false, Some(1), "", "")));
    match revert_next(phase, exited(false, Some(1), "", "  \n")) {
        RevertStep::Done(Err(e)) => {
            assert_eq!(
                e.describe(),
                "Failed to revert change. git apply error: unknown. patch error: unknown"
                    .to_string()
            );
        }
        _ => panic!("expected the combined failure"),
    }
}

#[test]
fn spawn_and_pipe_failures_are_reported() {
    let (_, phase) = expect_run(revert_begin("some diff"));
    assert!(matches!(
        revert_next(phase, ToolEvent::SpawnFailed),
        RevertStep::Done(Err(EngineError::ProcessSpawnFailure))
    ));
    let (_, phase) = expect_run(revert_begin("some diff"));
    assert!(matches!(
        revert_next(phase, ToolEvent::InputFailed),
        RevertStep::Done(Err(EngineError::ProcessIOFailure))
    ));
}

#[test]
fn a_payload_larger_than_a_pipe_buffer_is_carried_whole() {
    // tens of megabytes of repeated lines; the command value carries the
    // entire trimmed payload for the runner to write before waiting
    let line = "-the quick brown fox jumps over the lazy dog\n";
    let mut big = String::with_capacity(line.len() * 500_000);
    for _ in 0..500_000 {
        big.push_str(line);
    }
    let expected_len = big.len() - 1; // the trailing newline is trimmed
    let (cmd, _) = expect_run(revert_begin(&big));
    assert_eq!(cmd.stdin_text.as_ref().unwrap().len(), expected_len);
}
