use codex_core::cmd::{EngineError, ToolEvent};
use codex_core::diff_flow::{append_untracked, combine_diff, diff_begin, diff_next, DiffStep};

fn exited(success: bool, code: Option<i32>, stdout: &str, stderr: &str) -> ToolEvent {
    ToolEvent::Exited {
        success,
        code,
        stdout: stdout.to_string(),
        stderr: stderr.to_string(),
    }
}

fn expect_run(step: DiffStep) -> (codex_core::cmd::Cmd, codex_core::diff_flow::DiffPhase) {
    match step {
        DiffStep::Run(cmd, phase) => (cmd, phase),
        DiffStep::Done(_) => panic!("expected a command to run"),
    }
}

#[test]
fn begin_probes_the_toplevel() {
    let (cmd, _) = expect_run(diff_begin());
    assert_eq!(cmd.program, "git".to_string());
    assert_eq!(
        cmd.args,
        vec!["rev-parse".to_string(), "--show-toplevel".to_string()]
    );
}

#[test]
fn failed_probe_yields_an_empty_diff_not_an_error() {
    let (_, probe) = expect_run(diff_begin());
    let step = diff_next(probe, exited(false, Some(128), "", "fatal"));
    match step {
        DiffStep::Done(Ok(text)) => assert_eq!(text, String::new()),
        _ => panic!("expected an empty success"),
    }
}

#[test]
fn unspawnable_probe_also_yields_an_empty_diff() {
    let (_, probe) = expect_run(diff_begin());
    match diff_next(probe, ToolEvent::SpawnFailed) {
        DiffStep::Done(Ok(text)) => assert_eq!(text, String::new()),
        _ => panic!("expected an empty success"),
    }
}

#[test]
fn full_flow_combines_tracked_and_untracked() {
    let (_, probe) = expect_run(diff_begin());
    let (cmd, base) = expect_run(diff_next(probe, exited(true, Some(0), "/repo\n", "")));
    assert_eq!(
        cmd.args,
        vec![
            "diff".to_string(),
            "--no-color".to_string(),
            "--unified=3".to_string(),
            "HEAD".to_string()
        ]
    );
    let (cmd, listing) = expect_run(diff_next(base, exited(true, Some(0), "TRACKED BODY\n", "")));
    assert_eq!(cmd.args[0], "ls-files".to_string());
    let (cmd, file1) = expect_run(diff_next(listing, exited(true, Some(0), "u1.txt\nu2.txt\n", "")));
    assert_eq!(
        cmd.args,
        vec![
            "diff".to_string(),
            "--no-color".to_string(),
            "--unified=3".to_string(),
            "--no-index".to_string(),
            "--".to_string(),
            "/dev/null".to_string(),
            "u1.txt".to_string()
        ]
    );
    let (cmd, file2) = expect_run(diff_next(file1, exited(false, Some(1), "U1 DIFF\n", "")));
    assert_eq!(cmd.args[6], "u2.txt".to_string());
    match diff_next(file2, exited(false, Some(1), "U2 DIFF\n", "")) {
        DiffStep::Done(Ok(text)) => {
            // each accepted chunk keeps its own trailing newline; the
            // separator is added on top of it
            assert_eq!(text, "TRACKED BODY\nU1 DIFF\n\nU2 DIFF".to_string());
        }
        _ => panic!("expected the combined diff"),
    }
}

#[test]
fn tracked_exit_above_one_contributes_nothing() {
    let (_, probe) = expect_run(diff_begin());
    let (_, base) = expect_run(diff_next(probe, exited(true, Some(0), "", "")));
    let (_, listing) = expect_run(diff_next(base, exited(false, Some(2), "GARBAGE", "")));
    match diff_next(listing, exited(true, Some(0), "", "")) {
        DiffStep::Done(Ok(text)) => assert_eq!(text, String::new()),
        _ => panic!("expected an empty diff"),
    }
}

#[test]
fn skipped_untracked_file_does_not_abort_the_batch() {
    let (_, probe) = expect_run(diff_begin());
    let (_, base) = expect_run(diff_next(probe, exited(true, Some(0), "", "")));
    let (_, listing) = expect_run(diff_next(base, exited(true, Some(0), "BASE\n", "")));
    let (_, file1) = expect_run(diff_next(listing, exited(true, Some(0), "bad\ngood\n", "")));
    // the first per-file diff is refused with an exit above one: skipped
    let (_, file2) = expect_run(diff_next(file1, exited(false, Some(2), "IGNORED", "")));
    match diff_next(file2, exited(false, Some(1), "GOOD DIFF\n", "")) {
        DiffStep::Done(Ok(text)) => assert_eq!(text, "BASE\nGOOD DIFF".to_string()),
        _ => panic!("expected the combined diff"),
    }
}

#[test]
fn spawn_failure_after_the_probe_is_an_error() {
    let (_, probe) = expect_run(diff_begin());
    let (_, base) = expect_run(diff_next(probe, exited(true, Some(0), "", "")));
    assert!(matches!(
        diff_next(base, ToolEvent::SpawnFailed),
        DiffStep::Done(Err(EngineError::ProcessSpawnFailure))
    ));
}

#[test]
fn combine_rules() {
    assert_eq!(combine_diff("a\n", "b\n"), "a\nb".to_string());
    assert_eq!(combine_diff("", "b\n"), "b".to_string());
    assert_eq!(combine_diff("a\n", "  \n"), "a".to_string());
    assert_eq!(combine_diff(" \n", "\t"), String::new());
}

#[test]
fn append_rules() {
    assert_eq!(append_untracked(String::new(), "x\n"), "x\n".to_string());
    assert_eq!(append_untracked("a".to_string(), "x\n"), "a\nx\n".to_string());
    assert_eq!(append_untracked("a".to_string(), "\nx"), "a\nx".to_string());
    assert_eq!(append_untracked("a".to_string(), " \t"), "a".to_string());
}
