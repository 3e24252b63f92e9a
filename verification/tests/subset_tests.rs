use codex_core::cmd::{EngineError, ToolEvent};
use codex_core::subset::{
    join_push, partition_targets, subset_begin, subset_next, DiffTargetPayload, SubsetStep,
};

fn target(path: &str, status: &str, old_path: Option<&str>) -> DiffTargetPayload {
    DiffTargetPayload {
        path: path.to_string(),
        status: status.to_string(),
        old_path: old_path.map(|o| o.to_string()),
    }
}

fn exited(success: bool, code: Option<i32>, stdout: &str, stderr: &str) -> ToolEvent {
    ToolEvent::Exited {
        success,
        code,
        stdout: stdout.to_string(),
        stderr: stderr.to_string(),
    }
}

fn expect_run(step: SubsetStep) -> (codex_core::cmd::Cmd, codex_core::subset::SubsetPhase) {
    match step {
        SubsetStep::Run(cmd, phase) => (cmd, phase),
        SubsetStep::Done(_) => panic!("expected a command to run"),
    }
}

#[test]
fn empty_target_list_short_circuits() {
    match subset_begin(&Vec::new()) {
        SubsetStep::Done(Ok(text)) => assert_eq!(text, String::new()),
        _ => panic!("expected the empty result with no tool invocation"),
    }
}

#[test]
fn all_blank_targets_also_short_circuit() {
    let targets = vec![target("  ", "M", None), target("", "??", None)];
    match subset_begin(&targets) {
        SubsetStep::Done(Ok(text)) => assert_eq!(text, String::new()),
        _ => panic!("expected the empty result"),
    }
}

#[test]
fn tracked_then_untracked_in_order() {
    let targets = vec![target("a.txt", "M", None), target("b.txt", "??", None)];
    let (cmd, phase) = expect_run(subset_begin(&targets));
    assert_eq!(
        cmd.args,
        vec![
            "diff".to_string(),
            "--no-color".to_string(),
            "--unified=3".to_string(),
            "HEAD".to_string(),
            "--".to_string(),
            "a.txt".to_string()
        ]
    );
    let (cmd, phase) = expect_run(subset_next(phase, exited(false, Some(1), "TRACKED A\n", "")));
    assert_eq!(cmd.args[5], "/dev/null".to_string());
    assert_eq!(cmd.args[6], "b.txt".to_string());
    match subset_next(phase, exited(false, Some(1), "UNTRACKED B\n", "")) {
        SubsetStep::Done(Ok(text)) => assert_eq!(text, "TRACKED A\nUNTRACKED B".to_string()),
        _ => panic!("expected the joined result"),
    }
}

#[test]
fn rename_absorbs_the_old_path_and_duplicates_vanish() {
    let targets = vec![
        target("new.txt", "R100", Some("old.txt")),
        target("new.txt", "M", None),
        target(" old.txt ", "M", None),
    ];
    let (tr, un) = partition_targets(&targets);
    assert_eq!(tr, vec!["new.txt".to_string(), "old.txt".to_string()]);
    assert_eq!(un, Vec::<String>::new());
}

#[test]
fn untracked_targets_keep_input_order_and_duplicates() {
    let targets = vec![
        target("z.txt", "??", None),
        target("a.txt", "??", None),
        target("z.txt", "??", None),
    ];
    let (tr, un) = partition_targets(&targets);
    assert_eq!(tr, Vec::<String>::new());
    assert_eq!(
        un,
        vec!["z.txt".to_string(), "a.txt".to_string(), "z.txt".to_string()]
    );
}

#[test]
fn only_untracked_targets_run_per_file_immediately() {
    let targets = vec![target("u.txt", "??", None)];
    let (cmd, phase) = expect_run(subset_begin(&targets));
    assert_eq!(cmd.args[6], "u.txt".to_string());
    match subset_next(phase, exited(true, Some(0), "U DIFF\n", "")) {
        SubsetStep::Done(Ok(text)) => assert_eq!(text, "U DIFF".to_string()),
        _ => panic!("expected the single chunk"),
    }
}

#[test]
fn refused_batched_diff_contributes_nothing() {
    let targets = vec![target("a.txt", "M", None), target("b.txt", "??", None)];
    let (_, phase) = expect_run(subset_begin(&targets));
    let (_, phase) = expect_run(subset_next(phase, exited(false, Some(2), "NOISE", "")));
    match subset_next(phase, exited(true, Some(0), "B ONLY\n", "")) {
        SubsetStep::Done(Ok(text)) => assert_eq!(text, "B ONLY".to_string()),
        _ => panic!("expected only the untracked chunk"),
    }
}

#[test]
fn spawn_failure_is_reported() {
    let targets = vec![target("a.txt", "M", None)];
    let (_, phase) = expect_run(subset_begin(&targets));
    assert!(matches!(
        subset_next(phase, ToolEvent::SpawnFailed),
        SubsetStep::Done(Err(EngineError::ProcessSpawnFailure))
    ));
}

#[test]
fn join_rules() {
    assert_eq!(join_push(String::new(), "x \n"), "x".to_string());
    assert_eq!(join_push("a".to_string(), "x\n"), "a\nx".to_string());
    assert_eq!(join_push("a".to_string(), " \n"), "a".to_string());
}
