use codex_core::cmd::{EngineError, ToolEvent};
use codex_core::summary::{
    parse_name_status, summary_begin, summary_next, untracked_files_list, SummaryPhase,
    SummaryStep,
};

fn exited(success: bool, code: Option<i32>, stdout: &str, stderr: &str) -> ToolEvent {
    ToolEvent::Exited {
        success,
        code,
        stdout: stdout.to_string(),
        stderr: stderr.to_string(),
    }
}

#[test]
fn rename_line_parses_with_old_path() {
    let entries = parse_name_status("R100\told/path\tnew/path");
    assert_eq!(entries.len(), 1);
    assert_eq!(entries[0].status, "R100".to_string());
    assert_eq!(entries[0].path, "new/path".to_string());
    assert_eq!(entries[0].old_path, Some("old/path".to_string()));
}

#[test]
fn plain_line_parses_without_old_path() {
    let entries = parse_name_status("M\tfile.txt");
    assert_eq!(entries.len(), 1);
    assert_eq!(entries[0].status, "M".to_string());
    assert_eq!(entries[0].path, "file.txt".to_string());
    assert_eq!(entries[0].old_path, None);
}

#[test]
fn malformed_lines_are_skipped_not_fatal() {
    // a rename with only two fields, a bare status, and blank lines all
    // vanish; the well-formed lines survive in order
    let out = "R100\tonly-old\n\nM\ta.txt\nD\n \nC75\tfrom\tto\n";
    let entries = parse_name_status(out);
    assert_eq!(entries.len(), 2);
    assert_eq!(entries[0].status, "M".to_string());
    assert_eq!(entries[0].path, "a.txt".to_string());
    assert_eq!(entries[1].status, "C75".to_string());
    assert_eq!(entries[1].path, "to".to_string());
    assert_eq!(entries[1].old_path, Some("from".to_string()));
}

#[test]
fn copy_status_needs_three_fields() {
    assert_eq!(parse_name_status("C50\tx").len(), 0);
    let entries = parse_name_status("C50\tx\ty");
    assert_eq!(entries.len(), 1);
    assert_eq!(entries[0].old_path, Some("x".to_string()));
}

#[test]
fn crlf_lines_lose_the_carriage_return() {
    let entries = parse_name_status("M\tfile.txt\r\nA\tother.txt\r\n");
    assert_eq!(entries.len(), 2);
    assert_eq!(entries[0].path, "file.txt".to_string());
    assert_eq!(entries[1].path, "other.txt".to_string());
}

#[test]
fn untracked_listing_is_trimmed_and_filtered() {
    let files = untracked_files_list(" a.txt \n\nnested/b.txt\n");
    assert_eq!(files, vec!["a.txt".to_string(), "nested/b.txt".to_string()]);
    assert_eq!(untracked_files_list(""), Vec::<String>::new());
}

#[test]
fn summary_flow_runs_name_status_then_listing() {
    let step = summary_begin();
    let phase = match step {
        SummaryStep::Run(cmd, phase) => {
            assert_eq!(cmd.program, "git".to_string());
            assert_eq!(
                cmd.args,
                vec!["diff".to_string(), "--name-status".to_string(), "HEAD".to_string()]
            );
            assert!(cmd.stdin_text.is_none());
            phase
        }
        SummaryStep::Done(_) => panic!("expected a command"),
    };
    let step = summary_next(phase, exited(true, Some(0), "M\tf.txt\n", ""));
    let phase = match step {
        SummaryStep::Run(cmd, phase) => {
            assert_eq!(
                cmd.args,
                vec![
                    "ls-files".to_string(),
                    "--others".to_string(),
                    "--exclude-standard".to_string()
                ]
            );
            phase
        }
        SummaryStep::Done(_) => panic!("expected the untracked listing"),
    };
    let step = summary_next(phase, exited(false, Some(1), "u.txt\n", ""));
    match step {
        SummaryStep::Done(Ok(summary)) => {
            assert_eq!(summary.tracked_entries.len(), 1);
            assert_eq!(summary.tracked_entries[0].path, "f.txt".to_string());
            assert_eq!(summary.untracked, vec!["u.txt".to_string()]);
        }
        _ => panic!("expected a finished summary"),
    }
}

#[test]
fn summary_exit_above_one_is_a_hard_error() {
    let step = summary_next(
        SummaryPhase::NameStatus,
        exited(false, Some(128), "", " fatal: not a git repository \n"),
    );
    match step {
        SummaryStep::Done(Err(EngineError::ToolExecutionFailure { tool_error })) => {
            assert_eq!(tool_error, "fatal: not a git repository".to_string());
        }
        _ => panic!("expected a tool failure"),
    }
}

#[test]
fn summary_spawn_failure_is_reported() {
    let step = summary_next(SummaryPhase::NameStatus, ToolEvent::SpawnFailed);
    assert!(matches!(
        step,
        SummaryStep::Done(Err(EngineError::ProcessSpawnFailure))
    ));
}
