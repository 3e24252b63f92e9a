//! The vocabulary between the verified logic and the embedding program: a
//! command value describing one subprocess to run, an event value describing
//! how that subprocess ended, the fixed argument vectors of every tool
//! invocation, and the tagged errors the logic can report.

use vstd::prelude::*;
use crate::text::trim_spec;

verus! {

/// One subprocess to run in the session's working directory: program,
/// argument vector, and an optional text to write whole to its standard
/// input before waiting. The writer must finish writing and close standard
/// input before it blocks on exit, so a payload larger than the pipe buffer
/// cannot deadlock.
pub struct Cmd {
    pub program: String,
    pub args: Vec<String>,
    pub stdin_text: Option<String>,
}

/// Mathematical image of a [`Cmd`].
pub struct CmdView {
    pub program: Seq<char>,
    pub args: Seq<Seq<char>>,
    pub stdin_text: Option<Seq<char>>,
}

impl View for Cmd {
    type V = CmdView;

    open spec fn view(&self) -> CmdView {
        CmdView {
            program: self.program@,
            args: self.args.deep_view(),
            stdin_text: self.stdin_text.deep_view(),
        }
    }
}

/// How one subprocess call ended, reported back by the embedding program.
pub enum ToolEvent {
    /// The operating system could not create the process.
    SpawnFailed,
    /// Writing the input text to standard input, or closing it, failed.
    InputFailed,
    /// Waiting for the exit of the spawned process failed.
    WaitFailed,
    /// The process ran to termination.
    Exited { success: bool, code: Option<i32>, stdout: String, stderr: String },
}

/// Mathematical image of a [`ToolEvent`].
pub enum ToolEventView {
    SpawnFailed,
    InputFailed,
    WaitFailed,
    Exited { success: bool, code: Option<i32>, stdout: Seq<char>, stderr: Seq<char> },
}

impl View for ToolEvent {
    type V = ToolEventView;

    open spec fn view(&self) -> ToolEventView {
        match self {
            ToolEvent::SpawnFailed => ToolEventView::SpawnFailed,
            ToolEvent::InputFailed => ToolEventView::InputFailed,
            ToolEvent::WaitFailed => ToolEventView::WaitFailed,
            ToolEvent::Exited { success, code, stdout, stderr } => ToolEventView::Exited {
                success: *success,
                code: *code,
                stdout: stdout@,
                stderr: stderr@,
            },
        }
    }
}

/// Errors the engine reports, kept as tagged values so callers can branch on
/// the kind; the embedding program flattens them to display text.
#[derive(Debug)]
pub enum EngineError {
    /// The operating system could not create an external process.
    ProcessSpawnFailure,
    /// A pipe write or close toward an external process failed.
    ProcessIOFailure,
    /// An external tool ran and reported a genuine failure; the payload is
    /// its trimmed error output.
    ToolExecutionFailure { tool_error: String },
    /// Both reverse-apply strategies were exhausted; the payloads are the
    /// trimmed error outputs of the primary and the secondary tool.
    PatchApplicationFailure { primary_error: String, secondary_error: String },
}

/// Mathematical image of an [`EngineError`].
pub enum EngineErrorView {
    ProcessSpawnFailure,
    ProcessIOFailure,
    ToolExecutionFailure { tool_error: Seq<char> },
    PatchApplicationFailure { primary_error: Seq<char>, secondary_error: Seq<char> },
}

impl View for EngineError {
    type V = EngineErrorView;

    open spec fn view(&self) -> EngineErrorView {
        match self {
            EngineError::ProcessSpawnFailure => EngineErrorView::ProcessSpawnFailure,
            EngineError::ProcessIOFailure => EngineErrorView::ProcessIOFailure,
            EngineError::ToolExecutionFailure { tool_error } => {
                EngineErrorView::ToolExecutionFailure { tool_error: tool_error@ }
            },
            EngineError::PatchApplicationFailure { primary_error, secondary_error } => {
                EngineErrorView::PatchApplicationFailure {
                    primary_error: primary_error@,
                    secondary_error: secondary_error@,
                }
            },
        }
    }
}

/// A diagnostic text, or the placeholder where the tool wrote nothing.
pub open spec fn or_unknown(t: Seq<char>) -> Seq<char> {
    if t.len() == 0 {
        "unknown"@
    } else {
        t
    }
}

/// The display text of an [`EngineError`].
pub open spec fn describe_spec(e: EngineErrorView) -> Seq<char> {
    match e {
        EngineErrorView::ProcessSpawnFailure => "failed to spawn the external tool"@,
        EngineErrorView::ProcessIOFailure => "failed to write the input of the external tool"@,
        EngineErrorView::ToolExecutionFailure { tool_error } => {
            "the external tool failed: "@ + tool_error
        },
        EngineErrorView::PatchApplicationFailure { primary_error, secondary_error } => {
            "Failed to revert change. git apply error: "@ + or_unknown(primary_error)
                + ". patch error: "@ + or_unknown(secondary_error)
        },
    }
}

impl EngineError {
    /// Flattens the error to its display text; both tools' diagnostics (or
    /// the placeholder for an empty one) appear in the patch-failure case.
    pub fn describe(&self) -> (r: String)
        ensures
            r@ == describe_spec(self@),
    {
        match self {
            EngineError::ProcessSpawnFailure => {
                let r = "failed to spawn the external tool".to_owned();
                r
            },
            EngineError::ProcessIOFailure => {
                let r = "failed to write the input of the external tool".to_owned();
                r
            },
            EngineError::ToolExecutionFailure { tool_error } => {
                let mut r = "the external tool failed: ".to_owned();
                r.append(tool_error.as_str());
                r
            },
            EngineError::PatchApplicationFailure { primary_error, secondary_error } => {
                let mut r = "Failed to revert change. git apply error: ".to_owned();
                if primary_error.as_str().is_empty() {
                    r.append("unknown");
                } else {
                    r.append(primary_error.as_str());
                }
                r.append(". patch error: ");
                if secondary_error.as_str().is_empty() {
                    r.append("unknown");
                } else {
                    r.append(secondary_error.as_str());
                }
                r
            },
        }
    }
}

/// Does this exit code mean a tool error for a diff-class command (greater
/// than one; zero and one are both valid outcomes)?
pub open spec fn code_gt_one(code: Option<i32>) -> bool {
    match code {
        Some(c) => c > 1,
        None => false,
    }
}

/// Exec test for [`code_gt_one`].
pub fn exit_code_gt_one(code: &Option<i32>) -> (r: bool)
    ensures
        r == code_gt_one(*code),
{
    match code {
        Some(c) => *c > 1,
        None => false,
    }
}

/// Is this outcome a success for a status-class command, where exit code one
/// conventionally means "differences exist", not failure?
pub open spec fn status_ok(success: bool, code: Option<i32>) -> bool {
    success || code == Some(1i32)
}

/// Exec test for [`status_ok`].
pub fn exit_status_ok(success: bool, code: &Option<i32>) -> (r: bool)
    ensures
        r == status_ok(success, *code),
{
    success || match code {
        Some(c) => *c == 1,
        None => false,
    }
}

/// Probe: is the working directory inside a version-controlled tree?
pub open spec fn probe_cmd_spec() -> CmdView {
    CmdView {
        program: "git"@,
        args: seq!["rev-parse"@, "--show-toplevel"@],
        stdin_text: None,
    }
}

/// Full tracked diff against the current commit, three lines of context,
/// no color.
pub open spec fn tracked_diff_cmd_spec() -> CmdView {
    CmdView {
        program: "git"@,
        args: seq!["diff"@, "--no-color"@, "--unified=3"@, "HEAD"@],
        stdin_text: None,
    }
}

/// Listing of untracked files, respecting the tree's ignore rules.
pub open spec fn untracked_list_cmd_spec() -> CmdView {
    CmdView {
        program: "git"@,
        args: seq!["ls-files"@, "--others"@, "--exclude-standard"@],
        stdin_text: None,
    }
}

/// Synthesized diff of one untracked file against the null source, with the
/// same context and format settings as the tracked diff.
pub open spec fn untracked_diff_cmd_spec(path: Seq<char>) -> CmdView {
    CmdView {
        program: "git"@,
        args: seq![
            "diff"@,
            "--no-color"@,
            "--unified=3"@,
            "--no-index"@,
            "--"@,
            "/dev/null"@,
            path,
        ],
        stdin_text: None,
    }
}

/// Name-and-status diff against the current commit, no diff body.
pub open spec fn name_status_cmd_spec() -> CmdView {
    CmdView {
        program: "git"@,
        args: seq!["diff"@, "--name-status"@, "HEAD"@],
        stdin_text: None,
    }
}

/// One batched tracked diff restricted to the given paths.
pub open spec fn subset_diff_cmd_spec(paths: Seq<Seq<char>>) -> CmdView {
    CmdView {
        program: "git"@,
        args: seq!["diff"@, "--no-color"@, "--unified=3"@, "HEAD"@, "--"@] + paths,
        stdin_text: None,
    }
}

/// Primary reverse apply: tolerant-whitespace mode, diff on standard input.
pub open spec fn git_apply_cmd_spec(diff: Seq<char>) -> CmdView {
    CmdView {
        program: "git"@,
        args: seq!["apply"@, "-R"@, "--whitespace=nowarn"@],
        stdin_text: Some(diff),
    }
}

/// Secondary, more permissive reverse apply: strip level of one directory
/// component, diff on standard input.
pub open spec fn patch_apply_cmd_spec(diff: Seq<char>) -> CmdView {
    CmdView {
        program: "patch"@,
        args: seq!["-p1"@, "-R"@],
        stdin_text: Some(diff),
    }
}

/// Version query of the external session binary at the given path.
pub open spec fn version_cmd_spec(program: Seq<char>) -> CmdView {
    CmdView { program, args: seq!["-V"@], stdin_text: None }
}

/// Exec builder for [`probe_cmd_spec`].
pub fn probe_cmd() -> (c: Cmd)
    ensures
        c@ == probe_cmd_spec(),
{
    let c = Cmd {
        program: "git".to_owned(),
        args: vec!["rev-parse".to_owned(), "--show-toplevel".to_owned()],
        stdin_text: None,
    };
    proof {
        assert(c.args.deep_view() =~= probe_cmd_spec().args);
    }
    c
}

/// Exec builder for [`tracked_diff_cmd_spec`].
pub fn tracked_diff_cmd() -> (c: Cmd)
    ensures
        c@ == tracked_diff_cmd_spec(),
{
    let c = Cmd {
        program: "git".to_owned(),
        args: vec![
            "diff".to_owned(),
            "--no-color".to_owned(),
            "--unified=3".to_owned(),
            "HEAD".to_owned(),
        ],
        stdin_text: None,
    };
    proof {
        assert(c.args.deep_view() =~= tracked_diff_cmd_spec().args);
    }
    c
}

/// Exec builder for [`untracked_list_cmd_spec`].
pub fn untracked_list_cmd() -> (c: Cmd)
    ensures
        c@ == untracked_list_cmd_spec(),
{
    let c = Cmd {
        program: "git".to_owned(),
        args: vec!["ls-files".to_owned(), "--others".to_owned(), "--exclude-standard".to_owned()],
        stdin_text: None,
    };
    proof {
        assert(c.args.deep_view() =~= untracked_list_cmd_spec().args);
    }
    c
}

/// Exec builder for [`untracked_diff_cmd_spec`].
pub fn untracked_diff_cmd(path: String) -> (c: Cmd)
    ensures
        c@ == untracked_diff_cmd_spec(path@),
{
    let c = Cmd {
        program: "git".to_owned(),
        args: vec![
            "diff".to_owned(),
            "--no-color".to_owned(),
            "--unified=3".to_owned(),
            "--no-index".to_owned(),
            "--".to_owned(),
            "/dev/null".to_owned(),
            path,
        ],
        stdin_text: None,
    };
    proof {
        assert(c.args.deep_view() =~= untracked_diff_cmd_spec(c.args.deep_view()[6]).args);
        assert(c@ == untracked_diff_cmd_spec(c.args.deep_view()[6]));
    }
    c
}

/// Exec builder for [`name_status_cmd_spec`].
pub fn name_status_cmd() -> (c: Cmd)
    ensures
        c@ == name_status_cmd_spec(),
{
    let c = Cmd {
        program: "git".to_owned(),
        args: vec!["diff".to_owned(), "--name-status".to_owned(), "HEAD".to_owned()],
        stdin_text: None,
    };
    proof {
        assert(c.args.deep_view() =~= name_status_cmd_spec().args);
    }
    c
}

/// Exec builder for [`subset_diff_cmd_spec`].
#[verifier::loop_isolation(false)]
pub fn subset_diff_cmd(paths: Vec<String>) -> (c: Cmd)
    ensures
        c@ == subset_diff_cmd_spec(paths.deep_view()),
{
    let ghost pathsv = paths.deep_view();
    let mut args: Vec<String> = vec![
        "diff".to_owned(),
        "--no-color".to_owned(),
        "--unified=3".to_owned(),
        "HEAD".to_owned(),
        "--".to_owned(),
    ];
    proof {
        assert(args.deep_view() =~= seq!["diff"@, "--no-color"@, "--unified=3"@, "HEAD"@, "--"@]);
    }
    let ghost head = args.deep_view();
    let n = paths.len();
    let mut k: usize = 0;
    let mut paths = paths;
    // move the paths over one by one, keeping their order
    let mut rest: Vec<String> = Vec::new();
    proof {
        assert(head + pathsv.take(0) =~= head);
    }
    while k < n
        invariant
            0 <= k <= n,
            n == pathsv.len(),
            paths.deep_view() == pathsv,
            args.deep_view() == head + pathsv.take(k as int),
        decreases n - k,
    {
        let ghost pre = args.deep_view();
        let p = paths[k].clone();
        args.push(p);
        proof {
            assert(args.deep_view() =~= pre.push(pathsv[k as int]));
            assert(args.deep_view() =~= head + pathsv.take(k as int + 1));
        }
        k += 1;
    }
    proof {
        assert(pathsv.take(n as int) =~= pathsv);
    }
    let c = Cmd { program: "git".to_owned(), args, stdin_text: None };
    c
}

/// Exec builder for [`git_apply_cmd_spec`].
pub fn git_apply_cmd(diff: String) -> (c: Cmd)
    ensures
        c@ == git_apply_cmd_spec(diff@),
{
    let ghost d = diff@;
    let c = Cmd {
        program: "git".to_owned(),
        args: vec!["apply".to_owned(), "-R".to_owned(), "--whitespace=nowarn".to_owned()],
        stdin_text: Some(diff),
    };
    proof {
        assert(c.args.deep_view() =~= git_apply_cmd_spec(d).args);
    }
    c
}

/// Exec builder for [`patch_apply_cmd_spec`].
pub fn patch_apply_cmd(diff: String) -> (c: Cmd)
    ensures
        c@ == patch_apply_cmd_spec(diff@),
{
    let ghost d = diff@;
    let c = Cmd {
        program: "patch".to_owned(),
        args: vec!["-p1".to_owned(), "-R".to_owned()],
        stdin_text: Some(diff),
    };
    proof {
        assert(c.args.deep_view() =~= patch_apply_cmd_spec(d).args);
    }
    c
}

/// Exec builder for [`version_cmd_spec`].
pub fn version_cmd(program: String) -> (c: Cmd)
    ensures
        c@ == version_cmd_spec(program@),
{
    let ghost p = program@;
    let c = Cmd { program, args: vec!["-V".to_owned()], stdin_text: None };
    proof {
        assert(c.args.deep_view() =~= version_cmd_spec(p).args);
    }
    c
}

/// The version answer of the external session binary: its trimmed standard
/// output on success, the trimmed error output as a tool failure otherwise.
pub open spec fn version_result_spec(ev: ToolEventView) -> Result<Seq<char>, EngineErrorView> {
    match ev {
        ToolEventView::SpawnFailed => Err(EngineErrorView::ProcessSpawnFailure),
        ToolEventView::InputFailed => Err(EngineErrorView::ProcessIOFailure),
        ToolEventView::WaitFailed => Err(EngineErrorView::ProcessIOFailure),
        ToolEventView::Exited { success, code, stdout, stderr } => {
            if success {
                Ok(trim_spec(stdout))
            } else {
                Err(EngineErrorView::ToolExecutionFailure { tool_error: trim_spec(stderr) })
            }
        },
    }
}

/// Decides the version query from the exit of the session binary.
pub fn version_result(ev: ToolEvent) -> (r: Result<String, EngineError>)
    ensures
        match r {
            Ok(v) => version_result_spec(ev@) == Ok::<Seq<char>, EngineErrorView>(v@),
            Err(e) => version_result_spec(ev@) == Err::<Seq<char>, EngineErrorView>(e@),
        },
{
    match ev {
        ToolEvent::SpawnFailed => Err(EngineError::ProcessSpawnFailure),
        ToolEvent::InputFailed => Err(EngineError::ProcessIOFailure),
        ToolEvent::WaitFailed => Err(EngineError::ProcessIOFailure),
        ToolEvent::Exited { success, code, stdout, stderr } => {
            if success {
                Ok(crate::text::trim_str(stdout.as_str()))
            } else {
                Err(
                    EngineError::ToolExecutionFailure {
                        tool_error: crate::text::trim_str(stderr.as_str()),
                    },
                )
            }
        },
    }
}

} // verus!
