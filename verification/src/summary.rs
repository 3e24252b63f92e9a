//! Structured change summary of a worktree: parsing of the name-and-status
//! diff, listing of untracked files, and the stepwise machine that drives
//! the two tool calls.

use vstd::prelude::*;
use crate::cmd::{
    Cmd,
    CmdView,
    EngineError,
    EngineErrorView,
    ToolEvent,
    ToolEventView,
    name_status_cmd,
    name_status_cmd_spec,
    status_ok,
    exit_status_ok,
    untracked_list_cmd,
    untracked_list_cmd_spec,
};
use crate::text::{
    is_blank_str,
    split_on,
    split_str,
    strip_cr,
    strip_cr_string,
    trim_spec,
    trim_str,
};

verus! {

/// One tracked change: a one- or two-letter status code (`M`, `A`, `D`,
/// `R100`, `C75`), the current path, and — exactly for the rename and copy
/// statuses — the old path.
pub struct TrackedDiffEntry {
    pub status: String,
    pub path: String,
    pub old_path: Option<String>,
}

/// Mathematical image of a [`TrackedDiffEntry`].
pub struct TrackedDiffEntryView {
    pub status: Seq<char>,
    pub path: Seq<char>,
    pub old_path: Option<Seq<char>>,
}

impl View for TrackedDiffEntry {
    type V = TrackedDiffEntryView;

    open spec fn view(&self) -> TrackedDiffEntryView {
        TrackedDiffEntryView {
            status: self.status@,
            path: self.path@,
            old_path: self.old_path.deep_view(),
        }
    }
}

impl DeepView for TrackedDiffEntry {
    type V = TrackedDiffEntryView;

    open spec fn deep_view(&self) -> TrackedDiffEntryView {
        self.view()
    }
}

/// The ordered change summary: tracked entries and untracked paths, both in
/// tool output order.
pub struct WorktreeSummary {
    pub tracked_entries: Vec<TrackedDiffEntry>,
    pub untracked: Vec<String>,
}

/// Mathematical image of a [`WorktreeSummary`].
pub struct WorktreeSummaryView {
    pub tracked_entries: Seq<TrackedDiffEntryView>,
    pub untracked: Seq<Seq<char>>,
}

impl View for WorktreeSummary {
    type V = WorktreeSummaryView;

    open spec fn view(&self) -> WorktreeSummaryView {
        WorktreeSummaryView {
            tracked_entries: self.tracked_entries.deep_view(),
            untracked: self.untracked.deep_view(),
        }
    }
}

/// Does this status code denote a rename or a copy?
pub open spec fn is_rename_or_copy(status: Seq<char>) -> bool {
    status.len() > 0 && (status[0] == 'R' || status[0] == 'C')
}

/// What one name-status line contributes. A blank line contributes nothing;
/// a rename or copy line needs status, old path and new path, any other
/// status needs status and path; a line with fewer fields than its status
/// class requires is skipped, never an error.
pub open spec fn entry_of_line(l0: Seq<char>) -> Option<TrackedDiffEntryView> {
    let l = strip_cr(l0);
    if trim_spec(l).len() == 0 {
        None
    } else {
        let parts = split_on(l, '\t');
        let status = parts[0];
        if is_rename_or_copy(status) {
            if parts.len() >= 3 {
                Some(
                    TrackedDiffEntryView { status, path: parts[2], old_path: Some(parts[1]) },
                )
            } else {
                None
            }
        } else {
            if parts.len() >= 2 {
                Some(TrackedDiffEntryView { status, path: parts[1], old_path: None })
            } else {
                None
            }
        }
    }
}

/// The entries contributed by a sequence of lines, in order.
pub open spec fn entries_of_lines(ls: Seq<Seq<char>>) -> Seq<TrackedDiffEntryView>
    decreases ls.len(),
{
    if ls.len() == 0 {
        seq![]
    } else {
        (match entry_of_line(ls[0]) {
            Some(e) => seq![e],
            None => seq![],
        }) + entries_of_lines(ls.skip(1))
    }
}

/// The parse of a whole name-and-status output.
pub open spec fn parse_name_status_spec(s: Seq<char>) -> Seq<TrackedDiffEntryView> {
    entries_of_lines(split_on(s, '\n'))
}

/// A split has at least one piece.
pub proof fn lemma_split_len(s: Seq<char>, sep: char)
    ensures
        split_on(s, sep).len() >= 1,
{
    crate::text::lemma_first_index_bounds(s, sep);
}

/// Exec parse of the name-and-status output, entry for entry as
/// [`parse_name_status_spec`] states it.
#[verifier::loop_isolation(false)]
pub fn parse_name_status(stdout: &str) -> (r: Vec<TrackedDiffEntry>)
    ensures
        r.deep_view() == parse_name_status_spec(stdout@),
{
    let lines = split_str(stdout, '\n');
    let ghost lsv = lines.deep_view();
    let mut out: Vec<TrackedDiffEntry> = Vec::new();
    let n = lines.len();
    let mut k: usize = 0;
    proof {
        assert(lsv.skip(0) =~= lsv);
    }
    while k < n
        invariant
            0 <= k <= n,
            n == lsv.len(),
            lines.deep_view() == lsv,
            entries_of_lines(lsv) == out.deep_view() + entries_of_lines(lsv.skip(k as int)),
        decreases n - k,
    {
        let ghost pre = out.deep_view();
        let l = strip_cr_string(&lines[k]);
        if !is_blank_str(l.as_str()) {
            let parts = split_str(l.as_str(), '\t');
            proof {
                lemma_split_len(l@, '\t');
            }
            let rc = {
                let st = parts[0].as_str();
                st.unicode_len() > 0 && (st.get_char(0) == 'R' || st.get_char(0) == 'C')
            };
            if rc {
                if parts.len() >= 3 {
                    let e = TrackedDiffEntry {
                        status: parts[0].clone(),
                        path: parts[2].clone(),
                        old_path: Some(parts[1].clone()),
                    };
                    proof {
                        assert(e.deep_view() == entry_of_line(lsv[k as int]).unwrap());
                    }
                    out.push(e);
                }
            } else {
                if parts.len() >= 2 {
                    let e = TrackedDiffEntry {
                        status: parts[0].clone(),
                        path: parts[1].clone(),
                        old_path: None,
                    };
                    proof {
                        assert(e.deep_view() == entry_of_line(lsv[k as int]).unwrap());
                    }
                    out.push(e);
                }
            }
        }
        proof {
            assert(lsv.skip(k as int)[0] == lsv[k as int]);
            assert(lsv.skip(k as int).skip(1) =~= lsv.skip(k as int + 1));
            assert(entries_of_lines(lsv.skip(k as int)) == (match entry_of_line(lsv[k as int]) {
                Some(e) => seq![e],
                None => seq![],
            }) + entries_of_lines(lsv.skip(k as int + 1)));
            match entry_of_line(lsv[k as int]) {
                Some(e) => {
                    assert(out.deep_view() =~= pre.push(e));
                    assert(out.deep_view() + entries_of_lines(lsv.skip(k as int + 1)) =~= pre
                        + entries_of_lines(lsv.skip(k as int)));
                },
                None => {
                    assert(out.deep_view() == pre);
                },
            }
        }
        k += 1;
    }
    proof {
        assert(lsv.skip(n as int) =~= Seq::<Seq<char>>::empty());
        assert(out.deep_view() + entries_of_lines(lsv.skip(n as int)) =~= out.deep_view());
    }
    out
}

/// Every entry a line sequence contributes carries an old path exactly when
/// its status denotes a rename or a copy.
proof fn lemma_entries_old_path(ls: Seq<Seq<char>>, i: int)
    requires
        0 <= i < entries_of_lines(ls).len(),
    ensures
        is_rename_or_copy(entries_of_lines(ls)[i].status) <==> entries_of_lines(
            ls,
        )[i].old_path is Some,
    decreases ls.len(),
{
    if ls.len() > 0 {
        match entry_of_line(ls[0]) {
            Some(e) => {
                if i > 0 {
                    lemma_entries_old_path(ls.skip(1), i - 1);
                }
            },
            None => {
                lemma_entries_old_path(ls.skip(1), i);
            },
        }
    }
}

/// Data-model invariant of the parse: an entry has an old path exactly when
/// its status begins with the rename or copy letter.
pub proof fn lemma_parse_old_path_invariant(s: Seq<char>, i: int)
    requires
        0 <= i < parse_name_status_spec(s).len(),
    ensures
        is_rename_or_copy(parse_name_status_spec(s)[i].status) <==> parse_name_status_spec(
            s,
        )[i].old_path is Some,
{
    lemma_entries_old_path(split_on(s, '\n'), i);
}

/// The trimmed, non-blank lines of a listing, in order: the untracked paths.
pub open spec fn nonblank_trimmed(ls: Seq<Seq<char>>) -> Seq<Seq<char>>
    decreases ls.len(),
{
    if ls.len() == 0 {
        seq![]
    } else {
        (if trim_spec(ls[0]).len() > 0 {
            seq![trim_spec(ls[0])]
        } else {
            seq![]
        }) + nonblank_trimmed(ls.skip(1))
    }
}

/// The untracked paths read from the listing tool's output.
pub open spec fn untracked_files_spec(s: Seq<char>) -> Seq<Seq<char>> {
    nonblank_trimmed(split_on(s, '\n'))
}

/// Exec parse of the untracked-file listing.
#[verifier::loop_isolation(false)]
pub fn untracked_files_list(stdout: &str) -> (r: Vec<String>)
    ensures
        r.deep_view() == untracked_files_spec(stdout@),
{
    let lines = split_str(stdout, '\n');
    let ghost lsv = lines.deep_view();
    let mut out: Vec<String> = Vec::new();
    let n = lines.len();
    let mut k: usize = 0;
    proof {
        assert(lsv.skip(0) =~= lsv);
    }
    while k < n
        invariant
            0 <= k <= n,
            n == lsv.len(),
            lines.deep_view() == lsv,
            nonblank_trimmed(lsv) == out.deep_view() + nonblank_trimmed(lsv.skip(k as int)),
        decreases n - k,
    {
        let ghost pre = out.deep_view();
        let t = trim_str(lines[k].as_str());
        if !t.as_str().is_empty() {
            out.push(t);
        }
        proof {
            assert(lsv.skip(k as int)[0] == lsv[k as int]);
            assert(lsv.skip(k as int).skip(1) =~= lsv.skip(k as int + 1));
            if trim_spec(lsv[k as int]).len() > 0 {
                assert(out.deep_view() =~= pre.push(trim_spec(lsv[k as int])));
                assert(out.deep_view() + nonblank_trimmed(lsv.skip(k as int + 1)) =~= pre
                    + nonblank_trimmed(lsv.skip(k as int)));
            }
        }
        k += 1;
    }
    proof {
        assert(lsv.skip(n as int) =~= Seq::<Seq<char>>::empty());
        assert(out.deep_view() + nonblank_trimmed(lsv.skip(n as int)) =~= out.deep_view());
    }
    out
}

/// Where the summary stands while a subprocess runs.
pub enum SummaryPhase {
    /// The name-and-status diff is running.
    NameStatus,
    /// The untracked listing is running; the parsed tracked entries are
    /// carried along.
    UntrackedList { tracked_entries: Vec<TrackedDiffEntry> },
}

/// Mathematical image of a [`SummaryPhase`].
pub enum SummaryPhaseView {
    NameStatus,
    UntrackedList { tracked_entries: Seq<TrackedDiffEntryView> },
}

impl View for SummaryPhase {
    type V = SummaryPhaseView;

    open spec fn view(&self) -> SummaryPhaseView {
        match self {
            SummaryPhase::NameStatus => SummaryPhaseView::NameStatus,
            SummaryPhase::UntrackedList { tracked_entries } => SummaryPhaseView::UntrackedList {
                tracked_entries: tracked_entries.deep_view(),
            },
        }
    }
}

/// One step of the summary: a command to run and the phase to resume with,
/// or the finished outcome.
pub enum SummaryStep {
    Run(Cmd, SummaryPhase),
    Done(Result<WorktreeSummary, EngineError>),
}

/// Mathematical image of a [`SummaryStep`].
pub enum SummaryStepView {
    Run(CmdView, SummaryPhaseView),
    Done(Result<WorktreeSummaryView, EngineErrorView>),
}

impl View for SummaryStep {
    type V = SummaryStepView;

    open spec fn view(&self) -> SummaryStepView {
        match self {
            SummaryStep::Run(c, p) => SummaryStepView::Run(c@, p@),
            SummaryStep::Done(Ok(s)) => SummaryStepView::Done(Ok(s@)),
            SummaryStep::Done(Err(e)) => SummaryStepView::Done(Err(e@)),
        }
    }
}

/// The first step: run the name-and-status diff.
pub open spec fn summary_begin_spec() -> SummaryStepView {
    SummaryStepView::Run(name_status_cmd_spec(), SummaryPhaseView::NameStatus)
}

/// Exec form of [`summary_begin_spec`].
pub fn summary_begin() -> (r: SummaryStep)
    ensures
        r@ == summary_begin_spec(),
{
    SummaryStep::Run(name_status_cmd(), SummaryPhase::NameStatus)
}

/// Every later step. An exit that is neither zero nor one is a hard error
/// surfaced with the tool's trimmed error output; otherwise the parsed
/// entries move on to the untracked listing, whose answer completes the
/// summary.
pub open spec fn summary_next_spec(ph: SummaryPhaseView, ev: ToolEventView) -> SummaryStepView {
    match ev {
        ToolEventView::SpawnFailed => SummaryStepView::Done(
            Err(EngineErrorView::ProcessSpawnFailure),
        ),
        ToolEventView::InputFailed => SummaryStepView::Done(
            Err(EngineErrorView::ProcessIOFailure),
        ),
        ToolEventView::WaitFailed => SummaryStepView::Done(Err(EngineErrorView::ProcessIOFailure)),
        ToolEventView::Exited { success, code, stdout, stderr } => {
            if !status_ok(success, code) {
                SummaryStepView::Done(
                    Err(EngineErrorView::ToolExecutionFailure { tool_error: trim_spec(stderr) }),
                )
            } else {
                match ph {
                    SummaryPhaseView::NameStatus => SummaryStepView::Run(
                        untracked_list_cmd_spec(),
                        SummaryPhaseView::UntrackedList {
                            tracked_entries: parse_name_status_spec(stdout),
                        },
                    ),
                    SummaryPhaseView::UntrackedList { tracked_entries } => SummaryStepView::Done(
                        Ok(
                            WorktreeSummaryView {
                                tracked_entries,
                                untracked: untracked_files_spec(stdout),
                            },
                        ),
                    ),
                }
            }
        },
    }
}

/// An exit the summary flow accepts (exit code zero or one), with the given
/// output.
pub open spec fn accepted_status_exit(ev: ToolEventView, out: Seq<char>) -> bool {
    match ev {
        ToolEventView::Exited { success, code, stdout, stderr } => status_ok(success, code)
            && stdout == out,
        _ => false,
    }
}

/// The whole summary flow: an accepted name-status exit with output `o1`
/// followed by an accepted listing exit with output `o2` ends in exactly
/// the parsed entries and the listed untracked paths.
pub proof fn lemma_summary_flow(
    e1: ToolEventView,
    e2: ToolEventView,
    o1: Seq<char>,
    o2: Seq<char>,
)
    requires
        accepted_status_exit(e1, o1),
        accepted_status_exit(e2, o2),
    ensures
        summary_next_spec(SummaryPhaseView::NameStatus, e1) == SummaryStepView::Run(
            untracked_list_cmd_spec(),
            SummaryPhaseView::UntrackedList { tracked_entries: parse_name_status_spec(o1) },
        ),
        summary_next_spec(
            SummaryPhaseView::UntrackedList { tracked_entries: parse_name_status_spec(o1) },
            e2,
        ) == SummaryStepView::Done(
            Ok::<WorktreeSummaryView, EngineErrorView>(
                WorktreeSummaryView {
                    tracked_entries: parse_name_status_spec(o1),
                    untracked: untracked_files_spec(o2),
                },
            ),
        ),
{
    match e1 {
        ToolEventView::Exited { success, code, stdout, stderr } => {
            assert(status_ok(success, code));
            assert(stdout == o1);
        },
        _ => {
            assert(false);
        },
    }
    match e2 {
        ToolEventView::Exited { success, code, stdout, stderr } => {
            assert(status_ok(success, code));
            assert(stdout == o2);
        },
        _ => {
            assert(false);
        },
    }
}

/// Exec form of [`summary_next_spec`].
pub fn summary_next(ph: SummaryPhase, ev: ToolEvent) -> (r: SummaryStep)
    ensures
        r@ == summary_next_spec(ph@, ev@),
{
    match ev {
        ToolEvent::SpawnFailed => SummaryStep::Done(Err(EngineError::ProcessSpawnFailure)),
        ToolEvent::InputFailed => SummaryStep::Done(Err(EngineError::ProcessIOFailure)),
        ToolEvent::WaitFailed => SummaryStep::Done(Err(EngineError::ProcessIOFailure)),
        ToolEvent::Exited { success, code, stdout, stderr } => {
            if !exit_status_ok(success, &code) {
                SummaryStep::Done(
                    Err(
                        EngineError::ToolExecutionFailure {
                            tool_error: trim_str(stderr.as_str()),
                        },
                    ),
                )
            } else {
                match ph {
                    SummaryPhase::NameStatus => SummaryStep::Run(
                        untracked_list_cmd(),
                        SummaryPhase::UntrackedList {
                            tracked_entries: parse_name_status(stdout.as_str()),
                        },
                    ),
                    SummaryPhase::UntrackedList { tracked_entries } => SummaryStep::Done(
                        Ok(
                            WorktreeSummary {
                                tracked_entries,
                                untracked: untracked_files_list(stdout.as_str()),
                            },
                        ),
                    ),
                }
            }
        },
    }
}

} // verus!
