//! Full worktree diff, as a stepwise decision machine.
//!
//! Order of work: probe whether the directory is version-controlled (a
//! failing probe yields an empty diff, not an error), diff the tracked files
//! against the current commit, list the untracked files, then synthesize a
//! diff against the null source for each untracked file in turn, and finally
//! concatenate the trimmed pieces. The embedding program runs each command a
//! `Run` step names and hands the resulting event back to [`diff_next`]
//! together with the phase the step carried.

use vstd::prelude::*;
use crate::cmd::{
    Cmd,
    CmdView,
    EngineError,
    EngineErrorView,
    ToolEvent,
    ToolEventView,
    code_gt_one,
    exit_code_gt_one,
    probe_cmd,
    probe_cmd_spec,
    tracked_diff_cmd,
    tracked_diff_cmd_spec,
    untracked_diff_cmd,
    untracked_diff_cmd_spec,
    untracked_list_cmd,
    untracked_list_cmd_spec,
};
use crate::summary::{untracked_files_list, untracked_files_spec};
use crate::text::{
    is_blank_str,
    lemma_trim_nonempty_trim_end,
    trim_end_spec,
    trim_end_str,
    trim_spec,
};

verus! {

/// How one untracked file's synthesized diff joins the running buffer: a
/// blank chunk contributes nothing; otherwise a single newline separates it
/// from a non-empty buffer unless the chunk already starts with one.
pub open spec fn append_untracked_spec(acc: Seq<char>, chunk: Seq<char>) -> Seq<char> {
    if trim_spec(chunk).len() == 0 {
        acc
    } else if acc.len() > 0 && !(chunk.len() > 0 && chunk[0] == '\n') {
        acc + seq!['\n'] + chunk
    } else {
        acc + chunk
    }
}

/// The final concatenation: the trimmed tracked diff, then — when both parts
/// are non-blank — a single separating newline, then the trimmed untracked
/// buffer. Blank parts contribute nothing.
pub open spec fn combine_diff_spec(base: Seq<char>, untracked: Seq<char>) -> Seq<char> {
    let b = if trim_spec(base).len() == 0 {
        Seq::<char>::empty()
    } else {
        trim_end_spec(base)
    };
    if trim_spec(untracked).len() == 0 {
        b
    } else if b.len() > 0 {
        b + seq!['\n'] + trim_end_spec(untracked)
    } else {
        trim_end_spec(untracked)
    }
}

/// Exec form of [`append_untracked_spec`], consuming and returning the
/// buffer.
pub fn append_untracked(acc: String, chunk: &str) -> (r: String)
    ensures
        r@ == append_untracked_spec(acc@, chunk@),
{
    if is_blank_str(chunk) {
        acc
    } else {
        let mut buf = acc;
        let starts_nl = chunk.unicode_len() > 0 && chunk.get_char(0) == '\n';
        if !buf.as_str().is_empty() && !starts_nl {
            let ghost pre = buf@;
            buf.append("\n");
            buf.append(chunk);
            proof {
                reveal_strlit("\n");
                assert("\n"@ =~= seq!['\n']);
                assert(buf@ =~= pre + seq!['\n'] + chunk@);
            }
        } else {
            buf.append(chunk);
        }
        buf
    }
}

/// Exec form of [`combine_diff_spec`].
pub fn combine_diff(base: &str, untracked: &str) -> (r: String)
    ensures
        r@ == combine_diff_spec(base@, untracked@),
{
    let mut combined = String::new();
    if !is_blank_str(base) {
        combined = trim_end_str(base);
        proof {
            lemma_trim_nonempty_trim_end(base@);
        }
    }
    if !is_blank_str(untracked) {
        let ghost pre = combined@;
        let te = trim_end_str(untracked);
        if !combined.as_str().is_empty() {
            combined.append("\n");
            combined.append(te.as_str());
            proof {
                reveal_strlit("\n");
                assert("\n"@ =~= seq!['\n']);
                assert(combined@ =~= pre + seq!['\n'] + trim_end_spec(untracked@));
            }
        } else {
            combined.append(te.as_str());
            proof {
                assert(combined@ =~= trim_end_spec(untracked@));
            }
        }
    }
    combined
}

/// Where the full diff stands while a subprocess runs.
pub enum DiffPhase {
    /// The toplevel probe is running.
    Probe,
    /// The tracked diff against the current commit is running.
    BaseDiff,
    /// The untracked listing is running; the accepted tracked diff text is
    /// carried along.
    UntrackedList { base: String },
    /// The synthesized diff of `files[next - 1]` is running; `acc` buffers
    /// the untracked diffs accepted so far.
    FileDiff { base: String, files: Vec<String>, next: usize, acc: String },
}

/// Mathematical image of a [`DiffPhase`].
pub enum DiffPhaseView {
    Probe,
    BaseDiff,
    UntrackedList { base: Seq<char> },
    FileDiff { base: Seq<char>, files: Seq<Seq<char>>, next: int, acc: Seq<char> },
}

impl View for DiffPhase {
    type V = DiffPhaseView;

    open spec fn view(&self) -> DiffPhaseView {
        match self {
            DiffPhase::Probe => DiffPhaseView::Probe,
            DiffPhase::BaseDiff => DiffPhaseView::BaseDiff,
            DiffPhase::UntrackedList { base } => DiffPhaseView::UntrackedList { base: base@ },
            DiffPhase::FileDiff { base, files, next, acc } => DiffPhaseView::FileDiff {
                base: base@,
                files: files.deep_view(),
                next: *next as int,
                acc: acc@,
            },
        }
    }
}

/// One step of the full diff: a command to run and the phase to resume with,
/// or the finished outcome.
pub enum DiffStep {
    Run(Cmd, DiffPhase),
    Done(Result<String, EngineError>),
}

/// Mathematical image of a [`DiffStep`].
pub enum DiffStepView {
    Run(CmdView, DiffPhaseView),
    Done(Result<Seq<char>, EngineErrorView>),
}

impl View for DiffStep {
    type V = DiffStepView;

    open spec fn view(&self) -> DiffStepView {
        match self {
            DiffStep::Run(c, p) => DiffStepView::Run(c@, p@),
            DiffStep::Done(Ok(s)) => DiffStepView::Done(Ok(s@)),
            DiffStep::Done(Err(e)) => DiffStepView::Done(Err(e@)),
        }
    }
}

/// The first step: probe whether the directory sits inside a
/// version-controlled tree.
pub open spec fn diff_begin_spec() -> DiffStepView {
    DiffStepView::Run(probe_cmd_spec(), DiffPhaseView::Probe)
}

/// Exec form of [`diff_begin_spec`].
pub fn diff_begin() -> (r: DiffStep)
    ensures
        r@ == diff_begin_spec(),
{
    DiffStep::Run(probe_cmd(), DiffPhase::Probe)
}

/// Every later step of the full diff.
///
/// A probe that cannot run or reports non-success ends with an empty diff —
/// a working directory need not be version-controlled. The tracked diff's
/// text is accepted unless its exit code is greater than one, in which case
/// this step's contribution is empty; a per-file synthesized diff with such
/// an exit code is skipped without aborting the batch. Failures to run any
/// command after the probe are reported.
pub open spec fn diff_next_spec(ph: DiffPhaseView, ev: ToolEventView) -> DiffStepView {
    match ph {
        DiffPhaseView::Probe => match ev {
            ToolEventView::Exited { success, code, stdout, stderr } => {
                if success {
                    DiffStepView::Run(tracked_diff_cmd_spec(), DiffPhaseView::BaseDiff)
                } else {
                    DiffStepView::Done(Ok(Seq::<char>::empty()))
                }
            },
            _ => DiffStepView::Done(Ok(Seq::<char>::empty())),
        },
        DiffPhaseView::BaseDiff => match ev {
            ToolEventView::SpawnFailed => DiffStepView::Done(
                Err(EngineErrorView::ProcessSpawnFailure),
            ),
            ToolEventView::InputFailed => DiffStepView::Done(
                Err(EngineErrorView::ProcessIOFailure),
            ),
            ToolEventView::WaitFailed => DiffStepView::Done(
                Err(EngineErrorView::ProcessIOFailure),
            ),
            ToolEventView::Exited { success, code, stdout, stderr } => {
                let base = if code_gt_one(code) {
                    Seq::<char>::empty()
                } else {
                    stdout
                };
                DiffStepView::Run(
                    untracked_list_cmd_spec(),
                    DiffPhaseView::UntrackedList { base },
                )
            },
        },
        DiffPhaseView::UntrackedList { base } => match ev {
            ToolEventView::SpawnFailed => DiffStepView::Done(
                Err(EngineErrorView::ProcessSpawnFailure),
            ),
            ToolEventView::InputFailed => DiffStepView::Done(
                Err(EngineErrorView::ProcessIOFailure),
            ),
            ToolEventView::WaitFailed => DiffStepView::Done(
                Err(EngineErrorView::ProcessIOFailure),
            ),
            ToolEventView::Exited { success, code, stdout, stderr } => {
                let files = untracked_files_spec(stdout);
                if files.len() == 0 {
                    DiffStepView::Done(Ok(combine_diff_spec(base, Seq::<char>::empty())))
                } else {
                    DiffStepView::Run(
                        untracked_diff_cmd_spec(files[0]),
                        DiffPhaseView::FileDiff { base, files, next: 1, acc: Seq::<char>::empty() },
                    )
                }
            },
        },
        DiffPhaseView::FileDiff { base, files, next, acc } => match ev {
            ToolEventView::SpawnFailed => DiffStepView::Done(
                Err(EngineErrorView::ProcessSpawnFailure),
            ),
            ToolEventView::InputFailed => DiffStepView::Done(
                Err(EngineErrorView::ProcessIOFailure),
            ),
            ToolEventView::WaitFailed => DiffStepView::Done(
                Err(EngineErrorView::ProcessIOFailure),
            ),
            ToolEventView::Exited { success, code, stdout, stderr } => {
                let acc2 = if code_gt_one(code) {
                    acc
                } else {
                    append_untracked_spec(acc, stdout)
                };
                if next < files.len() {
                    DiffStepView::Run(
                        untracked_diff_cmd_spec(files[next]),
                        DiffPhaseView::FileDiff { base, files, next: next + 1, acc: acc2 },
                    )
                } else {
                    DiffStepView::Done(Ok(combine_diff_spec(base, acc2)))
                }
            },
        },
    }
}

/// Runs the machine over one event per issued command; a finished step
/// absorbs any leftover events unchanged.
pub open spec fn run_diff_spec(step: DiffStepView, evs: Seq<ToolEventView>) -> DiffStepView
    decreases evs.len(),
{
    match step {
        DiffStepView::Run(c, ph) => {
            if evs.len() == 0 {
                step
            } else {
                run_diff_spec(diff_next_spec(ph, evs[0]), evs.skip(1))
            }
        },
        DiffStepView::Done(r) => step,
    }
}

/// An exit whose output the diff flow accepts (exit code not above one),
/// with the given output.
pub open spec fn accepted_diff_exit(ev: ToolEventView, out: Seq<char>) -> bool {
    match ev {
        ToolEventView::Exited { success, code, stdout, stderr } => !code_gt_one(code) && stdout
            == out,
        _ => false,
    }
}

/// An exit reporting success.
pub open spec fn successful_exit(ev: ToolEventView) -> bool {
    match ev {
        ToolEventView::Exited { success, code, stdout, stderr } => success,
        _ => false,
    }
}

/// The untracked buffer built from a sequence of accepted outputs, left to
/// right.
pub open spec fn append_fold(acc: Seq<char>, outs: Seq<Seq<char>>) -> Seq<char>
    decreases outs.len(),
{
    if outs.len() == 0 {
        acc
    } else {
        append_fold(append_untracked_spec(acc, outs[0]), outs.skip(1))
    }
}

/// The per-file tail of the flow folds its accepted outputs onto the buffer
/// in listing order and ends with the combination.
proof fn lemma_file_fold(
    cmd: CmdView,
    base: Seq<char>,
    files: Seq<Seq<char>>,
    next: int,
    acc: Seq<char>,
    evs: Seq<ToolEventView>,
    outs: Seq<Seq<char>>,
)
    requires
        1 <= next <= files.len(),
        evs.len() == files.len() - next + 1,
        outs.len() == evs.len(),
        forall|i: int| 0 <= i < evs.len() ==> accepted_diff_exit(#[trigger] evs[i], outs[i]),
    ensures
        run_diff_spec(
            DiffStepView::Run(cmd, DiffPhaseView::FileDiff { base, files, next, acc }),
            evs,
        ) == DiffStepView::Done(
            Ok::<Seq<char>, EngineErrorView>(combine_diff_spec(base, append_fold(acc, outs))),
        ),
    decreases evs.len(),
{
    assert(accepted_diff_exit(evs[0], outs[0]));
    let acc2 = append_untracked_spec(acc, outs[0]);
    let ph = DiffPhaseView::FileDiff { base, files, next, acc };
    assert(run_diff_spec(DiffStepView::Run(cmd, ph), evs) == run_diff_spec(
        diff_next_spec(ph, evs[0]),
        evs.skip(1),
    ));
    match evs[0] {
        ToolEventView::Exited { success, code, stdout, stderr } => {
            assert(!code_gt_one(code));
            assert(stdout == outs[0]);
        },
        _ => {
            assert(false);
        },
    }
    if next < files.len() {
        assert(diff_next_spec(ph, evs[0]) == DiffStepView::Run(
            untracked_diff_cmd_spec(files[next]),
            DiffPhaseView::FileDiff { base, files, next: next + 1, acc: acc2 },
        ));
        assert forall|i: int| 0 <= i < evs.skip(1).len() implies accepted_diff_exit(
            #[trigger] evs.skip(1)[i],
            outs.skip(1)[i],
        ) by {
            assert(evs.skip(1)[i] == evs[i + 1]);
            assert(outs.skip(1)[i] == outs[i + 1]);
        }
        lemma_file_fold(
            untracked_diff_cmd_spec(files[next]),
            base,
            files,
            next + 1,
            acc2,
            evs.skip(1),
            outs.skip(1),
        );
        assert(append_fold(acc, outs) == append_fold(acc2, outs.skip(1)));
    } else {
        assert(diff_next_spec(ph, evs[0]) == DiffStepView::Done(
            Ok::<Seq<char>, EngineErrorView>(combine_diff_spec(base, acc2)),
        ));
        assert(evs.len() == 1);
        assert(outs.skip(1) =~= Seq::<Seq<char>>::empty());
        assert(evs.skip(1) =~= Seq::<ToolEventView>::empty());
        assert(append_fold(acc, outs) == append_fold(acc2, outs.skip(1)));
        assert(append_fold(acc2, outs.skip(1)) == acc2);
    }
}

/// The whole flow, over every accepted run: a successful probe, an accepted
/// tracked diff with output `b`, a listing with output `l`, and one accepted
/// exit per file the listing names, end in exactly the combination of `b`
/// with the untracked outputs folded in listing order.
pub proof fn lemma_full_diff_flow(
    pe: ToolEventView,
    be: ToolEventView,
    le: ToolEventView,
    b: Seq<char>,
    l: Seq<char>,
    evs: Seq<ToolEventView>,
    outs: Seq<Seq<char>>,
)
    requires
        successful_exit(pe),
        accepted_diff_exit(be, b),
        accepted_diff_exit(le, l),
        evs.len() == untracked_files_spec(l).len(),
        outs.len() == evs.len(),
        forall|i: int| 0 <= i < evs.len() ==> accepted_diff_exit(#[trigger] evs[i], outs[i]),
    ensures
        run_diff_spec(diff_begin_spec(), seq![pe, be, le] + evs) == DiffStepView::Done(
            Ok::<Seq<char>, EngineErrorView>(
                combine_diff_spec(b, append_fold(Seq::<char>::empty(), outs)),
            ),
        ),
{
    let s0 = seq![pe, be, le] + evs;
    assert(s0[0] == pe);
    assert(s0.skip(1) =~= seq![be, le] + evs);
    assert(run_diff_spec(diff_begin_spec(), s0) == run_diff_spec(
        diff_next_spec(DiffPhaseView::Probe, pe),
        s0.skip(1),
    ));
    match pe {
        ToolEventView::Exited { success, code, stdout, stderr } => {
            assert(success);
        },
        _ => {
            assert(false);
        },
    }
    assert(diff_next_spec(DiffPhaseView::Probe, pe) == DiffStepView::Run(
        tracked_diff_cmd_spec(),
        DiffPhaseView::BaseDiff,
    ));
    let s1 = s0.skip(1);
    assert(s1[0] == be);
    assert(s1.skip(1) =~= seq![le] + evs);
    assert(run_diff_spec(
        DiffStepView::Run(tracked_diff_cmd_spec(), DiffPhaseView::BaseDiff),
        s1,
    ) == run_diff_spec(diff_next_spec(DiffPhaseView::BaseDiff, be), s1.skip(1)));
    match be {
        ToolEventView::Exited { success, code, stdout, stderr } => {
            assert(!code_gt_one(code));
            assert(stdout == b);
        },
        _ => {
            assert(false);
        },
    }
    assert(diff_next_spec(DiffPhaseView::BaseDiff, be) == DiffStepView::Run(
        untracked_list_cmd_spec(),
        DiffPhaseView::UntrackedList { base: b },
    ));
    let s2 = s1.skip(1);
    assert(s2[0] == le);
    assert(s2.skip(1) =~= evs);
    assert(run_diff_spec(
        DiffStepView::Run(untracked_list_cmd_spec(), DiffPhaseView::UntrackedList { base: b }),
        s2,
    ) == run_diff_spec(diff_next_spec(DiffPhaseView::UntrackedList { base: b }, le), s2.skip(1)));
    match le {
        ToolEventView::Exited { success, code, stdout, stderr } => {
            assert(stdout == l);
        },
        _ => {
            assert(false);
        },
    }
    let files = untracked_files_spec(l);
    if files.len() == 0 {
        assert(diff_next_spec(DiffPhaseView::UntrackedList { base: b }, le)
            == DiffStepView::Done(
            Ok::<Seq<char>, EngineErrorView>(combine_diff_spec(b, Seq::<char>::empty())),
        ));
        assert(evs.len() == 0);
        assert(outs =~= Seq::<Seq<char>>::empty());
        assert(append_fold(Seq::<char>::empty(), outs) == Seq::<char>::empty());
    } else {
        assert(diff_next_spec(DiffPhaseView::UntrackedList { base: b }, le) == DiffStepView::Run(
            untracked_diff_cmd_spec(files[0]),
            DiffPhaseView::FileDiff { base: b, files, next: 1, acc: Seq::<char>::empty() },
        ));
        lemma_file_fold(
            untracked_diff_cmd_spec(files[0]),
            b,
            files,
            1,
            Seq::<char>::empty(),
            evs,
            outs,
        );
    }
}

/// Exec form of [`diff_next_spec`].
pub fn diff_next(ph: DiffPhase, ev: ToolEvent) -> (r: DiffStep)
    ensures
        r@ == diff_next_spec(ph@, ev@),
{
    match ph {
        DiffPhase::Probe => match ev {
            ToolEvent::Exited { success, code, stdout, stderr } => {
                if success {
                    DiffStep::Run(tracked_diff_cmd(), DiffPhase::BaseDiff)
                } else {
                    DiffStep::Done(Ok(String::new()))
                }
            },
            _ => DiffStep::Done(Ok(String::new())),
        },
        DiffPhase::BaseDiff => match ev {
            ToolEvent::SpawnFailed => DiffStep::Done(Err(EngineError::ProcessSpawnFailure)),
            ToolEvent::InputFailed => DiffStep::Done(Err(EngineError::ProcessIOFailure)),
            ToolEvent::WaitFailed => DiffStep::Done(Err(EngineError::ProcessIOFailure)),
            ToolEvent::Exited { success, code, stdout, stderr } => {
                let base = if exit_code_gt_one(&code) {
                    String::new()
                } else {
                    stdout
                };
                DiffStep::Run(untracked_list_cmd(), DiffPhase::UntrackedList { base })
            },
        },
        DiffPhase::UntrackedList { base } => match ev {
            ToolEvent::SpawnFailed => DiffStep::Done(Err(EngineError::ProcessSpawnFailure)),
            ToolEvent::InputFailed => DiffStep::Done(Err(EngineError::ProcessIOFailure)),
            ToolEvent::WaitFailed => DiffStep::Done(Err(EngineError::ProcessIOFailure)),
            ToolEvent::Exited { success, code, stdout, stderr } => {
                let files = untracked_files_list(stdout.as_str());
                if files.len() == 0 {
                    let r = combine_diff(base.as_str(), "");
                    proof {
                        reveal_strlit("");
                        assert(""@ =~= Seq::<char>::empty());
                    }
                    DiffStep::Done(Ok(r))
                } else {
                    let first = files[0].clone();
                    DiffStep::Run(
                        untracked_diff_cmd(first),
                        DiffPhase::FileDiff { base, files, next: 1, acc: String::new() },
                    )
                }
            },
        },
        DiffPhase::FileDiff { base, files, next, acc } => match ev {
            ToolEvent::SpawnFailed => DiffStep::Done(Err(EngineError::ProcessSpawnFailure)),
            ToolEvent::InputFailed => DiffStep::Done(Err(EngineError::ProcessIOFailure)),
            ToolEvent::WaitFailed => DiffStep::Done(Err(EngineError::ProcessIOFailure)),
            ToolEvent::Exited { success, code, stdout, stderr } => {
                let acc2 = if exit_code_gt_one(&code) {
                    acc
                } else {
                    append_untracked(acc, stdout.as_str())
                };
                if next < files.len() {
                    let f = files[next].clone();
                    DiffStep::Run(
                        untracked_diff_cmd(f),
                        DiffPhase::FileDiff { base, files, next: next + 1, acc: acc2 },
                    )
                } else {
                    DiffStep::Done(Ok(combine_diff(base.as_str(), acc2.as_str())))
                }
            },
        },
    }
}

} // verus!
