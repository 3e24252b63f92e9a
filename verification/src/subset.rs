//! Diff of an explicit subset of targets, as a stepwise decision machine.
//!
//! Targets are partitioned by status: untracked targets (status beginning
//! with the `??` marker) keep their input order and are diffed one by one
//! against the null source; all others contribute their path — and, for
//! renames and copies, their old path — to one deduplicated set diffed by a
//! single batched command. Blank paths are skipped. The non-empty trimmed
//! results are joined with single newlines, batched result first.

use vstd::prelude::*;
use crate::cmd::{
    Cmd,
    CmdView,
    EngineError,
    EngineErrorView,
    ToolEvent,
    ToolEventView,
    exit_status_ok,
    status_ok,
    subset_diff_cmd,
    subset_diff_cmd_spec,
    untracked_diff_cmd,
    untracked_diff_cmd_spec,
};
use crate::text::{trim_end_spec, trim_end_str, trim_spec, trim_str, is_blank_str};

verus! {

/// One requested diff target: current path, status code, and the old path
/// for renames and copies. Used only to partition work.
pub struct DiffTargetPayload {
    pub path: String,
    pub status: String,
    pub old_path: Option<String>,
}

/// Mathematical image of a [`DiffTargetPayload`].
pub struct DiffTargetView {
    pub path: Seq<char>,
    pub status: Seq<char>,
    pub old_path: Option<Seq<char>>,
}

impl View for DiffTargetPayload {
    type V = DiffTargetView;

    open spec fn view(&self) -> DiffTargetView {
        DiffTargetView {
            path: self.path@,
            status: self.status@,
            old_path: self.old_path.deep_view(),
        }
    }
}

impl DeepView for DiffTargetPayload {
    type V = DiffTargetView;

    open spec fn deep_view(&self) -> DiffTargetView {
        self.view()
    }
}

/// Does this status carry the untracked marker?
pub open spec fn is_untracked_status(st: Seq<char>) -> bool {
    st.len() >= 2 && st[0] == '?' && st[1] == '?'
}

/// Exec test for [`is_untracked_status`].
pub fn untracked_status(st: &String) -> (r: bool)
    ensures
        r == is_untracked_status(st@),
{
    let s = st.as_str();
    s.unicode_len() >= 2 && s.get_char(0) == '?' && s.get_char(1) == '?'
}

/// Appends a path unless it is already present.
pub open spec fn push_unique(acc: Seq<Seq<char>>, x: Seq<char>) -> Seq<Seq<char>> {
    if acc.contains(x) {
        acc
    } else {
        acc.push(x)
    }
}

/// The tracked-path set a prefix of targets has built, folded left to right:
/// each non-blank, non-untracked target adds its trimmed path and then its
/// non-blank trimmed old path, first occurrence deciding the order.
pub open spec fn tracked_fold(ts: Seq<DiffTargetView>, acc: Seq<Seq<char>>) -> Seq<Seq<char>>
    decreases ts.len(),
{
    if ts.len() == 0 {
        acc
    } else {
        let t = ts[0];
        let p = trim_spec(t.path);
        let acc1 = if p.len() == 0 || is_untracked_status(t.status) {
            acc
        } else {
            let a = push_unique(acc, p);
            match t.old_path {
                Some(o) => if trim_spec(o).len() > 0 {
                    push_unique(a, trim_spec(o))
                } else {
                    a
                },
                None => a,
            }
        };
        tracked_fold(ts.skip(1), acc1)
    }
}

/// The deduplicated tracked paths of the targets, in first-occurrence order.
pub open spec fn tracked_paths_spec(ts: Seq<DiffTargetView>) -> Seq<Seq<char>> {
    tracked_fold(ts, seq![])
}

/// The untracked paths a prefix of targets has built, in input order,
/// duplicates kept.
pub open spec fn untracked_fold(ts: Seq<DiffTargetView>, acc: Seq<Seq<char>>) -> Seq<Seq<char>>
    decreases ts.len(),
{
    if ts.len() == 0 {
        acc
    } else {
        let t = ts[0];
        let p = trim_spec(t.path);
        let acc1 = if p.len() > 0 && is_untracked_status(t.status) {
            acc.push(p)
        } else {
            acc
        };
        untracked_fold(ts.skip(1), acc1)
    }
}

/// The trimmed untracked paths of the targets, in input order.
pub open spec fn untracked_paths_spec(ts: Seq<DiffTargetView>) -> Seq<Seq<char>> {
    untracked_fold(ts, seq![])
}

/// Is this path already in the collection?
#[verifier::loop_isolation(false)]
fn vec_contains(v: &Vec<String>, x: &String) -> (r: bool)
    ensures
        r == v.deep_view().contains(x@),
{
    let n = v.len();
    let mut k: usize = 0;
    while k < n
        invariant
            0 <= k <= n,
            n == v.deep_view().len(),
            forall|j: int| 0 <= j < k ==> v.deep_view()[j] != x@,
        decreases n - k,
    {
        if v[k] == *x {
            assert(v.deep_view()[k as int] == x@);
            return true;
        }
        k += 1;
    }
    false
}

/// Partitions the targets into the deduplicated tracked-path set and the
/// ordered untracked paths.
#[verifier::loop_isolation(false)]
pub fn partition_targets(targets: &Vec<DiffTargetPayload>) -> (r: (Vec<String>, Vec<String>))
    ensures
        r.0.deep_view() == tracked_paths_spec(targets.deep_view()),
        r.1.deep_view() == untracked_paths_spec(targets.deep_view()),
{
    let ghost tsv = targets.deep_view();
    let mut tr: Vec<String> = Vec::new();
    let mut un: Vec<String> = Vec::new();
    let n = targets.len();
    let mut k: usize = 0;
    proof {
        assert(tsv.skip(0) =~= tsv);
        assert(tr.deep_view() =~= Seq::<Seq<char>>::empty());
        assert(un.deep_view() =~= Seq::<Seq<char>>::empty());
    }
    while k < n
        invariant
            0 <= k <= n,
            n == tsv.len(),
            targets.deep_view() == tsv,
            tracked_paths_spec(tsv) == tracked_fold(tsv.skip(k as int), tr.deep_view()),
            untracked_paths_spec(tsv) == untracked_fold(tsv.skip(k as int), un.deep_view()),
        decreases n - k,
    {
        let ghost trv = tr.deep_view();
        let ghost unv = un.deep_view();
        let ghost t = tsv[k as int];
        proof {
            assert(tsv.skip(k as int)[0] == tsv[k as int]);
            assert(tsv.skip(k as int).skip(1) =~= tsv.skip(k as int + 1));
        }
        let p = trim_str(targets[k].path.as_str());
        if !p.as_str().is_empty() {
            if untracked_status(&targets[k].status) {
                un.push(p);
                proof {
                    assert(un.deep_view() =~= unv.push(trim_spec(t.path)));
                }
            } else {
                if !vec_contains(&tr, &p) {
                    tr.push(p);
                }
                proof {
                    assert(tr.deep_view() =~= push_unique(trv, trim_spec(t.path)));
                }
                let ghost tra = tr.deep_view();
                match &targets[k].old_path {
                    Some(o) => {
                        let ot = trim_str(o.as_str());
                        proof {
                            assert(t.old_path == Some(o@));
                        }
                        if !ot.as_str().is_empty() {
                            if !vec_contains(&tr, &ot) {
                                tr.push(ot);
                            }
                            proof {
                                assert(tr.deep_view() =~= push_unique(tra, trim_spec(o@)));
                            }
                        }
                    },
                    None => {},
                }
            }
        }
        k += 1;
    }
    proof {
        assert(tsv.skip(n as int) =~= Seq::<DiffTargetView>::empty());
    }
    (tr, un)
}

/// How a command's output joins the subset result: outputs whose trim is
/// empty (and outputs of refused commands) contribute nothing, every other
/// trimmed-at-the-end output is appended after a single newline separator.
pub open spec fn join_push_spec(acc: Seq<char>, stdout: Seq<char>) -> Seq<char> {
    if trim_spec(stdout).len() == 0 {
        acc
    } else if acc.len() == 0 {
        trim_end_spec(stdout)
    } else {
        acc + seq!['\n'] + trim_end_spec(stdout)
    }
}

/// Exec form of [`join_push_spec`], consuming and returning the buffer.
pub fn join_push(acc: String, stdout: &str) -> (r: String)
    ensures
        r@ == join_push_spec(acc@, stdout@),
{
    if is_blank_str(stdout) {
        acc
    } else {
        let te = trim_end_str(stdout);
        if acc.as_str().is_empty() {
            te
        } else {
            let mut buf = acc;
            let ghost pre = buf@;
            buf.append("\n");
            buf.append(te.as_str());
            proof {
                reveal_strlit("\n");
                assert("\n"@ =~= seq!['\n']);
                assert(buf@ =~= pre + seq!['\n'] + trim_end_spec(stdout@));
            }
            buf
        }
    }
}

/// Where the subset diff stands while a subprocess runs.
pub enum SubsetPhase {
    /// The batched tracked diff is running; the untracked queue waits.
    Batched { untracked_queue: Vec<String> },
    /// The synthesized diff of `queue[next - 1]` is running; `acc` holds the
    /// joined chunks so far.
    PerFile { queue: Vec<String>, next: usize, acc: String },
}

/// Mathematical image of a [`SubsetPhase`].
pub enum SubsetPhaseView {
    Batched { untracked_queue: Seq<Seq<char>> },
    PerFile { queue: Seq<Seq<char>>, next: int, acc: Seq<char> },
}

impl View for SubsetPhase {
    type V = SubsetPhaseView;

    open spec fn view(&self) -> SubsetPhaseView {
        match self {
            SubsetPhase::Batched { untracked_queue } => SubsetPhaseView::Batched {
                untracked_queue: untracked_queue.deep_view(),
            },
            SubsetPhase::PerFile { queue, next, acc } => SubsetPhaseView::PerFile {
                queue: queue.deep_view(),
                next: *next as int,
                acc: acc@,
            },
        }
    }
}

/// One step of the subset diff: a command to run and the phase to resume
/// with, or the finished outcome.
pub enum SubsetStep {
    Run(Cmd, SubsetPhase),
    Done(Result<String, EngineError>),
}

/// Mathematical image of a [`SubsetStep`].
pub enum SubsetStepView {
    Run(CmdView, SubsetPhaseView),
    Done(Result<Seq<char>, EngineErrorView>),
}

impl View for SubsetStep {
    type V = SubsetStepView;

    open spec fn view(&self) -> SubsetStepView {
        match self {
            SubsetStep::Run(c, p) => SubsetStepView::Run(c@, p@),
            SubsetStep::Done(Ok(s)) => SubsetStepView::Done(Ok(s@)),
            SubsetStep::Done(Err(e)) => SubsetStepView::Done(Err(e@)),
        }
    }
}

/// The first step. An empty target list short-circuits to the empty result
/// with no tool invocation; so does a list whose every target is blank.
/// Otherwise the batched tracked diff runs first when the tracked set is
/// non-empty, else the first untracked diff.
pub open spec fn subset_begin_spec(ts: Seq<DiffTargetView>) -> SubsetStepView {
    if ts.len() == 0 {
        SubsetStepView::Done(Ok(Seq::<char>::empty()))
    } else {
        let tr = tracked_paths_spec(ts);
        let un = untracked_paths_spec(ts);
        if tr.len() > 0 {
            SubsetStepView::Run(
                subset_diff_cmd_spec(tr),
                SubsetPhaseView::Batched { untracked_queue: un },
            )
        } else if un.len() > 0 {
            SubsetStepView::Run(
                untracked_diff_cmd_spec(un[0]),
                SubsetPhaseView::PerFile { queue: un, next: 1, acc: Seq::<char>::empty() },
            )
        } else {
            SubsetStepView::Done(Ok(Seq::<char>::empty()))
        }
    }
}

/// Exec form of [`subset_begin_spec`].
pub fn subset_begin(targets: &Vec<DiffTargetPayload>) -> (r: SubsetStep)
    ensures
        r@ == subset_begin_spec(targets.deep_view()),
{
    if targets.len() == 0 {
        return SubsetStep::Done(Ok(String::new()));
    }
    let (tr, un) = partition_targets(targets);
    if tr.len() > 0 {
        SubsetStep::Run(subset_diff_cmd(tr), SubsetPhase::Batched { untracked_queue: un })
    } else if un.len() > 0 {
        let first = un[0].clone();
        SubsetStep::Run(
            untracked_diff_cmd(first),
            SubsetPhase::PerFile { queue: un, next: 1, acc: String::new() },
        )
    } else {
        SubsetStep::Done(Ok(String::new()))
    }
}

/// Every later step. A command that could not be run is a reported error; a
/// command whose exit is neither zero nor one contributes nothing but does
/// not abort the batch; accepted outputs join the result in order, batched
/// first, then the untracked queue in input order.
pub open spec fn subset_next_spec(ph: SubsetPhaseView, ev: ToolEventView) -> SubsetStepView {
    match ev {
        ToolEventView::SpawnFailed => SubsetStepView::Done(
            Err(EngineErrorView::ProcessSpawnFailure),
        ),
        ToolEventView::InputFailed => SubsetStepView::Done(Err(EngineErrorView::ProcessIOFailure)),
        ToolEventView::WaitFailed => SubsetStepView::Done(Err(EngineErrorView::ProcessIOFailure)),
        ToolEventView::Exited { success, code, stdout, stderr } => match ph {
            SubsetPhaseView::Batched { untracked_queue } => {
                let acc = if status_ok(success, code) {
                    join_push_spec(Seq::<char>::empty(), stdout)
                } else {
                    Seq::<char>::empty()
                };
                if untracked_queue.len() > 0 {
                    SubsetStepView::Run(
                        untracked_diff_cmd_spec(untracked_queue[0]),
                        SubsetPhaseView::PerFile { queue: untracked_queue, next: 1, acc },
                    )
                } else {
                    SubsetStepView::Done(Ok(acc))
                }
            },
            SubsetPhaseView::PerFile { queue, next, acc } => {
                let acc2 = if status_ok(success, code) {
                    join_push_spec(acc, stdout)
                } else {
                    acc
                };
                if next < queue.len() {
                    SubsetStepView::Run(
                        untracked_diff_cmd_spec(queue[next]),
                        SubsetPhaseView::PerFile { queue, next: next + 1, acc: acc2 },
                    )
                } else {
                    SubsetStepView::Done(Ok(acc2))
                }
            },
        },
    }
}

/// Runs the machine over one event per issued command; a finished step
/// absorbs any leftover events unchanged.
pub open spec fn run_subset_spec(step: SubsetStepView, evs: Seq<ToolEventView>) -> SubsetStepView
    decreases evs.len(),
{
    match step {
        SubsetStepView::Run(c, ph) => {
            if evs.len() == 0 {
                step
            } else {
                run_subset_spec(subset_next_spec(ph, evs[0]), evs.skip(1))
            }
        },
        SubsetStepView::Done(r) => step,
    }
}

/// The outputs of a command sequence, joined left to right.
pub open spec fn join_fold(acc: Seq<char>, outs: Seq<Seq<char>>) -> Seq<char>
    decreases outs.len(),
{
    if outs.len() == 0 {
        acc
    } else {
        join_fold(join_push_spec(acc, outs[0]), outs.skip(1))
    }
}

/// An exit that the subset flow accepts, with the given output.
pub open spec fn accepted_exit(ev: ToolEventView, out: Seq<char>) -> bool {
    match ev {
        ToolEventView::Exited { success, code, stdout, stderr } => status_ok(success, code)
            && stdout == out,
        _ => false,
    }
}

/// The per-file tail of the flow folds its accepted outputs onto the buffer
/// in queue order.
proof fn lemma_per_file_fold(
    cmd: CmdView,
    queue: Seq<Seq<char>>,
    next: int,
    acc: Seq<char>,
    evs: Seq<ToolEventView>,
    outs: Seq<Seq<char>>,
)
    requires
        1 <= next <= queue.len(),
        evs.len() == queue.len() - next + 1,
        outs.len() == evs.len(),
        forall|i: int| 0 <= i < evs.len() ==> accepted_exit(#[trigger] evs[i], outs[i]),
    ensures
        run_subset_spec(
            SubsetStepView::Run(cmd, SubsetPhaseView::PerFile { queue, next, acc }),
            evs,
        ) == SubsetStepView::Done(Ok::<Seq<char>, EngineErrorView>(join_fold(acc, outs))),
    decreases evs.len(),
{
    assert(accepted_exit(evs[0], outs[0]));
    let acc2 = join_push_spec(acc, outs[0]);
    let ph = SubsetPhaseView::PerFile { queue, next, acc };
    assert(run_subset_spec(SubsetStepView::Run(cmd, ph), evs) == run_subset_spec(
        subset_next_spec(ph, evs[0]),
        evs.skip(1),
    ));
    match evs[0] {
        ToolEventView::Exited { success, code, stdout, stderr } => {
            assert(status_ok(success, code));
            assert(stdout == outs[0]);
        },
        _ => {
            assert(false);
        },
    }
    if next < queue.len() {
        assert(subset_next_spec(ph, evs[0]) == SubsetStepView::Run(
            untracked_diff_cmd_spec(queue[next]),
            SubsetPhaseView::PerFile { queue, next: next + 1, acc: acc2 },
        ));
        assert forall|i: int| 0 <= i < evs.skip(1).len() implies accepted_exit(
            #[trigger] evs.skip(1)[i],
            outs.skip(1)[i],
        ) by {
            assert(evs.skip(1)[i] == evs[i + 1]);
            assert(outs.skip(1)[i] == outs[i + 1]);
        }
        lemma_per_file_fold(
            untracked_diff_cmd_spec(queue[next]),
            queue,
            next + 1,
            acc2,
            evs.skip(1),
            outs.skip(1),
        );
        assert(join_fold(acc, outs) == join_fold(acc2, outs.skip(1)));
    } else {
        assert(subset_next_spec(ph, evs[0]) == SubsetStepView::Done(
            Ok::<Seq<char>, EngineErrorView>(acc2),
        ));
        assert(evs.len() == 1);
        assert(outs.skip(1) =~= Seq::<Seq<char>>::empty());
        assert(evs.skip(1) =~= Seq::<ToolEventView>::empty());
        assert(join_fold(acc, outs) == acc2);
    }
}

/// Subset ordering, over every accepted run: starting from targets whose
/// tracked set is non-empty, and given one accepted exit per issued command,
/// the finished result is exactly the outputs joined in order — the batched
/// tracked diff first, then the untracked diffs in the order their targets
/// were encountered.
pub proof fn lemma_subset_ordering(
    ts: Seq<DiffTargetView>,
    evs: Seq<ToolEventView>,
    outs: Seq<Seq<char>>,
)
    requires
        ts.len() > 0,
        tracked_paths_spec(ts).len() > 0,
        evs.len() == 1 + untracked_paths_spec(ts).len(),
        outs.len() == evs.len(),
        forall|i: int| 0 <= i < evs.len() ==> accepted_exit(#[trigger] evs[i], outs[i]),
    ensures
        run_subset_spec(subset_begin_spec(ts), evs) == SubsetStepView::Done(
            Ok::<Seq<char>, EngineErrorView>(join_fold(Seq::<char>::empty(), outs)),
        ),
{
    let un = untracked_paths_spec(ts);
    assert(accepted_exit(evs[0], outs[0]));
    let acc = join_push_spec(Seq::<char>::empty(), outs[0]);
    let ph = SubsetPhaseView::Batched { untracked_queue: un };
    assert(subset_begin_spec(ts) == SubsetStepView::Run(
        subset_diff_cmd_spec(tracked_paths_spec(ts)),
        ph,
    ));
    assert(run_subset_spec(subset_begin_spec(ts), evs) == run_subset_spec(
        subset_next_spec(ph, evs[0]),
        evs.skip(1),
    ));
    match evs[0] {
        ToolEventView::Exited { success, code, stdout, stderr } => {
            assert(status_ok(success, code));
            assert(stdout == outs[0]);
        },
        _ => {
            assert(false);
        },
    }
    if un.len() > 0 {
        assert(subset_next_spec(ph, evs[0]) == SubsetStepView::Run(
            untracked_diff_cmd_spec(un[0]),
            SubsetPhaseView::PerFile { queue: un, next: 1, acc },
        ));
        assert forall|i: int| 0 <= i < evs.skip(1).len() implies accepted_exit(
            #[trigger] evs.skip(1)[i],
            outs.skip(1)[i],
        ) by {
            assert(evs.skip(1)[i] == evs[i + 1]);
            assert(outs.skip(1)[i] == outs[i + 1]);
        }
        lemma_per_file_fold(untracked_diff_cmd_spec(un[0]), un, 1, acc, evs.skip(1), outs.skip(1));
        assert(join_fold(Seq::<char>::empty(), outs) == join_fold(acc, outs.skip(1)));
    } else {
        assert(subset_next_spec(ph, evs[0]) == SubsetStepView::Done(
            Ok::<Seq<char>, EngineErrorView>(acc),
        ));
        assert(evs.len() == 1);
        assert(outs.skip(1) =~= Seq::<Seq<char>>::empty());
        assert(evs.skip(1) =~= Seq::<ToolEventView>::empty());
        assert(join_fold(Seq::<char>::empty(), outs) == join_fold(acc, outs.skip(1)));
        assert(join_fold(acc, outs.skip(1)) == acc);
    }
}

/// An empty target list yields exactly the empty result, already final: no
/// command is ever issued for it.
pub proof fn lemma_empty_targets_no_tool()
    ensures
        subset_begin_spec(Seq::<DiffTargetView>::empty()) == SubsetStepView::Done(
            Ok::<Seq<char>, EngineErrorView>(Seq::<char>::empty()),
        ),
{
}

/// Exec form of [`subset_next_spec`].
pub fn subset_next(ph: SubsetPhase, ev: ToolEvent) -> (r: SubsetStep)
    ensures
        r@ == subset_next_spec(ph@, ev@),
{
    match ev {
        ToolEvent::SpawnFailed => SubsetStep::Done(Err(EngineError::ProcessSpawnFailure)),
        ToolEvent::InputFailed => SubsetStep::Done(Err(EngineError::ProcessIOFailure)),
        ToolEvent::WaitFailed => SubsetStep::Done(Err(EngineError::ProcessIOFailure)),
        ToolEvent::Exited { success, code, stdout, stderr } => match ph {
            SubsetPhase::Batched { untracked_queue } => {
                let acc = if exit_status_ok(success, &code) {
                    join_push(String::new(), stdout.as_str())
                } else {
                    String::new()
                };
                if untracked_queue.len() > 0 {
                    let first = untracked_queue[0].clone();
                    SubsetStep::Run(
                        untracked_diff_cmd(first),
                        SubsetPhase::PerFile { queue: untracked_queue, next: 1, acc },
                    )
                } else {
                    SubsetStep::Done(Ok(acc))
                }
            },
            SubsetPhase::PerFile { queue, next, acc } => {
                let acc2 = if exit_status_ok(success, &code) {
                    join_push(acc, stdout.as_str())
                } else {
                    acc
                };
                if next < queue.len() {
                    let f = queue[next].clone();
                    SubsetStep::Run(
                        untracked_diff_cmd(f),
                        SubsetPhase::PerFile { queue, next: next + 1, acc: acc2 },
                    )
                } else {
                    SubsetStep::Done(Ok(acc2))
                }
            },
        },
    }
}

} // verus!
