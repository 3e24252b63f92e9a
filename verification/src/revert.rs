//! Reverse-applying a unified diff, as a stepwise decision machine.
//!
//! The embedding program asks [`revert_begin`] what to do with a diff text,
//! runs the command a `Run` step names (feeding its `stdin_text` whole, then
//! closing standard input, before waiting), and hands the resulting
//! [`ToolEvent`] to [`revert_next`] with the phase the step carried, until a
//! `Done` step ends the operation. The layered strategy — primary tool, then
//! a more permissive fallback, then a combined failure — lives entirely in
//! the transition functions, so it is verified for every event sequence.

use vstd::prelude::*;
use crate::cmd::{
    Cmd,
    CmdView,
    EngineError,
    EngineErrorView,
    ToolEvent,
    ToolEventView,
    git_apply_cmd,
    git_apply_cmd_spec,
    patch_apply_cmd,
    patch_apply_cmd_spec,
};
use crate::text::{trim_spec, trim_str};

verus! {

/// Where the revert stands while a subprocess runs.
pub enum RevertPhase {
    /// The primary reverse-apply tool is running; the trimmed diff is kept
    /// for the fallback.
    Primary { diff: String },
    /// The secondary tool is running; the primary tool's trimmed error
    /// output is kept for the combined failure report.
    Secondary { primary_error: String },
}

/// Mathematical image of a [`RevertPhase`].
pub enum RevertPhaseView {
    Primary { diff: Seq<char> },
    Secondary { primary_error: Seq<char> },
}

impl View for RevertPhase {
    type V = RevertPhaseView;

    open spec fn view(&self) -> RevertPhaseView {
        match self {
            RevertPhase::Primary { diff } => RevertPhaseView::Primary { diff: diff@ },
            RevertPhase::Secondary { primary_error } => RevertPhaseView::Secondary {
                primary_error: primary_error@,
            },
        }
    }
}

/// One step of the revert: either a command to run and the phase to resume
/// with, or the finished outcome.
pub enum RevertStep {
    Run(Cmd, RevertPhase),
    Done(Result<(), EngineError>),
}

/// Mathematical image of a [`RevertStep`].
pub enum RevertStepView {
    Run(CmdView, RevertPhaseView),
    Done(Result<(), EngineErrorView>),
}

impl View for RevertStep {
    type V = RevertStepView;

    open spec fn view(&self) -> RevertStepView {
        match self {
            RevertStep::Run(c, p) => RevertStepView::Run(c@, p@),
            RevertStep::Done(Ok(())) => RevertStepView::Done(Ok(())),
            RevertStep::Done(Err(e)) => RevertStepView::Done(Err(e@)),
        }
    }
}

/// The first step: an empty or whitespace-only diff succeeds at once with no
/// tool invocation; anything else goes to the primary tool, trimmed, on its
/// standard input.
pub open spec fn revert_begin_spec(diff: Seq<char>) -> RevertStepView {
    if trim_spec(diff).len() == 0 {
        RevertStepView::Done(Ok(()))
    } else {
        RevertStepView::Run(
            git_apply_cmd_spec(trim_spec(diff)),
            RevertPhaseView::Primary { diff: trim_spec(diff) },
        )
    }
}

/// Every later step. Exit zero of either tool ends the revert successfully;
/// a primary failure captures its error output and tries the secondary tool
/// on the same diff; a secondary failure ends with both diagnostics.
pub open spec fn revert_next_spec(ph: RevertPhaseView, ev: ToolEventView) -> RevertStepView {
    match ev {
        ToolEventView::SpawnFailed => RevertStepView::Done(
            Err(EngineErrorView::ProcessSpawnFailure),
        ),
        ToolEventView::InputFailed => RevertStepView::Done(Err(EngineErrorView::ProcessIOFailure)),
        ToolEventView::WaitFailed => RevertStepView::Done(Err(EngineErrorView::ProcessIOFailure)),
        ToolEventView::Exited { success, code, stdout, stderr } => {
            if success {
                RevertStepView::Done(Ok(()))
            } else {
                match ph {
                    RevertPhaseView::Primary { diff } => RevertStepView::Run(
                        patch_apply_cmd_spec(diff),
                        RevertPhaseView::Secondary { primary_error: trim_spec(stderr) },
                    ),
                    RevertPhaseView::Secondary { primary_error } => RevertStepView::Done(
                        Err(
                            EngineErrorView::PatchApplicationFailure {
                                primary_error,
                                secondary_error: trim_spec(stderr),
                            },
                        ),
                    ),
                }
            }
        },
    }
}

/// Exec form of [`revert_begin_spec`].
pub fn revert_begin(diff_patch: &str) -> (r: RevertStep)
    ensures
        r@ == revert_begin_spec(diff_patch@),
{
    let diff = trim_str(diff_patch);
    if diff.as_str().is_empty() {
        RevertStep::Done(Ok(()))
    } else {
        let kept = diff.clone();
        RevertStep::Run(git_apply_cmd(diff), RevertPhase::Primary { diff: kept })
    }
}

/// Exec form of [`revert_next_spec`].
pub fn revert_next(ph: RevertPhase, ev: ToolEvent) -> (r: RevertStep)
    ensures
        r@ == revert_next_spec(ph@, ev@),
{
    match ev {
        ToolEvent::SpawnFailed => RevertStep::Done(Err(EngineError::ProcessSpawnFailure)),
        ToolEvent::InputFailed => RevertStep::Done(Err(EngineError::ProcessIOFailure)),
        ToolEvent::WaitFailed => RevertStep::Done(Err(EngineError::ProcessIOFailure)),
        ToolEvent::Exited { success, code, stdout, stderr } => {
            if success {
                RevertStep::Done(Ok(()))
            } else {
                match ph {
                    RevertPhase::Primary { diff } => {
                        let primary_error = trim_str(stderr.as_str());
                        RevertStep::Run(
                            patch_apply_cmd(diff),
                            RevertPhase::Secondary { primary_error },
                        )
                    },
                    RevertPhase::Secondary { primary_error } => {
                        let secondary_error = trim_str(stderr.as_str());
                        RevertStep::Done(
                            Err(
                                EngineError::PatchApplicationFailure {
                                    primary_error,
                                    secondary_error,
                                },
                            ),
                        )
                    },
                }
            }
        },
    }
}

/// An empty or whitespace-only diff always succeeds immediately: the first
/// step is already `Done(Ok)`, so no external tool is ever invoked.
pub proof fn lemma_empty_diff_no_op(diff: Seq<char>)
    requires
        trim_spec(diff).len() == 0,
    ensures
        revert_begin_spec(diff) == RevertStepView::Done(Ok::<(), EngineErrorView>(())),
{
}

/// Fallback precedence. When the primary tool exits successfully the step is
/// final, so the secondary tool is never invoked; when the primary fails and
/// the secondary succeeds the revert succeeds; when both fail the outcome
/// carries both tools' trimmed diagnostics.
pub proof fn lemma_fallback_precedence(
    diff: Seq<char>,
    code1: Option<i32>,
    out1: Seq<char>,
    err1: Seq<char>,
    code2: Option<i32>,
    out2: Seq<char>,
    err2: Seq<char>,
)
    ensures
        revert_next_spec(
            RevertPhaseView::Primary { diff },
            ToolEventView::Exited { success: true, code: code1, stdout: out1, stderr: err1 },
        ) == RevertStepView::Done(Ok::<(), EngineErrorView>(())),
        revert_next_spec(
            RevertPhaseView::Primary { diff },
            ToolEventView::Exited { success: false, code: code1, stdout: out1, stderr: err1 },
        ) == RevertStepView::Run(
            patch_apply_cmd_spec(diff),
            RevertPhaseView::Secondary { primary_error: trim_spec(err1) },
        ),
        revert_next_spec(
            RevertPhaseView::Secondary { primary_error: trim_spec(err1) },
            ToolEventView::Exited { success: true, code: code2, stdout: out2, stderr: err2 },
        ) == RevertStepView::Done(Ok::<(), EngineErrorView>(())),
        revert_next_spec(
            RevertPhaseView::Secondary { primary_error: trim_spec(err1) },
            ToolEventView::Exited { success: false, code: code2, stdout: out2, stderr: err2 },
        ) == RevertStepView::Done(
            Err(
                EngineErrorView::PatchApplicationFailure {
                    primary_error: trim_spec(err1),
                    secondary_error: trim_spec(err2),
                },
            ),
        ),
{
}

} // verus!
