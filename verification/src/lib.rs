//! Core logic of a manager for interactive coding-assistant sessions.
//!
//! The crate owns the decision logic only: a registry of live sessions keyed
//! by identifier, the rules that turn version-control tool output into diffs
//! and change summaries, and the layered strategy for reverse-applying a
//! patch. Every subprocess is described as a command value handed outward
//! ([`cmd::Cmd`]) and answered by an event value ([`cmd::ToolEvent`]), so
//! the logic itself is verified while the embedding program performs the
//! actual spawning and piping.
//!
//! - [`registry`]: the session registry and its lifecycle decisions;
//! - [`text`]: trimming, splitting and the blank-text rules everything
//!   else builds on;
//! - [`cmd`]: commands, events, fixed argument vectors, tagged errors;
//! - [`diff_flow`]: the full worktree diff as a stepwise machine;
//! - [`subset`]: the diff of an explicit target subset;
//! - [`summary`]: the name-and-status parse and the change summary;
//! - [`revert`]: the two-tier reverse application of a diff.

pub mod registry;
pub mod text;
pub mod cmd;
pub mod revert;
pub mod summary;
pub mod diff_flow;
pub mod subset;
