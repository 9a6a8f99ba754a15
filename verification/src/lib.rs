//! Verified decision logic for landing and cleaning up git worktrees.
//!
//! Nothing here runs a command, reads a file or asks a user. Each task is a run
//! that stands before one thing to be asked for. The caller does what is asked
//! for and hands the answer back, and the run goes on or is over. What a run
//! asks for, and what an answer leads to, is stated in full; what holds of
//! whole runs is stated and proved in the modules of laws.
//!
//! - Landing a branch: [`merge`], its plan in [`merge_options`], its report in
//!   [`merge_report`], its course in [`merge_course`], its laws in [`merge_laws`].
//! - Landing through the remote: [`guard`], [`remote_state`], [`reconcile`] with
//!   [`reconcile_course`] and [`reconcile_laws`], [`pull_request`], [`summary`].
//! - Cleaning up: [`clean`], [`survey`], [`clean_plan`] with [`plan_laws`],
//!   [`cleanup`] with [`clean_laws`], [`clean_report`].
//! - What they share: [`answer`], [`command`], [`fault`], [`json`], [`removal`],
//!   [`text`].

pub mod answer;
pub mod clean;
pub mod clean_laws;
pub mod clean_plan;
pub mod clean_report;
pub mod cleanup;
pub mod command;
pub mod fault;
pub mod guard;
pub mod json;
pub mod merge;
pub mod merge_action;
pub mod merge_course;
pub mod merge_end;
pub mod merge_laws;
pub mod merge_options;
pub mod merge_report;
pub mod plan_laws;
pub mod pull_request;
pub mod reconcile;
pub mod reconcile_course;
pub mod reconcile_laws;
pub mod remote_state;
pub mod removal;
pub mod summary;
pub mod survey;
pub mod text;
