//! What a merge asks for.

use vstd::prelude::*;
use crate::command::{Command, CommandView};
use crate::merge_options::{HookType, StageMode};
use crate::reconcile::RemoteDivergenceStrategy;
use crate::removal::BranchDeletionMode;
use crate::text::optional;

verus! {

/// Where the user ends up after the merge.
#[derive(Debug, Clone, Copy, PartialEq, Eq, Structural)]
pub enum Destination {
    /// The worktree of the target branch.
    TargetWorktree,
    /// The home worktree, where the target branch has none.
    Home,
}

/// What a merge asks for.
#[derive(Debug, PartialEq, Eq)]
pub enum MergeAction {
    /// Say whether there are uncommitted changes.
    IsDirty,
    /// Name the target branch: the one asked for, or the default.
    RequireTarget { target: Option<String> },
    /// Name the worktree of a branch, if it has one.
    WorktreeFor { branch: String },
    /// Say whether the project has a configuration.
    LoadProjectConfig,
    /// Have the commands of these hooks approved; `yes` approves them all.
    Approve { hooks: Vec<HookType>, yes: bool },
    /// Commit what there is.
    Commit {
        target_branch: String,
        verify: bool,
        stage: StageMode,
        warn_about_untracked: bool,
        show_no_squash_note: bool,
    },
    /// Make sure that the remote branch holds every local commit.
    EnsurePrBranch { branch: String, dirty: bool },
    /// Squash the branch; say whether there was something to squash.
    Squash { target_branch: String, yes: bool, verify: bool, stage: StageMode, no_fetch: bool },
    /// Rebase onto the target; say whether that moved anything.
    Rebase { target_branch: String },
    /// Say whether the branch is on top of the target.
    IsRebasedOnto { target_branch: String },
    /// Run the pre-merge hooks with these variables; the first failure counts.
    RunPreMergeHooks { variables: Vec<(String, String)> },
    /// Reconcile with the remote and land there.
    Reconcile {
        branch: String,
        target_branch: String,
        strategy: RemoteDivergenceStrategy,
        auto_open_pr_if_missing: bool,
        draft: bool,
    },
    /// Tell the user where the target is now, and by which PR.
    Summarize { target_branch: String, pr_number: u32 },
    /// Run a command in the target's worktree.
    ResyncTarget { command: Command },
    /// Merge into the local target branch, as a fast-forward or with a merge
    /// commit.
    MergeLocally {
        ff: bool,
        target_branch: String,
        branch: String,
        committed: bool,
        squashed: bool,
        rebased: bool,
    },
    /// Find the home worktree.
    FindHome,
    /// Name the commit at HEAD.
    ReadCommit,
    /// Say whether this is the primary worktree.
    IsPrimaryWorktree,
    /// Refuse the default branch.
    CheckNotDefaultBranch { branch: String, mode: BranchDeletionMode },
    /// Refuse uncommitted changes, naming what they stand in the way of.
    EnsureClean { action: String, branch: String, force_hint: bool },
    /// Remove the worktree and its branch.
    RemoveWorktree {
        destination: Destination,
        branch: String,
        mode: BranchDeletionMode,
        force_worktree: bool,
        target_branch: String,
        commit: Option<String>,
        verify: bool,
    },
    /// Run the post-merge hooks at the destination with these variables.
    RunPostMergeHooks {
        destination: Destination,
        removed: bool,
        variables: Vec<(String, String)>,
    },
}

/// The content of a [`MergeAction`].
#[verifier::ext_equal]
pub enum MergeActionView {
    IsDirty,
    RequireTarget { target: Option<Seq<char>> },
    WorktreeFor { branch: Seq<char> },
    LoadProjectConfig,
    Approve { hooks: Seq<HookType>, yes: bool },
    Commit {
        target_branch: Seq<char>,
        verify: bool,
        stage: StageMode,
        warn_about_untracked: bool,
        show_no_squash_note: bool,
    },
    EnsurePrBranch { branch: Seq<char>, dirty: bool },
    Squash { target_branch: Seq<char>, yes: bool, verify: bool, stage: StageMode, no_fetch: bool },
    Rebase { target_branch: Seq<char> },
    IsRebasedOnto { target_branch: Seq<char> },
    RunPreMergeHooks { variables: Seq<(Seq<char>, Seq<char>)> },
    Reconcile {
        branch: Seq<char>,
        target_branch: Seq<char>,
        strategy: RemoteDivergenceStrategy,
        auto_open_pr_if_missing: bool,
        draft: bool,
    },
    Summarize { target_branch: Seq<char>, pr_number: u32 },
    ResyncTarget { command: CommandView },
    MergeLocally {
        ff: bool,
        target_branch: Seq<char>,
        branch: Seq<char>,
        committed: bool,
        squashed: bool,
        rebased: bool,
    },
    FindHome,
    ReadCommit,
    IsPrimaryWorktree,
    CheckNotDefaultBranch { branch: Seq<char>, mode: BranchDeletionMode },
    EnsureClean { action: Seq<char>, branch: Seq<char>, force_hint: bool },
    RemoveWorktree {
        destination: Destination,
        branch: Seq<char>,
        mode: BranchDeletionMode,
        force_worktree: bool,
        target_branch: Seq<char>,
        commit: Option<Seq<char>>,
        verify: bool,
    },
    RunPostMergeHooks {
        destination: Destination,
        removed: bool,
        variables: Seq<(Seq<char>, Seq<char>)>,
    },
}

/// The content of a list of template variables.
pub open spec fn variable_views(v: Seq<(String, String)>) -> Seq<(Seq<char>, Seq<char>)> {
    v.map_values(|p: (String, String)| (p.0@, p.1@))
}

impl View for MergeAction {
    type V = MergeActionView;

    open spec fn view(&self) -> MergeActionView {
        match self {
            MergeAction::IsDirty => MergeActionView::IsDirty,
            MergeAction::RequireTarget { target } => MergeActionView::RequireTarget {
                target: optional(*target),
            },
            MergeAction::WorktreeFor { branch } => MergeActionView::WorktreeFor {
                branch: branch@,
            },
            MergeAction::LoadProjectConfig => MergeActionView::LoadProjectConfig,
            MergeAction::Approve { hooks, yes } => MergeActionView::Approve {
                hooks: hooks@,
                yes: *yes,
            },
            MergeAction::Commit {
                target_branch,
                verify,
                stage,
                warn_about_untracked,
                show_no_squash_note,
            } => MergeActionView::Commit {
                target_branch: target_branch@,
                verify: *verify,
                stage: *stage,
                warn_about_untracked: *warn_about_untracked,
                show_no_squash_note: *show_no_squash_note,
            },
            MergeAction::EnsurePrBranch { branch, dirty } => MergeActionView::EnsurePrBranch {
                branch: branch@,
                dirty: *dirty,
            },
            MergeAction::Squash { target_branch, yes, verify, stage, no_fetch } => {
                MergeActionView::Squash {
                    target_branch: target_branch@,
                    yes: *yes,
                    verify: *verify,
                    stage: *stage,
                    no_fetch: *no_fetch,
                }
            },
            MergeAction::Rebase { target_branch } => MergeActionView::Rebase {
                target_branch: target_branch@,
            },
            MergeAction::IsRebasedOnto { target_branch } => MergeActionView::IsRebasedOnto {
                target_branch: target_branch@,
            },
            MergeAction::RunPreMergeHooks { variables } => MergeActionView::RunPreMergeHooks {
                variables: variable_views(variables@),
            },
            MergeAction::Reconcile {
                branch,
                target_branch,
                strategy,
                auto_open_pr_if_missing,
                draft,
            } => MergeActionView::Reconcile {
                branch: branch@,
                target_branch: target_branch@,
                strategy: *strategy,
                auto_open_pr_if_missing: *auto_open_pr_if_missing,
                draft: *draft,
            },
            MergeAction::Summarize { target_branch, pr_number } => MergeActionView::Summarize {
                target_branch: target_branch@,
                pr_number: *pr_number,
            },
            MergeAction::ResyncTarget { command } => MergeActionView::ResyncTarget {
                command: command@,
            },
            MergeAction::MergeLocally {
                ff,
                target_branch,
                branch,
                committed,
                squashed,
                rebased,
            } => MergeActionView::MergeLocally {
                ff: *ff,
                target_branch: target_branch@,
                branch: branch@,
                committed: *committed,
                squashed: *squashed,
                rebased: *rebased,
            },
            MergeAction::FindHome => MergeActionView::FindHome,
            MergeAction::ReadCommit => MergeActionView::ReadCommit,
            MergeAction::IsPrimaryWorktree => MergeActionView::IsPrimaryWorktree,
            MergeAction::CheckNotDefaultBranch { branch, mode } => {
                MergeActionView::CheckNotDefaultBranch { branch: branch@, mode: *mode }
            },
            MergeAction::EnsureClean { action, branch, force_hint } => {
                MergeActionView::EnsureClean {
                    action: action@,
                    branch: branch@,
                    force_hint: *force_hint,
                }
            },
            MergeAction::RemoveWorktree {
                destination,
                branch,
                mode,
                force_worktree,
                target_branch,
                commit,
                verify,
            } => MergeActionView::RemoveWorktree {
                destination: *destination,
                branch: branch@,
                mode: *mode,
                force_worktree: *force_worktree,
                target_branch: target_branch@,
                commit: optional(*commit),
                verify: *verify,
            },
            MergeAction::RunPostMergeHooks { destination, removed, variables } => {
                MergeActionView::RunPostMergeHooks {
                    destination: *destination,
                    removed: *removed,
                    variables: variable_views(variables@),
                }
            },
        }
    }
}

} // verus!
