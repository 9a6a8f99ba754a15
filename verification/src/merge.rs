//! Merging the current branch into its target.
//!
//! A [`MergeRun`] stands before something that the repository or the user has
//! to be asked for. The answer leads to the next such thing or ends the merge.
//! The order is: check the tree, find the target, have the project's commands
//! approved, commit, secure the remote branch, squash, rebase, run the
//! pre-merge hooks, land, clean up, run the post-merge hooks. The pre-merge
//! hooks come before the landing, which cannot be undone.

use vstd::prelude::*;
use crate::answer::{Answer, AnswerView};
use crate::command::{CommandView, git, git_command};
use crate::merge_action::{Destination, MergeAction, MergeActionView, variable_views};
use crate::merge_end::{
    EndView, MergeEnd, MergeError, MergeErrorView, MergeReport, Note, ReportView,
};
use crate::merge_options::{
    HookType, MergeOptions, MergePlan, MergeSettings, StageMode, collect_merge_commands, hooks_of,
    plan_of, resolve,
};
use crate::reconcile::{OutcomeView, ReconcileOutcome, squash_pr_number};
use crate::removal::BranchDeletionMode;
use crate::text::{
    can_shorten, copied, optional, short_commit, shortened, shortens, trim, trimmed,
};

verus! {

/// What has happened so far.
#[derive(Debug, Clone, Copy, PartialEq, Eq, Structural)]
pub struct Progress {
    /// Whether hooks run: they were asked for, and not declined.
    pub verify: bool,
    pub committed: bool,
    pub squashed: bool,
    pub rebased: bool,
    pub removed: bool,
}

/// What a [`MergeRun`] stands before.
#[derive(Debug, Clone, Copy, PartialEq, Eq, Structural)]
pub enum MergePhase {
    /// Without a commit the tree must be clean.
    CheckClean,
    /// Find the target branch and check that it is one.
    RequireTarget,
    /// Find the worktree of the target branch, if it has one.
    FindWorktree,
    /// Load the project's configuration, if it has one.
    LoadConfig,
    /// See whether a commit will be created.
    CheckDirtyForHooks,
    /// Have the project's commands approved. Whether there are changes is not
    /// known where the project has no configuration.
    Approve { changes: Option<bool> },
    /// See whether there is something to commit.
    CheckDirtyForCommit,
    /// Commit it.
    Commit,
    /// See whether there are changes that would not reach the remote.
    CheckDirtyForGuard,
    /// Bring the remote branch up to local HEAD, or refuse.
    Guard { dirty: bool },
    /// Squash the commits of the branch.
    Squash,
    /// Rebase onto the target.
    Rebase,
    /// Without a rebase the branch must be on top of the target already.
    CheckRebased,
    /// Run the pre-merge hooks.
    PreMerge,
    /// Land through the remote.
    Reconcile,
    /// Tell the user what the target is now.
    Summarize { pr_number: u32 },
    /// Bring the target's worktree up to its branch.
    Resync,
    /// Merge into the local target branch.
    MergeLocally,
    /// Find the home worktree, in place of the target's.
    FindHome,
    /// Read the commit of the branch.
    ReadCommit,
    /// See whether this is the primary worktree.
    CheckPrimary,
    /// The default branch is not removed.
    CheckNotDefault,
    /// A worktree with changes is not removed.
    EnsureClean,
    /// Remove the worktree.
    Remove,
    /// Run the post-merge hooks.
    PostMerge,
}

/// A merge under way.
#[derive(Debug, Clone, PartialEq, Eq)]
pub struct MergeRun {
    plan: MergePlan,
    progress: Progress,
    /// The branch being merged.
    current_branch: String,
    /// The target that was asked for, if one was.
    requested_target: Option<String>,
    /// The target branch, once it is found.
    target_branch: String,
    /// Where the target branch is checked out, once that is found.
    target_worktree: Option<String>,
    /// Where the branch being merged is checked out.
    worktree_path: String,
    /// The name of that directory.
    worktree_name: String,
    /// The commit of the branch, once it is read.
    commit: Option<String>,
    phase: MergePhase,
}

/// The content of a [`MergeRun`].
#[verifier::ext_equal]
pub struct MergeView {
    pub plan: MergePlan,
    pub progress: Progress,
    pub current_branch: Seq<char>,
    pub requested_target: Option<Seq<char>>,
    pub target_branch: Seq<char>,
    pub target_worktree: Option<Seq<char>>,
    pub worktree_path: Seq<char>,
    pub worktree_name: Seq<char>,
    pub commit: Option<Seq<char>>,
    pub phase: MergePhase,
}

impl View for MergeRun {
    type V = MergeView;

    closed spec fn view(&self) -> MergeView {
        MergeView {
            plan: self.plan,
            progress: self.progress,
            current_branch: self.current_branch@,
            requested_target: optional(self.requested_target),
            target_branch: self.target_branch@,
            target_worktree: optional(self.target_worktree),
            worktree_path: self.worktree_path@,
            worktree_name: self.worktree_name@,
            commit: optional(self.commit),
            phase: self.phase,
        }
    }
}

/// What an answer leads to: something to tell the user, if anything, and the
/// way on.
#[derive(Debug, PartialEq, Eq)]
pub struct MergeStep {
    pub note: Option<Note>,
    pub to: MergeWay,
}

/// The way on.
#[derive(Debug, PartialEq, Eq)]
pub enum MergeWay {
    /// There is more to ask for.
    Next(MergeRun),
    /// The merge is over.
    Done(Result<MergeEnd, MergeError>),
}

/// The content of a [`MergeStep`].
#[verifier::ext_equal]
pub struct MergeStepView {
    pub note: Option<Note>,
    pub to: MergeWayView,
}

/// The content of a [`MergeWay`].
#[verifier::ext_equal]
pub enum MergeWayView {
    Next(MergeView),
    Done(Result<EndView, MergeErrorView>),
}

impl View for MergeWay {
    type V = MergeWayView;

    open spec fn view(&self) -> MergeWayView {
        match self {
            MergeWay::Next(run) => MergeWayView::Next(run@),
            MergeWay::Done(Ok(end)) => MergeWayView::Done(Ok(end@)),
            MergeWay::Done(Err(error)) => MergeWayView::Done(Err(error@)),
        }
    }
}

impl View for MergeStep {
    type V = MergeStepView;

    open spec fn view(&self) -> MergeStepView {
        MergeStepView { note: self.note, to: self.to@ }
    }
}

/// The name that an answer tells: its text, without white space around it.
pub open spec fn named(answer: AnswerView) -> Option<Seq<char>> {
    match answer.text() {
        Some(text) => Some(trimmed(text)),
        None => None,
    }
}

/// The command that carries index and files of a worktree from what its branch
/// was to what it is now. The branch was moved without touching them. Changes of
/// the user's own are kept, or the command refuses.
pub open spec fn resync_command(target_branch: Seq<char>) -> CommandView {
    git(
        seq![
            "read-tree"@,
            "-m"@,
            "-u"@,
            "refs/heads/"@ + target_branch + "@{1}"@,
            "refs/heads/"@ + target_branch,
        ],
    )
}

/// The template variables of the pre-merge hooks.
pub open spec fn target_variables(
    target_branch: Seq<char>,
    target_worktree: Option<Seq<char>>,
) -> Seq<(Seq<char>, Seq<char>)> {
    match target_worktree {
        Some(path) => seq![("target"@, target_branch), ("target_worktree_path"@, path)],
        None => seq![("target"@, target_branch)],
    }
}

/// The template variables that tell of a commit, where it is known.
pub open spec fn commit_variables(commit: Option<Seq<char>>) -> Seq<(Seq<char>, Seq<char>)> {
    match commit {
        None => Seq::empty(),
        Some(id) => match shortened(id) {
            None => seq![("commit"@, id)],
            Some(short) => seq![("commit"@, id), ("short_commit"@, short)],
        },
    }
}

impl MergePlan {
    /// What comes after approval: the commit, if there is to be one.
    pub open spec fn committing(self) -> MergePhase {
        if self.commit {
            MergePhase::CheckDirtyForCommit
        } else {
            self.guarding()
        }
    }

    /// What comes after the commit: the guard, if the remote is involved.
    pub open spec fn guarding(self) -> MergePhase {
        if self.push_to_origin {
            MergePhase::CheckDirtyForGuard
        } else {
            self.squashing()
        }
    }

    /// What comes after the guard: the squash, if there is to be one.
    pub open spec fn squashing(self) -> MergePhase {
        if self.squash {
            MergePhase::Squash
        } else {
            self.rebasing()
        }
    }

    /// What comes after the squash: the rebase, or the check that it was done.
    pub open spec fn rebasing(self) -> MergePhase {
        if self.rebase {
            MergePhase::Rebase
        } else {
            MergePhase::CheckRebased
        }
    }

    /// What comes after the rebase: the pre-merge hooks, if hooks run.
    pub open spec fn gating(self, verify: bool) -> MergePhase {
        if verify {
            MergePhase::PreMerge
        } else {
            self.landing()
        }
    }

    /// What comes after the pre-merge hooks: the landing, on the remote or
    /// locally.
    pub open spec fn landing(self) -> MergePhase {
        if self.push_to_origin {
            MergePhase::Reconcile
        } else {
            MergePhase::MergeLocally
        }
    }
}

impl MergeView {
    /// Whether the branch being merged is the target itself.
    pub open spec fn on_target(self) -> bool {
        self.current_branch == self.target_branch
    }

    /// Where the user ends up.
    pub open spec fn destination(self) -> Destination {
        if self.target_worktree is Some {
            Destination::TargetWorktree
        } else {
            Destination::Home
        }
    }

    /// The hooks to have approved.
    pub open spec fn hooks(self, changes: Option<bool>) -> Seq<HookType> {
        match changes {
            None => Seq::empty(),
            Some(dirty) => hooks_of(
                self.plan.commit,
                self.plan.verify,
                self.plan.remove && !self.on_target(),
                dirty || self.plan.squash,
            ),
        }
    }

    /// The template variables of the post-merge hooks: those of the target, and
    /// the identity of the branch that was merged.
    pub open spec fn post_variables(self) -> Seq<(Seq<char>, Seq<char>)> {
        target_variables(self.target_branch, self.target_worktree) + seq![
            ("worktree_path"@, self.worktree_path),
            ("worktree"@, self.worktree_path),
            ("worktree_name"@, self.worktree_name),
        ] + commit_variables(self.commit)
    }

    /// What the merge asks for.
    pub open spec fn action(self) -> MergeActionView {
        match self.phase {
            MergePhase::CheckClean => MergeActionView::IsDirty,
            MergePhase::RequireTarget => MergeActionView::RequireTarget {
                target: self.requested_target,
            },
            MergePhase::FindWorktree => MergeActionView::WorktreeFor {
                branch: self.target_branch,
            },
            MergePhase::LoadConfig => MergeActionView::LoadProjectConfig,
            MergePhase::CheckDirtyForHooks => MergeActionView::IsDirty,
            MergePhase::Approve { changes } => MergeActionView::Approve {
                hooks: self.hooks(changes),
                yes: self.plan.yes,
            },
            MergePhase::CheckDirtyForCommit => MergeActionView::IsDirty,
            MergePhase::Commit => MergeActionView::Commit {
                target_branch: self.target_branch,
                verify: self.progress.verify,
                stage: self.plan.stage,
                warn_about_untracked: self.plan.stage == StageMode::All,
                show_no_squash_note: true,
            },
            MergePhase::CheckDirtyForGuard => MergeActionView::IsDirty,
            MergePhase::Guard { dirty } => MergeActionView::EnsurePrBranch {
                branch: self.current_branch,
                dirty,
            },
            MergePhase::Squash => MergeActionView::Squash {
                target_branch: self.target_branch,
                yes: self.plan.yes,
                verify: self.progress.verify,
                stage: self.plan.stage,
                no_fetch: self.plan.no_fetch,
            },
            MergePhase::Rebase => MergeActionView::Rebase { target_branch: self.target_branch },
            MergePhase::CheckRebased => MergeActionView::IsRebasedOnto {
                target_branch: self.target_branch,
            },
            MergePhase::PreMerge => MergeActionView::RunPreMergeHooks {
                variables: target_variables(self.target_branch, self.target_worktree),
            },
            MergePhase::Reconcile => MergeActionView::Reconcile {
                branch: self.current_branch,
                target_branch: self.target_branch,
                strategy: self.plan.on_diverged_remote,
                auto_open_pr_if_missing: self.plan.auto_open_pr_if_missing,
                draft: self.plan.draft,
            },
            MergePhase::Summarize { pr_number } => MergeActionView::Summarize {
                target_branch: self.target_branch,
                pr_number,
            },
            MergePhase::Resync => MergeActionView::ResyncTarget {
                command: resync_command(self.target_branch),
            },
            MergePhase::MergeLocally => MergeActionView::MergeLocally {
                ff: self.plan.ff,
                target_branch: self.target_branch,
                branch: self.current_branch,
                committed: self.progress.committed,
                squashed: self.progress.squashed,
                rebased: self.progress.rebased,
            },
            MergePhase::FindHome => MergeActionView::FindHome,
            MergePhase::ReadCommit => MergeActionView::ReadCommit,
            MergePhase::CheckPrimary => MergeActionView::IsPrimaryWorktree,
            MergePhase::CheckNotDefault => MergeActionView::CheckNotDefaultBranch {
                branch: self.current_branch,
                mode: BranchDeletionMode::SafeDelete,
            },
            MergePhase::EnsureClean => MergeActionView::EnsureClean {
                action: "remove worktree after merge"@,
                branch: self.current_branch,
                force_hint: false,
            },
            MergePhase::Remove => MergeActionView::RemoveWorktree {
                destination: self.destination(),
                branch: self.current_branch,
                mode: BranchDeletionMode::SafeDelete,
                force_worktree: false,
                target_branch: self.target_branch,
                commit: self.commit,
                verify: self.progress.verify,
            },
            MergePhase::PostMerge => MergeActionView::RunPostMergeHooks {
                destination: self.destination(),
                removed: self.progress.removed,
                variables: self.post_variables(),
            },
        }
    }

    /// Whether an answer is one to what the merge asks for. Everything may
    /// fail.
    pub open spec fn expects(self, answer: AnswerView) -> bool {
        answer is Failed || match self.phase {
            MergePhase::RequireTarget => answer is Text,
            MergePhase::FindWorktree => answer is Text || answer is No,
            MergePhase::ReadCommit => answer is Text && shortens(trimmed(answer->Text_0)),
            MergePhase::Reconcile => answer is Reconciled,
            MergePhase::CheckClean => answer is Yes || answer is No,
            MergePhase::LoadConfig => answer is Yes || answer is No,
            MergePhase::CheckDirtyForHooks => answer is Yes || answer is No,
            MergePhase::Approve { .. } => answer is Yes || answer is No,
            MergePhase::CheckDirtyForCommit => answer is Yes || answer is No,
            MergePhase::CheckDirtyForGuard => answer is Yes || answer is No,
            MergePhase::Squash => answer is Yes || answer is No,
            MergePhase::Rebase => answer is Yes || answer is No,
            MergePhase::CheckRebased => answer is Yes || answer is No,
            MergePhase::CheckPrimary => answer is Yes || answer is No,
            _ => answer is Yes,
        }
    }

    /// What comes after the summary: the target's worktree, if there is one.
    pub open spec fn resyncing(self) -> MergePhase {
        if self.target_worktree is Some {
            MergePhase::Resync
        } else {
            self.arriving()
        }
    }

    /// What comes after the landing: the destination.
    pub open spec fn arriving(self) -> MergePhase {
        if self.target_worktree is Some {
            MergePhase::ReadCommit
        } else {
            MergePhase::FindHome
        }
    }

    /// What comes after that: the removal of the worktree, unless it stays.
    pub open spec fn removing(self) -> Option<MergePhase> {
        if self.plan.remove && !self.on_target() {
            Some(MergePhase::CheckPrimary)
        } else {
            self.finishing()
        }
    }

    /// What comes last: the post-merge hooks, if hooks run.
    pub open spec fn finishing(self) -> Option<MergePhase> {
        if self.progress.verify {
            Some(MergePhase::PostMerge)
        } else {
            None
        }
    }

    /// Whether the merge goes on after a failure: once the branch has landed,
    /// what is only shown or tidied up cannot fail the merge.
    pub open spec fn tolerates(self) -> bool {
        self.phase is Summarize || self.phase is Resync || self.phase is ReadCommit
    }

    /// What the merge stands before next. There is nothing at its end.
    pub open spec fn next(self, answer: AnswerView) -> Option<MergePhase> {
        if answer is Failed && !self.tolerates() {
            None
        } else {
            match self.phase {
                MergePhase::CheckClean => if answer.holds() {
                    None
                } else {
                    Some(MergePhase::RequireTarget)
                },
                MergePhase::RequireTarget => Some(MergePhase::FindWorktree),
                MergePhase::FindWorktree => Some(MergePhase::LoadConfig),
                MergePhase::LoadConfig => if answer.holds() {
                    Some(MergePhase::CheckDirtyForHooks)
                } else {
                    Some(MergePhase::Approve { changes: None })
                },
                MergePhase::CheckDirtyForHooks => Some(
                    MergePhase::Approve { changes: Some(answer.holds()) },
                ),
                MergePhase::Approve { .. } => Some(self.plan.committing()),
                MergePhase::CheckDirtyForCommit => if answer.holds() && !self.plan.squash {
                    Some(MergePhase::Commit)
                } else {
                    Some(self.plan.guarding())
                },
                MergePhase::Commit => Some(self.plan.guarding()),
                MergePhase::CheckDirtyForGuard => Some(
                    MergePhase::Guard { dirty: answer.holds() },
                ),
                MergePhase::Guard { .. } => Some(self.plan.squashing()),
                MergePhase::Squash => Some(self.plan.rebasing()),
                MergePhase::Rebase => Some(self.plan.gating(self.progress.verify)),
                MergePhase::CheckRebased => if answer.holds() {
                    Some(self.plan.gating(self.progress.verify))
                } else {
                    None
                },
                MergePhase::PreMerge => Some(self.plan.landing()),
                MergePhase::Reconcile => match answer->Reconciled_0.merged_pr() {
                    Some(pr_number) => Some(MergePhase::Summarize { pr_number }),
                    None => None,
                },
                MergePhase::Summarize { .. } => Some(self.resyncing()),
                MergePhase::Resync => Some(self.arriving()),
                MergePhase::MergeLocally => Some(self.arriving()),
                MergePhase::FindHome => Some(MergePhase::ReadCommit),
                MergePhase::ReadCommit => self.removing(),
                MergePhase::CheckPrimary => if answer.holds() {
                    self.finishing()
                } else {
                    Some(MergePhase::CheckNotDefault)
                },
                MergePhase::CheckNotDefault => Some(MergePhase::EnsureClean),
                MergePhase::EnsureClean => Some(MergePhase::Remove),
                MergePhase::Remove => self.finishing(),
                MergePhase::PostMerge => None,
            }
        }
    }

    /// The merge with what the answer tells it.
    pub open spec fn recorded(self, answer: AnswerView) -> MergeView {
        match self.phase {
            MergePhase::RequireTarget => MergeView {
                target_branch: match answer.text() {
                    Some(text) => text,
                    None => self.target_branch,
                },
                ..self
            },
            MergePhase::FindWorktree => MergeView { target_worktree: answer.text(), ..self },
            MergePhase::ReadCommit => MergeView {
                commit: named(answer),
                ..self
            },
            _ => MergeView { progress: self.progress_on(answer), ..self },
        }
    }

    /// What has happened, once the answer is there.
    pub open spec fn progress_on(self, answer: AnswerView) -> Progress {
        let so_far = self.progress;
        match self.phase {
            MergePhase::Approve { .. } => Progress {
                verify: so_far.verify && answer.holds(),
                ..so_far
            },
            MergePhase::Commit => Progress { committed: true, ..so_far },
            MergePhase::Squash => Progress { squashed: answer.holds(), ..so_far },
            MergePhase::Rebase => Progress { rebased: answer.holds(), ..so_far },
            MergePhase::Remove => Progress { removed: true, ..so_far },
            _ => so_far,
        }
    }

    /// What the user is told.
    pub open spec fn note(self, answer: AnswerView) -> Option<Note> {
        if answer is Failed && !self.tolerates() {
            None
        } else {
            match self.phase {
                MergePhase::Approve { .. } => if answer.holds() {
                    None
                } else {
                    Some(Note::CommandsDeclined)
                },
                MergePhase::Reconcile => match answer->Reconciled_0 {
                    OutcomeView::OpenedDraftPr { pr_number } => Some(
                        Note::DraftOpened { pr_number },
                    ),
                    _ => Some(Note::ProviderMerged),
                },
                MergePhase::ReadCommit => if !self.plan.remove {
                    Some(Note::PreservedOnRequest)
                } else if self.on_target() {
                    Some(Note::PreservedOnTarget)
                } else {
                    None
                },
                MergePhase::CheckPrimary => if answer.holds() {
                    Some(Note::PreservedPrimary)
                } else {
                    None
                },
                _ => None,
            }
        }
    }

    /// What the merge comes to, where the answer ends it.
    pub open spec fn result(self, answer: AnswerView) -> Result<EndView, MergeErrorView> {
        if answer is Failed && !self.tolerates() {
            Err(MergeErrorView::Failed(answer->Failed_0))
        } else {
            match self.phase {
                MergePhase::CheckClean => Err(
                    MergeErrorView::UncommittedChanges {
                        action: "merge with --no-commit"@,
                        branch: self.current_branch,
                        force_hint: false,
                    },
                ),
                MergePhase::CheckRebased => Err(
                    MergeErrorView::NotRebased { target_branch: self.target_branch },
                ),
                MergePhase::Reconcile => Ok(
                    EndView::Draft { pr_number: answer->Reconciled_0->OpenedDraftPr_pr_number },
                ),
                _ => Ok(EndView::Merged(self.recorded(answer).report())),
            }
        }
    }

    /// What the merge reports.
    pub open spec fn report(self) -> ReportView {
        ReportView {
            json: self.plan.json,
            branch: self.current_branch,
            target: self.target_branch,
            committed: self.progress.committed,
            squashed: self.progress.squashed,
            rebased: self.progress.rebased,
            removed: self.progress.removed,
        }
    }

    /// What the answer leads to.
    pub open spec fn step(self, answer: AnswerView) -> MergeStepView {
        MergeStepView {
            note: self.note(answer),
            to: match self.next(answer) {
                Some(phase) => MergeWayView::Next(MergeView { phase, ..self.recorded(answer) }),
                None => MergeWayView::Done(self.result(answer)),
            },
        }
    }

    /// Whether the commit, once read, can be shown in short form.
    pub open spec fn valid(self) -> bool {
        self.commit matches Some(id) ==> shortens(id)
    }
}

/// Where a merge starts from.
#[derive(Debug, Clone, PartialEq, Eq)]
pub struct MergePlace {
    /// The branch that is checked out.
    pub branch: String,
    /// The worktree it is checked out in.
    pub worktree_path: String,
    /// The name of that directory, if it has one that is text.
    pub worktree_name: Option<String>,
}

/// A merge at its start. What it does not know yet is empty.
pub open spec fn starting(
    plan: MergePlan,
    requested_target: Option<Seq<char>>,
    branch: Seq<char>,
    worktree_path: Seq<char>,
    worktree_name: Option<Seq<char>>,
) -> MergeView {
    MergeView {
        plan,
        progress: Progress {
            verify: plan.verify,
            committed: false,
            squashed: false,
            rebased: false,
            removed: false,
        },
        current_branch: branch,
        requested_target,
        target_branch: Seq::empty(),
        target_worktree: None,
        worktree_path,
        worktree_name: match worktree_name {
            Some(name) => name,
            None => "unknown"@,
        },
        commit: None,
        phase: if plan.commit {
            MergePhase::RequireTarget
        } else {
            MergePhase::CheckClean
        },
    }
}

/// The content of an optional text.
pub open spec fn optional_str(s: Option<&str>) -> Option<Seq<char>> {
    match s {
        Some(text) => Some(text@),
        None => None,
    }
}

/// Starts the merge of the branch checked out at `place`, as the command line
/// and the configuration ask for it.
pub fn handle_merge(
    opts: &MergeOptions<'_>,
    settings: &MergeSettings,
    place: MergePlace,
) -> (r: MergeRun)
    ensures
        r@ == starting(
            plan_of(*opts, *settings),
            optional_str(opts.target),
            place.branch@,
            place.worktree_path@,
            optional(place.worktree_name),
        ),
        opts.target matches Some(target) ==> r@.requested_target == Some(target@),
        opts.target is None ==> r@.requested_target is None,
        r@.current_branch == place.branch@,
        r@.worktree_path == place.worktree_path@,
        r@.plan.consistent(),
        r@.valid(),
{
    let plan = resolve(opts, settings);
    let empty = String::new();
    assert(empty@ =~= Seq::<char>::empty());
    MergeRun {
        plan,
        progress: Progress {
            verify: plan.verify,
            committed: false,
            squashed: false,
            rebased: false,
            removed: false,
        },
        current_branch: place.branch,
        requested_target: match opts.target {
            Some(target) => Some(target.to_owned()),
            None => None,
        },
        target_branch: empty,
        target_worktree: None,
        worktree_path: place.worktree_path,
        worktree_name: match place.worktree_name {
            Some(name) => name,
            None => "unknown".to_owned(),
        },
        commit: None,
        phase: if plan.commit {
            MergePhase::RequireTarget
        } else {
            MergePhase::CheckClean
        },
    }
}

/// The text of an answer, if it has one.
fn text_of(answer: &Answer) -> (r: Option<String>)
    ensures
        optional(r) == answer@.text(),
{
    match answer {
        Answer::Text(text) => Some(text.clone()),
        _ => None,
    }
}

/// The name that an answer tells.
fn name_in(answer: &Answer) -> (r: Option<String>)
    ensures
        optional(r) == named(answer@),
{
    match answer {
        Answer::Text(text) => Some(trim(text.as_str()).to_owned()),
        _ => None,
    }
}

/// Adds a template variable.
fn define(variables: &mut Vec<(String, String)>, name: &str, value: &str)
    ensures
        variable_views(final(variables)@) == variable_views(old(variables)@).push((name@, value@)),
{
    variables.push((name.to_owned(), value.to_owned()));
    assert(variable_views(variables@) =~= variable_views(old(variables)@).push((name@, value@)));
}

/// The template variables that tell of the target.
fn target_variable_list(target_branch: &str, target_worktree: &Option<String>) -> (r: Vec<
    (String, String),
>)
    ensures
        variable_views(r@) == target_variables(target_branch@, optional(*target_worktree)),
{
    let mut variables: Vec<(String, String)> = Vec::new();
    assert(variable_views(variables@) =~= Seq::empty());
    define(&mut variables, "target", target_branch);
    if let Some(path) = target_worktree {
        define(&mut variables, "target_worktree_path", path.as_str());
    }
    assert(variable_views(variables@) =~= target_variables(
        target_branch@,
        optional(*target_worktree),
    ));
    variables
}

impl MergePlan {
    /// What comes after approval.
    fn phase_after_approval(&self) -> (r: MergePhase)
        ensures
            r == self.committing(),
    {
        if self.commit {
            MergePhase::CheckDirtyForCommit
        } else {
            self.phase_after_commit()
        }
    }

    /// What comes after the commit.
    fn phase_after_commit(&self) -> (r: MergePhase)
        ensures
            r == self.guarding(),
    {
        if self.push_to_origin {
            MergePhase::CheckDirtyForGuard
        } else {
            self.phase_after_guard()
        }
    }

    /// What comes after the guard.
    fn phase_after_guard(&self) -> (r: MergePhase)
        ensures
            r == self.squashing(),
    {
        if self.squash {
            MergePhase::Squash
        } else {
            self.phase_after_squash()
        }
    }

    /// What comes after the squash.
    fn phase_after_squash(&self) -> (r: MergePhase)
        ensures
            r == self.rebasing(),
    {
        if self.rebase {
            MergePhase::Rebase
        } else {
            MergePhase::CheckRebased
        }
    }

    /// What comes after the rebase.
    fn phase_after_rebase(&self, verify: bool) -> (r: MergePhase)
        ensures
            r == self.gating(verify),
    {
        if verify {
            MergePhase::PreMerge
        } else {
            self.phase_after_hooks()
        }
    }

    /// What comes after the pre-merge hooks.
    fn phase_after_hooks(&self) -> (r: MergePhase)
        ensures
            r == self.landing(),
    {
        if self.push_to_origin {
            MergePhase::Reconcile
        } else {
            MergePhase::MergeLocally
        }
    }
}

impl MergeRun {
    /// Whether the branch being merged is the target itself.
    fn is_on_target(&self) -> (r: bool)
        ensures
            r == self@.on_target(),
    {
        self.current_branch == self.target_branch
    }

    /// Where the user ends up.
    fn destination(&self) -> (r: Destination)
        ensures
            r == self@.destination(),
    {
        if self.target_worktree.is_some() {
            Destination::TargetWorktree
        } else {
            Destination::Home
        }
    }

    /// The hooks to have approved.
    fn hooks(&self, changes: Option<bool>) -> (r: Vec<HookType>)
        ensures
            r@ == self@.hooks(changes),
    {
        match changes {
            None => Vec::new(),
            Some(dirty) => {
                let will_remove = self.plan.remove && !self.is_on_target();
                let will_create_commit = dirty || self.plan.squash;
                collect_merge_commands(
                    self.plan.commit,
                    self.plan.verify,
                    will_remove,
                    will_create_commit,
                )
            },
        }
    }

    /// The template variables of the post-merge hooks.
    fn post_variables(&self) -> (r: Vec<(String, String)>)
        requires
            self@.valid(),
        ensures
            variable_views(r@) == self@.post_variables(),
    {
        let mut variables = target_variable_list(
            self.target_branch.as_str(),
            &self.target_worktree,
        );
        define(&mut variables, "worktree_path", self.worktree_path.as_str());
        define(&mut variables, "worktree", self.worktree_path.as_str());
        define(&mut variables, "worktree_name", self.worktree_name.as_str());
        if let Some(commit) = &self.commit {
            define(&mut variables, "commit", commit.as_str());
            if let Some(short) = short_commit(commit.as_str()) {
                define(&mut variables, "short_commit", short.as_str());
            }
        }
        assert(variable_views(variables@) =~= self@.post_variables());
        variables
    }

    /// What the merge asks for.
    pub fn action(&self) -> (r: MergeAction)
        requires
            self@.valid(),
        ensures
            r@ == self@.action(),
    {
        match self.phase {
            MergePhase::CheckClean => MergeAction::IsDirty,
            MergePhase::RequireTarget => MergeAction::RequireTarget {
                target: copied(&self.requested_target),
            },
            MergePhase::FindWorktree => MergeAction::WorktreeFor {
                branch: self.target_branch.clone(),
            },
            MergePhase::LoadConfig => MergeAction::LoadProjectConfig,
            MergePhase::CheckDirtyForHooks => MergeAction::IsDirty,
            MergePhase::Approve { changes } => MergeAction::Approve {
                hooks: self.hooks(changes),
                yes: self.plan.yes,
            },
            MergePhase::CheckDirtyForCommit => MergeAction::IsDirty,
            MergePhase::Commit => MergeAction::Commit {
                target_branch: self.target_branch.clone(),
                verify: self.progress.verify,
                stage: self.plan.stage,
                warn_about_untracked: self.plan.stage == StageMode::All,
                show_no_squash_note: true,
            },
            MergePhase::CheckDirtyForGuard => MergeAction::IsDirty,
            MergePhase::Guard { dirty } => MergeAction::EnsurePrBranch {
                branch: self.current_branch.clone(),
                dirty,
            },
            MergePhase::Squash => MergeAction::Squash {
                target_branch: self.target_branch.clone(),
                yes: self.plan.yes,
                verify: self.progress.verify,
                stage: self.plan.stage,
                no_fetch: self.plan.no_fetch,
            },
            MergePhase::Rebase => MergeAction::Rebase {
                target_branch: self.target_branch.clone(),
            },
            MergePhase::CheckRebased => MergeAction::IsRebasedOnto {
                target_branch: self.target_branch.clone(),
            },
            MergePhase::PreMerge => MergeAction::RunPreMergeHooks {
                variables: target_variable_list(
                    self.target_branch.as_str(),
                    &self.target_worktree,
                ),
            },
            MergePhase::Reconcile => MergeAction::Reconcile {
                branch: self.current_branch.clone(),
                target_branch: self.target_branch.clone(),
                strategy: self.plan.on_diverged_remote,
                auto_open_pr_if_missing: self.plan.auto_open_pr_if_missing,
                draft: self.plan.draft,
            },
            MergePhase::Summarize { pr_number } => MergeAction::Summarize {
                target_branch: self.target_branch.clone(),
                pr_number,
            },
            MergePhase::Resync => {
                let now = "refs/heads/".to_owned().concat(self.target_branch.as_str());
                let before = now.clone().concat("@{1}");
                MergeAction::ResyncTarget {
                    command: git_command(
                        &["read-tree", "-m", "-u", before.as_str(), now.as_str()],
                    ),
                }
            },
            MergePhase::MergeLocally => MergeAction::MergeLocally {
                ff: self.plan.ff,
                target_branch: self.target_branch.clone(),
                branch: self.current_branch.clone(),
                committed: self.progress.committed,
                squashed: self.progress.squashed,
                rebased: self.progress.rebased,
            },
            MergePhase::FindHome => MergeAction::FindHome,
            MergePhase::ReadCommit => MergeAction::ReadCommit,
            MergePhase::CheckPrimary => MergeAction::IsPrimaryWorktree,
            MergePhase::CheckNotDefault => MergeAction::CheckNotDefaultBranch {
                branch: self.current_branch.clone(),
                mode: BranchDeletionMode::SafeDelete,
            },
            MergePhase::EnsureClean => MergeAction::EnsureClean {
                action: "remove worktree after merge".to_owned(),
                branch: self.current_branch.clone(),
                force_hint: false,
            },
            MergePhase::Remove => MergeAction::RemoveWorktree {
                destination: self.destination(),
                branch: self.current_branch.clone(),
                mode: BranchDeletionMode::SafeDelete,
                force_worktree: false,
                target_branch: self.target_branch.clone(),
                commit: copied(&self.commit),
                verify: self.progress.verify,
            },
            MergePhase::PostMerge => MergeAction::RunPostMergeHooks {
                destination: self.destination(),
                removed: self.progress.removed,
                variables: self.post_variables(),
            },
        }
    }

    /// Whether an answer is one to what the merge asks for.
    pub fn expects(&self, answer: &Answer) -> (r: bool)
        ensures
            r == self@.expects(answer@),
    {
        match answer {
            Answer::Failed(_) => true,
            Answer::Yes => match self.phase {
                MergePhase::RequireTarget => false,
                MergePhase::FindWorktree => false,
                MergePhase::ReadCommit => false,
                MergePhase::Reconcile => false,
                _ => true,
            },
            Answer::No => match self.phase {
                MergePhase::FindWorktree => true,
                MergePhase::CheckClean => true,
                MergePhase::LoadConfig => true,
                MergePhase::CheckDirtyForHooks => true,
                MergePhase::Approve { .. } => true,
                MergePhase::CheckDirtyForCommit => true,
                MergePhase::CheckDirtyForGuard => true,
                MergePhase::Squash => true,
                MergePhase::Rebase => true,
                MergePhase::CheckRebased => true,
                MergePhase::CheckPrimary => true,
                _ => false,
            },
            Answer::Text(text) => match self.phase {
                MergePhase::RequireTarget => true,
                MergePhase::FindWorktree => true,
                MergePhase::ReadCommit => can_shorten(trim(text.as_str())),
                _ => false,
            },
            Answer::Reconciled(_) => matches!(self.phase, MergePhase::Reconcile),
        }
    }

    /// What comes after the summary.
    fn phase_after_summary(&self) -> (r: MergePhase)
        ensures
            r == self@.resyncing(),
    {
        if self.target_worktree.is_some() {
            MergePhase::Resync
        } else {
            self.phase_after_landing()
        }
    }

    /// What comes after the landing.
    fn phase_after_landing(&self) -> (r: MergePhase)
        ensures
            r == self@.arriving(),
    {
        if self.target_worktree.is_some() {
            MergePhase::ReadCommit
        } else {
            MergePhase::FindHome
        }
    }

    /// What comes once the commit is read.
    fn phase_after_arrival(&self) -> (r: Option<MergePhase>)
        ensures
            r == self@.removing(),
    {
        if self.plan.remove && !self.is_on_target() {
            Some(MergePhase::CheckPrimary)
        } else {
            self.last_phase()
        }
    }

    /// What comes last.
    fn last_phase(&self) -> (r: Option<MergePhase>)
        ensures
            r == self@.finishing(),
    {
        if self.progress.verify {
            Some(MergePhase::PostMerge)
        } else {
            None
        }
    }

    /// Whether the answer is a failure that ends the merge.
    fn is_fatal(&self, answer: &Answer) -> (r: bool)
        ensures
            r == (answer@ is Failed && !self@.tolerates()),
    {
        match answer {
            Answer::Failed(_) => match self.phase {
                MergePhase::Summarize { .. } => false,
                MergePhase::Resync => false,
                MergePhase::ReadCommit => false,
                _ => true,
            },
            _ => false,
        }
    }

    /// What the merge stands before next.
    fn next_phase(&self, answer: &Answer) -> (r: Option<MergePhase>)
        requires
            self@.expects(answer@),
        ensures
            r == self@.next(answer@),
    {
        if self.is_fatal(answer) {
            return None;
        }
        let holds = answer.holds();
        match self.phase {
            MergePhase::CheckClean => if holds {
                None
            } else {
                Some(MergePhase::RequireTarget)
            },
            MergePhase::RequireTarget => Some(MergePhase::FindWorktree),
            MergePhase::FindWorktree => Some(MergePhase::LoadConfig),
            MergePhase::LoadConfig => if holds {
                Some(MergePhase::CheckDirtyForHooks)
            } else {
                Some(MergePhase::Approve { changes: None })
            },
            MergePhase::CheckDirtyForHooks => Some(MergePhase::Approve { changes: Some(holds) }),
            MergePhase::Approve { .. } => Some(self.plan.phase_after_approval()),
            MergePhase::CheckDirtyForCommit => if holds && !self.plan.squash {
                Some(MergePhase::Commit)
            } else {
                Some(self.plan.phase_after_commit())
            },
            MergePhase::Commit => Some(self.plan.phase_after_commit()),
            MergePhase::CheckDirtyForGuard => Some(MergePhase::Guard { dirty: holds }),
            MergePhase::Guard { .. } => Some(self.plan.phase_after_guard()),
            MergePhase::Squash => Some(self.plan.phase_after_squash()),
            MergePhase::Rebase => Some(self.plan.phase_after_rebase(self.progress.verify)),
            MergePhase::CheckRebased => if holds {
                Some(self.plan.phase_after_rebase(self.progress.verify))
            } else {
                None
            },
            MergePhase::PreMerge => Some(self.plan.phase_after_hooks()),
            MergePhase::Reconcile => {
                if let Answer::Reconciled(outcome) = answer {
                    if let Some(pr_number) = squash_pr_number(outcome) {
                        return Some(MergePhase::Summarize { pr_number });
                    }
                }
                None
            },
            MergePhase::Summarize { .. } => Some(self.phase_after_summary()),
            MergePhase::Resync => Some(self.phase_after_landing()),
            MergePhase::MergeLocally => Some(self.phase_after_landing()),
            MergePhase::FindHome => Some(MergePhase::ReadCommit),
            MergePhase::ReadCommit => self.phase_after_arrival(),
            MergePhase::CheckPrimary => if holds {
                self.last_phase()
            } else {
                Some(MergePhase::CheckNotDefault)
            },
            MergePhase::CheckNotDefault => Some(MergePhase::EnsureClean),
            MergePhase::EnsureClean => Some(MergePhase::Remove),
            MergePhase::Remove => self.last_phase(),
            MergePhase::PostMerge => None,
        }
    }

    /// The merge with what the answer tells it.
    fn recorded(self, answer: &Answer) -> (r: MergeRun)
        ensures
            r@ == self@.recorded(answer@),
    {
        match self.phase {
            MergePhase::RequireTarget => match text_of(answer) {
                Some(target_branch) => MergeRun { target_branch, ..self },
                None => self,
            },
            MergePhase::FindWorktree => MergeRun { target_worktree: text_of(answer), ..self },
            MergePhase::ReadCommit => MergeRun { commit: name_in(answer), ..self },
            _ => {
                let progress = self.progress_on(answer);
                MergeRun { progress, ..self }
            },
        }
    }

    /// What has happened, once the answer is there.
    fn progress_on(&self, answer: &Answer) -> (r: Progress)
        ensures
            r == self@.progress_on(answer@),
    {
        let so_far = self.progress;
        let holds = answer.holds();
        match self.phase {
            MergePhase::Approve { .. } => Progress { verify: so_far.verify && holds, ..so_far },
            MergePhase::Commit => Progress { committed: true, ..so_far },
            MergePhase::Squash => Progress { squashed: holds, ..so_far },
            MergePhase::Rebase => Progress { rebased: holds, ..so_far },
            MergePhase::Remove => Progress { removed: true, ..so_far },
            _ => so_far,
        }
    }

    /// What the user is told.
    fn note_on(&self, answer: &Answer) -> (r: Option<Note>)
        requires
            self@.expects(answer@),
        ensures
            r == self@.note(answer@),
    {
        if self.is_fatal(answer) {
            return None;
        }
        match self.phase {
            MergePhase::Approve { .. } => if answer.holds() {
                None
            } else {
                Some(Note::CommandsDeclined)
            },
            MergePhase::Reconcile => match answer {
                Answer::Reconciled(ReconcileOutcome::OpenedDraftPr { pr_number }) => Some(
                    Note::DraftOpened { pr_number: *pr_number },
                ),
                _ => Some(Note::ProviderMerged),
            },
            MergePhase::ReadCommit => if !self.plan.remove {
                Some(Note::PreservedOnRequest)
            } else if self.is_on_target() {
                Some(Note::PreservedOnTarget)
            } else {
                None
            },
            MergePhase::CheckPrimary => if answer.holds() {
                Some(Note::PreservedPrimary)
            } else {
                None
            },
            _ => None,
        }
    }

    /// What the merge reports.
    fn report(self) -> (r: MergeReport)
        ensures
            r@ == self@.report(),
    {
        MergeReport {
            json: self.plan.json,
            branch: self.current_branch,
            target: self.target_branch,
            committed: self.progress.committed,
            squashed: self.progress.squashed,
            rebased: self.progress.rebased,
            removed: self.progress.removed,
        }
    }

    /// What the merge comes to, where the answer ends it.
    fn result(self, answer: Answer) -> (r: Result<MergeEnd, MergeError>)
        requires
            self@.expects(answer@),
            self@.next(answer@) is None,
        ensures
            MergeWay::Done(r)@ == MergeWayView::Done(self@.result(answer@)),
    {
        let fatal = self.is_fatal(&answer);
        match answer {
            Answer::Failed(fault) if fatal => return Err(MergeError::Failed(fault)),
            Answer::Reconciled(ReconcileOutcome::OpenedDraftPr { pr_number }) => {
                return Ok(MergeEnd::Draft { pr_number });
            },
            _ => {},
        }
        match self.phase {
            MergePhase::CheckClean => Err(
                MergeError::UncommittedChanges {
                    action: "merge with --no-commit".to_owned(),
                    branch: self.current_branch,
                    force_hint: false,
                },
            ),
            MergePhase::CheckRebased => Err(
                MergeError::NotRebased { target_branch: self.target_branch },
            ),
            _ => Ok(MergeEnd::Merged(self.recorded(&answer).report())),
        }
    }

    /// Goes on with what was found out or done.
    pub fn resume(self, answer: Answer) -> (r: MergeStep)
        requires
            self@.valid(),
            self@.expects(answer@),
        ensures
            r@ == self@.step(answer@),
            r@.to matches MergeWayView::Next(run) ==> run.valid(),
    {
        let note = self.note_on(&answer);
        match self.next_phase(&answer) {
            Some(phase) => {
                let run = self.recorded(&answer);
                MergeStep { note, to: MergeWay::Next(MergeRun { phase, ..run }) }
            },
            None => MergeStep { note, to: MergeWay::Done(self.result(answer)) },
        }
    }
}

} // verus!
