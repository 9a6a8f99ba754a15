//! Pushing a feature branch to a remote that may have moved, and landing it
//! through a pull request.
//!
//! A plain `git push` assumes that the remote branch is absent or an ancestor
//! of the local one. That fails where a branch was pushed with intermediate
//! commits and then squashed locally, and force-pushing is not an option. So
//! the remote state is classified first; the state and the configured strategy
//! decide what is pushed, which pull request lands the work, and whether a
//! fresh branch takes the place of the old one.
//!
//! A [`ReconcileRun`] stands before a command. The reply to it leads to the
//! next command or ends the run.

use vstd::prelude::*;
use crate::command::{
    Command, CommandView, Reply, ReplyView, gh, gh_command, git, git_command,
};
use crate::fault::{Fault, FaultView, plain};
use crate::pull_request::{
    abort_message, abort_text, branch_ref_api_path, closing_comment, closing_text, created_pr,
    listed_pr, merge_path, missing_pr_message, missing_pr_text, opening_body, opening_text,
    pr_merge_api_path, read_created_pr, read_listed_pr, ref_path, supersession_body,
    supersession_text,
};
use crate::remote_state::{
    ClassifyPhase, ClassifyRun, ClassifyStep, ClassifyStepView, ClassifyView, RemoteState,
    remote_ref, remote_ref_of,
};
use crate::text::{contains, decimal, decimal_text, occurs_in, trim, trimmed};

verus! {

/// What to do when the remote has diverged.
#[derive(Debug, Clone, Copy, PartialEq, Eq, Structural)]
pub enum RemoteDivergenceStrategy {
    /// Land what the remote has; GitHub squashes it.
    RemoteSquash,
    /// Land the local work from a fresh branch with a version suffix.
    Restack,
    /// Stop, and tell the user how to recover.
    Abort,
}

/// Outcome of a reconciliation for the caller to log / report.
///
/// Every variant that includes a merged PR means the GitHub side has already
/// squash-merged the feature branch into the target.
#[derive(Debug, Clone, PartialEq, Eq)]
pub enum ReconcileOutcome {
    /// Remote branch didn't exist; pushed it and ran the GitHub squash-merge.
    FirstPush { pr_number: u32 },
    /// Remote already matched local; no push needed, ran GitHub squash-merge.
    AlreadyPushed { pr_number: u32 },
    /// Remote was ahead; rebased local onto remote, pushed, ran GitHub
    /// squash-merge.
    RebasedAndPushed { pr_number: u32 },
    /// Local had commits on top of the remote; pushed them as a fast-forward,
    /// ran GitHub squash-merge.
    FastForwarded { pr_number: u32 },
    /// Diverged remote + `RemoteSquash` strategy: delegated collapse to
    /// GitHub via the REST merge endpoint (no local checkout of target).
    RemoteSquashed { pr_number: u32 },
    /// Diverged remote + `Restack` strategy: created `<branch>-vN`, closed the
    /// old PR as superseded, opened a new PR, squash-merged the new PR.
    Restacked { new_branch: String, closed_pr: Option<u32>, new_pr: u32 },
    /// Pushed and opened a draft PR, but skipped the merge step because
    /// GitHub's merge API rejects drafts (HTTP 405).
    OpenedDraftPr { pr_number: u32 },
}

/// The content of a [`ReconcileOutcome`].
#[verifier::ext_equal]
pub enum OutcomeView {
    FirstPush { pr_number: u32 },
    AlreadyPushed { pr_number: u32 },
    RebasedAndPushed { pr_number: u32 },
    FastForwarded { pr_number: u32 },
    RemoteSquashed { pr_number: u32 },
    Restacked { new_branch: Seq<char>, closed_pr: Option<u32>, new_pr: u32 },
    OpenedDraftPr { pr_number: u32 },
}

impl View for ReconcileOutcome {
    type V = OutcomeView;

    open spec fn view(&self) -> OutcomeView {
        match self {
            ReconcileOutcome::FirstPush { pr_number } => OutcomeView::FirstPush {
                pr_number: *pr_number,
            },
            ReconcileOutcome::AlreadyPushed { pr_number } => OutcomeView::AlreadyPushed {
                pr_number: *pr_number,
            },
            ReconcileOutcome::RebasedAndPushed { pr_number } => OutcomeView::RebasedAndPushed {
                pr_number: *pr_number,
            },
            ReconcileOutcome::FastForwarded { pr_number } => OutcomeView::FastForwarded {
                pr_number: *pr_number,
            },
            ReconcileOutcome::RemoteSquashed { pr_number } => OutcomeView::RemoteSquashed {
                pr_number: *pr_number,
            },
            ReconcileOutcome::Restacked { new_branch, closed_pr, new_pr } => {
                OutcomeView::Restacked {
                    new_branch: new_branch@,
                    closed_pr: *closed_pr,
                    new_pr: *new_pr,
                }
            },
            ReconcileOutcome::OpenedDraftPr { pr_number } => OutcomeView::OpenedDraftPr {
                pr_number: *pr_number,
            },
        }
    }
}

impl OutcomeView {
    /// The PR that was squash-merged, if one was.
    pub open spec fn merged_pr(self) -> Option<u32> {
        match self {
            OutcomeView::FirstPush { pr_number } => Some(pr_number),
            OutcomeView::AlreadyPushed { pr_number } => Some(pr_number),
            OutcomeView::RebasedAndPushed { pr_number } => Some(pr_number),
            OutcomeView::FastForwarded { pr_number } => Some(pr_number),
            OutcomeView::RemoteSquashed { pr_number } => Some(pr_number),
            OutcomeView::Restacked { new_pr, .. } => Some(new_pr),
            OutcomeView::OpenedDraftPr { .. } => None,
        }
    }
}

/// The squash-merged PR of an outcome. `None` for the draft, since no merge
/// happened.
pub fn squash_pr_number(outcome: &ReconcileOutcome) -> (r: Option<u32>)
    ensures
        r == outcome@.merged_pr(),
{
    match outcome {
        ReconcileOutcome::FirstPush { pr_number }
        | ReconcileOutcome::AlreadyPushed { pr_number }
        | ReconcileOutcome::RebasedAndPushed { pr_number }
        | ReconcileOutcome::FastForwarded { pr_number }
        | ReconcileOutcome::RemoteSquashed { pr_number } => Some(*pr_number),
        ReconcileOutcome::Restacked { new_pr, .. } => Some(*new_pr),
        ReconcileOutcome::OpenedDraftPr { .. } => None,
    }
}

/// What a merge lands.
#[derive(Debug, Clone, Copy, PartialEq, Eq, Structural)]
pub enum Landing {
    /// The feature branch, whose remote was found in the given state.
    Feature(RemoteState),
    /// The replacement branch of the given version.
    Replacement { version: u32, closed_pr: Option<u32> },
}

/// Which command a [`ReconcileRun`] stands before.
#[derive(Debug, Clone, Copy, PartialEq, Eq, Structural)]
pub enum Phase {
    /// Find out how the remote relates to local HEAD.
    Classify(ClassifyPhase),
    /// Push a branch that the remote lacks.
    FirstPush,
    /// Rebase onto a remote that is ahead.
    Rebase,
    /// Push what was rebased.
    PushRebased,
    /// Push the commits that local HEAD has on top of the remote.
    PushAhead { ahead: u32 },
    /// Look for the open PR of the feature branch.
    FindPr(RemoteState),
    /// Read the title for a PR of the feature branch.
    ReadTitle(RemoteState),
    /// Open a PR for the feature branch.
    OpenPr(RemoteState),
    /// Ask whether the replacement branch of a version exists locally.
    ProbeLocal { version: u32 },
    /// Ask whether it exists on the remote.
    ProbeRemote { version: u32, local_exists: bool },
    /// Create the replacement branch.
    CreateBranch { version: u32 },
    /// Push it.
    PushBranch { version: u32 },
    /// Look for the PR that it supersedes.
    FindOldPr { version: u32 },
    /// Close that PR.
    CloseOldPr { version: u32, old_pr: u32 },
    /// Read the title for the replacement PR.
    ReadNewTitle { version: u32, closed_pr: Option<u32> },
    /// Open the replacement PR.
    OpenNewPr { version: u32, closed_pr: Option<u32> },
    /// Squash-merge a PR.
    Merge { landing: Landing, pr: u32 },
    /// Delete its branch on the remote.
    DeleteBranch { landing: Landing, pr: u32 },
    /// Fetch the target branch, which now holds the merge.
    FetchTarget { landing: Landing, pr: u32 },
    /// Move the local target branch there, without touching a working tree.
    AdvanceTarget { landing: Landing, pr: u32 },
}

/// A reconciliation under way.
#[derive(Debug, Clone, PartialEq, Eq)]
pub struct ReconcileRun {
    /// The feature branch being merged.
    pub branch: String,
    /// The merge target.
    pub target_branch: String,
    /// What to do when the remote has diverged.
    pub strategy: RemoteDivergenceStrategy,
    /// Whether a PR is opened where none is open.
    pub auto_open_pr_if_missing: bool,
    /// Whether a PR that is opened is a draft, which is then not merged.
    pub draft: bool,
    /// The commit at local HEAD, once it is read.
    pub local_head: String,
    /// The title of the PR to open, once it is read.
    pub title: String,
    pub phase: Phase,
}

/// The content of a [`ReconcileRun`].
#[verifier::ext_equal]
pub struct RunView {
    pub branch: Seq<char>,
    pub target_branch: Seq<char>,
    pub strategy: RemoteDivergenceStrategy,
    pub auto_open_pr_if_missing: bool,
    pub draft: bool,
    pub local_head: Seq<char>,
    pub title: Seq<char>,
    pub phase: Phase,
}

impl View for ReconcileRun {
    type V = RunView;

    open spec fn view(&self) -> RunView {
        RunView {
            branch: self.branch@,
            target_branch: self.target_branch@,
            strategy: self.strategy,
            auto_open_pr_if_missing: self.auto_open_pr_if_missing,
            draft: self.draft,
            local_head: self.local_head@,
            title: self.title@,
            phase: self.phase,
        }
    }
}

/// What a reply leads to.
#[derive(Debug, PartialEq, Eq)]
pub enum ReconcileStep {
    /// There is another command to run.
    Next(ReconcileRun),
    /// The reconciliation is over.
    Done(Result<ReconcileOutcome, Fault>),
}

/// The content of a [`ReconcileStep`].
#[verifier::ext_equal]
pub enum StepView {
    Next(RunView),
    Done(Result<OutcomeView, FaultView>),
}

impl View for ReconcileStep {
    type V = StepView;

    open spec fn view(&self) -> StepView {
        match self {
            ReconcileStep::Next(run) => StepView::Next(run@),
            ReconcileStep::Done(Ok(outcome)) => StepView::Done(Ok(outcome@)),
            ReconcileStep::Done(Err(fault)) => StepView::Done(Err(fault@)),
        }
    }
}

/// The last version that a replacement branch may have.
pub const LAST_VERSION: u32 = 99;

/// The replacement branch of a version.
pub open spec fn versioned(branch: Seq<char>, version: u32) -> Seq<char> {
    branch + "-v"@ + decimal(version as nat)
}

/// The replacement branch of a version.
pub fn versioned_name(branch: &str, version: u32) -> (r: String)
    ensures
        r@ == versioned(branch@, version),
{
    let shown = decimal_text(version as u64);
    branch.to_owned().concat("-v").concat(shown.as_str())
}

/// What the user is told when every version is taken.
pub open spec fn exhausted_text(branch: Seq<char>) -> Seq<char> {
    "exhausted -v2..-v99 candidates for branch '"@ + branch + "'; clean up old restacks"@
}

/// Whether what GitHub complained of when a branch was to be deleted means that
/// the branch was gone already.
pub open spec fn already_gone(complaint: Seq<char>) -> bool {
    occurs_in("422"@, complaint) || occurs_in("Reference does not exist"@, complaint)
}

/// Decides [`already_gone`].
pub fn is_already_gone(complaint: &str) -> (r: bool)
    ensures
        r == already_gone(complaint@),
{
    contains(complaint, "422") || contains(complaint, "Reference does not exist")
}

/// The arguments that open a PR.
pub open spec fn create_args(
    draft: bool,
    base: Seq<char>,
    head: Seq<char>,
    title: Seq<char>,
    body: Seq<char>,
) -> Seq<Seq<char>> {
    (if draft {
        seq!["pr"@, "create"@, "--draft"@]
    } else {
        seq!["pr"@, "create"@]
    }) + seq!["--base"@, base, "--head"@, head, "--title"@, title, "--body"@, body]
}

/// The command that lists the open PR of a branch.
pub open spec fn list_command(branch: Seq<char>) -> CommandView {
    gh(
        seq![
            "pr"@,
            "list"@,
            "--head"@,
            branch,
            "--state"@,
            "open"@,
            "--json"@,
            "number"@,
            "--jq"@,
            ".[0].number"@,
        ],
    )
}

/// The command that closes a PR which a new branch supersedes.
pub open spec fn close_command(old_pr: u32, new_branch: Seq<char>) -> CommandView {
    gh(
        seq![
            "pr"@,
            "close"@,
            decimal(old_pr as nat),
            "--comment"@,
            closing_text(new_branch),
        ],
    )
}

/// The command that squash-merges a PR.
pub open spec fn merge_command(pr: u32) -> CommandView {
    gh(seq!["api"@, "-X"@, "PUT"@, merge_path(pr as nat), "-f"@, "merge_method=squash"@])
}

/// The command that deletes a branch on the remote.
pub open spec fn delete_command(branch: Seq<char>) -> CommandView {
    gh(seq!["api"@, "-X"@, "DELETE"@, ref_path(branch)])
}

/// The command that moves a local branch to its tracking ref.
pub open spec fn advance_command(branch: Seq<char>) -> CommandView {
    git(seq!["update-ref"@, "refs/heads/"@ + branch, "refs/remotes/origin/"@ + branch])
}

/// The command that prints the subject line of HEAD.
pub open spec fn subject_command() -> CommandView {
    git(seq!["log"@, "-1"@, "--format=%s"@, "HEAD"@])
}

impl Landing {
    /// The branch that is merged.
    pub open spec fn head(self, branch: Seq<char>) -> Seq<char> {
        match self {
            Landing::Feature(_) => branch,
            Landing::Replacement { version, .. } => versioned(branch, version),
        }
    }

    /// What a failed merge is reported as.
    pub open spec fn merge_context(self) -> Seq<char> {
        match self {
            Landing::Feature(_) => "squash-merge via GitHub REST API failed"@,
            Landing::Replacement { .. } => "failed to squash-merge replacement PR"@,
        }
    }

    /// The outcome once the merge is there.
    pub open spec fn outcome(self, branch: Seq<char>, pr: u32) -> OutcomeView {
        match self {
            Landing::Feature(RemoteState::Absent) => OutcomeView::FirstPush { pr_number: pr },
            Landing::Feature(RemoteState::InSync) => OutcomeView::AlreadyPushed { pr_number: pr },
            Landing::Feature(RemoteState::Ahead) => OutcomeView::RebasedAndPushed {
                pr_number: pr,
            },
            Landing::Feature(RemoteState::Diverges { behind, .. }) => if behind == 0 {
                OutcomeView::FastForwarded { pr_number: pr }
            } else {
                OutcomeView::RemoteSquashed { pr_number: pr }
            },
            Landing::Replacement { version, closed_pr } => OutcomeView::Restacked {
                new_branch: versioned(branch, version),
                closed_pr,
                new_pr: pr,
            },
        }
    }
}

impl RunView {
    /// The run before another command.
    pub open spec fn at(self, phase: Phase) -> RunView {
        RunView { phase, ..self }
    }

    /// The run as a classification under way.
    pub open spec fn classification(self, phase: ClassifyPhase) -> ClassifyView {
        ClassifyView { branch: self.branch, local_head: self.local_head, phase }
    }

    /// The command that the run stands before.
    pub open spec fn command(self) -> CommandView {
        match self.phase {
            Phase::Classify(phase) => self.classification(phase).command(),
            Phase::FirstPush => git(seq!["push"@, "-u"@, "origin"@, self.branch]),
            Phase::Rebase => git(seq!["rebase"@, remote_ref(self.branch)]),
            Phase::PushRebased => git(seq!["push"@, "origin"@, self.branch]),
            Phase::PushAhead { .. } => git(seq!["push"@, "origin"@, self.branch]),
            Phase::FindPr(_) => list_command(self.branch),
            Phase::ReadTitle(_) => subject_command(),
            Phase::OpenPr(_) => gh(
                create_args(
                    self.draft,
                    self.target_branch,
                    self.branch,
                    self.title,
                    opening_text(self.branch, self.target_branch),
                ),
            ),
            Phase::ProbeLocal { version } => git(
                seq![
                    "show-ref"@,
                    "--verify"@,
                    "--quiet"@,
                    "refs/heads/"@ + versioned(self.branch, version),
                ],
            ),
            Phase::ProbeRemote { version, .. } => git(
                seq!["ls-remote"@, "--heads"@, "origin"@, versioned(self.branch, version)],
            ),
            Phase::CreateBranch { version } => git(
                seq!["branch"@, versioned(self.branch, version), "HEAD"@],
            ),
            Phase::PushBranch { version } => git(
                seq!["push"@, "-u"@, "origin"@, versioned(self.branch, version)],
            ),
            Phase::FindOldPr { .. } => list_command(self.branch),
            Phase::CloseOldPr { version, old_pr } => close_command(
                old_pr,
                versioned(self.branch, version),
            ),
            Phase::ReadNewTitle { .. } => subject_command(),
            Phase::OpenNewPr { version, closed_pr } => gh(
                create_args(
                    self.draft,
                    self.target_branch,
                    versioned(self.branch, version),
                    self.title,
                    supersession_text(self.branch, closed_pr),
                ),
            ),
            Phase::Merge { pr, .. } => merge_command(pr),
            Phase::DeleteBranch { landing, .. } => delete_command(landing.head(self.branch)),
            Phase::FetchTarget { .. } => git(seq!["fetch"@, "origin"@, self.target_branch]),
            Phase::AdvanceTarget { .. } => advance_command(self.target_branch),
        }
    }

    /// What follows once the remote state is known. Only a remote that has
    /// commits of its own beside local ones calls for the strategy; one that
    /// merely lacks commits is pushed to.
    pub open spec fn dispatch(self, state: RemoteState) -> StepView {
        match state {
            RemoteState::Absent => StepView::Next(self.at(Phase::FirstPush)),
            RemoteState::InSync => StepView::Next(self.at(Phase::FindPr(state))),
            RemoteState::Ahead => StepView::Next(self.at(Phase::Rebase)),
            RemoteState::Diverges { behind: 0, ahead } => StepView::Next(
                self.at(Phase::PushAhead { ahead }),
            ),
            RemoteState::Diverges { .. } => match self.strategy {
                RemoteDivergenceStrategy::RemoteSquash => StepView::Next(
                    self.at(Phase::FindPr(state)),
                ),
                RemoteDivergenceStrategy::Restack => StepView::Next(
                    self.at(Phase::ProbeLocal { version: 2 }),
                ),
                RemoteDivergenceStrategy::Abort => StepView::Done(
                    Err(plain(abort_text(self.branch, self.target_branch))),
                ),
            },
        }
    }

    /// Goes on to `phase` where the command succeeded; reports its failure as
    /// `context` where it did not.
    pub open spec fn proceed(self, reply: ReplyView, context: Seq<char>, phase: Phase) -> StepView {
        match reply {
            ReplyView::Failure { fault, .. } => StepView::Done(Err(fault.within(context))),
            ReplyView::Output(_) => StepView::Next(self.at(phase)),
        }
    }

    /// What follows a look for the open PR of the feature branch.
    pub open spec fn found_pr(self, state: RemoteState, reply: ReplyView) -> StepView {
        match listed_pr(reply) {
            Err(fault) => StepView::Done(Err(fault)),
            Ok(Some(pr)) => StepView::Next(
                self.at(Phase::Merge { landing: Landing::Feature(state), pr }),
            ),
            Ok(None) => if self.auto_open_pr_if_missing {
                StepView::Next(self.at(Phase::ReadTitle(state)))
            } else {
                StepView::Done(Err(plain(missing_pr_text(self.branch, self.target_branch))))
            },
        }
    }

    /// What follows the reading of a title: `phase`, with the title kept.
    pub open spec fn titled(self, reply: ReplyView, phase: Phase) -> StepView {
        match reply {
            ReplyView::Failure { fault, .. } => StepView::Done(Err(fault)),
            ReplyView::Output(output) => StepView::Next(
                RunView { title: trimmed(output), phase, ..self },
            ),
        }
    }

    /// What follows the opening of a PR. A draft is not merged.
    pub open spec fn opened_pr(self, landing: Landing, output: Seq<char>) -> StepView {
        match created_pr(output) {
            Err(fault) => StepView::Done(Err(fault)),
            Ok(pr) => if self.draft {
                StepView::Done(Ok(OutcomeView::OpenedDraftPr { pr_number: pr }))
            } else {
                StepView::Next(self.at(Phase::Merge { landing, pr }))
            },
        }
    }

    /// What follows once it is known whether a version is taken.
    pub open spec fn probed(self, version: u32, taken: bool) -> StepView {
        if !taken {
            StepView::Next(self.at(Phase::CreateBranch { version }))
        } else if version < LAST_VERSION {
            StepView::Next(self.at(Phase::ProbeLocal { version: (version + 1) as u32 }))
        } else {
            StepView::Done(Err(plain(exhausted_text(self.branch))))
        }
    }

    /// What the reply to the command leads to.
    pub open spec fn step(self, reply: ReplyView) -> StepView {
        match self.phase {
            Phase::Classify(phase) => match self.classification(phase).step(reply) {
                ClassifyStepView::Next(next) => StepView::Next(
                    RunView {
                        local_head: next.local_head,
                        phase: Phase::Classify(next.phase),
                        ..self
                    },
                ),
                ClassifyStepView::Done(Err(fault)) => StepView::Done(Err(fault)),
                ClassifyStepView::Done(Ok(state)) => self.dispatch(state),
            },
            Phase::FirstPush => self.proceed(
                reply,
                "initial push to origin failed"@,
                Phase::FindPr(RemoteState::Absent),
            ),
            Phase::Rebase => self.proceed(
                reply,
                "rebase onto origin/<branch> failed"@,
                Phase::PushRebased,
            ),
            Phase::PushRebased => self.proceed(
                reply,
                "push after rebase failed"@,
                Phase::FindPr(RemoteState::Ahead),
            ),
            Phase::PushAhead { ahead } => self.proceed(
                reply,
                "push to origin failed"@,
                Phase::FindPr(RemoteState::Diverges { behind: 0, ahead }),
            ),
            Phase::FindPr(state) => self.found_pr(state, reply),
            Phase::ReadTitle(state) => self.titled(reply, Phase::OpenPr(state)),
            Phase::OpenPr(state) => match reply {
                ReplyView::Failure { fault, .. } => StepView::Done(Err(fault)),
                ReplyView::Output(output) => self.opened_pr(Landing::Feature(state), output),
            },
            Phase::ProbeLocal { version } => StepView::Next(
                self.at(Phase::ProbeRemote { version, local_exists: reply is Output }),
            ),
            Phase::ProbeRemote { version, local_exists } => self.probed(
                version,
                local_exists || (reply is Output && trimmed(reply->Output_0).len() > 0),
            ),
            Phase::CreateBranch { version } => self.proceed(
                reply,
                "failed to create -vN branch"@,
                Phase::PushBranch { version },
            ),
            Phase::PushBranch { version } => self.proceed(
                reply,
                "failed to push -vN branch"@,
                Phase::FindOldPr { version },
            ),
            Phase::FindOldPr { version } => match listed_pr(reply) {
                Err(fault) => StepView::Done(Err(fault)),
                Ok(Some(old_pr)) => StepView::Next(
                    self.at(Phase::CloseOldPr { version, old_pr }),
                ),
                Ok(None) => StepView::Next(
                    self.at(Phase::ReadNewTitle { version, closed_pr: None }),
                ),
            },
            Phase::CloseOldPr { version, old_pr } => self.proceed(
                reply,
                "failed to close superseded PR"@,
                Phase::ReadNewTitle { version, closed_pr: Some(old_pr) },
            ),
            Phase::ReadNewTitle { version, closed_pr } => self.titled(
                reply,
                Phase::OpenNewPr { version, closed_pr },
            ),
            Phase::OpenNewPr { version, closed_pr } => match reply {
                ReplyView::Failure { fault, .. } => StepView::Done(
                    Err(fault.within("failed to create replacement PR"@)),
                ),
                ReplyView::Output(output) => self.opened_pr(
                    Landing::Replacement { version, closed_pr },
                    output,
                ),
            },
            Phase::Merge { landing, pr } => match reply {
                ReplyView::Failure { fault, .. } => StepView::Done(
                    Err(
                        fault.within("squash-merge PUT returned non-success"@).within(
                            landing.merge_context(),
                        ),
                    ),
                ),
                ReplyView::Output(_) => StepView::Next(
                    self.at(Phase::DeleteBranch { landing, pr }),
                ),
            },
            Phase::DeleteBranch { landing, pr } => match reply {
                ReplyView::Failure { fault, complaint } => if already_gone(complaint) {
                    StepView::Next(self.at(Phase::FetchTarget { landing, pr }))
                } else {
                    StepView::Done(
                        Err(
                            fault.within("delete remote branch via gh api failed"@).within(
                                landing.merge_context(),
                            ),
                        ),
                    )
                },
                ReplyView::Output(_) => StepView::Next(
                    self.at(Phase::FetchTarget { landing, pr }),
                ),
            },
            Phase::FetchTarget { landing, pr } => match reply {
                ReplyView::Failure { fault, .. } => StepView::Done(Err(fault)),
                ReplyView::Output(_) => StepView::Next(
                    self.at(Phase::AdvanceTarget { landing, pr }),
                ),
            },
            Phase::AdvanceTarget { landing, pr } => match reply {
                ReplyView::Failure { fault, .. } => StepView::Done(
                    Err(
                        fault.within(
                            "failed to advance local "@ + self.target_branch + " to origin/"@
                                + self.target_branch,
                        ),
                    ),
                ),
                ReplyView::Output(_) => StepView::Done(Ok(landing.outcome(self.branch, pr))),
            },
        }
    }
}

/// A reconciliation that has not asked anything yet.
pub open spec fn unreconciled(
    branch: Seq<char>,
    target_branch: Seq<char>,
    strategy: RemoteDivergenceStrategy,
    auto_open_pr_if_missing: bool,
    draft: bool,
) -> RunView {
    RunView {
        branch,
        target_branch,
        strategy,
        auto_open_pr_if_missing,
        draft,
        local_head: Seq::empty(),
        title: Seq::empty(),
        phase: Phase::Classify(ClassifyPhase::Query),
    }
}

/// Begins to reconcile `origin/<branch>` with local HEAD and to push.
///
/// * `branch`: the feature branch being merged (local current branch).
/// * `target_branch`: the merge target (usually `main`).
/// * `strategy`: what to do when the remote has diverged.
/// * `auto_open_pr_if_missing`: whether to create a PR where the landing needs
///   one that doesn't exist.
/// * `draft`: whether a PR that is created is a draft. A draft is not merged.
pub fn reconcile_and_push(
    branch: &str,
    target_branch: &str,
    strategy: RemoteDivergenceStrategy,
    auto_open_pr_if_missing: bool,
    draft: bool,
) -> (r: ReconcileRun)
    ensures
        r@ == unreconciled(branch@, target_branch@, strategy, auto_open_pr_if_missing, draft),
{
    ReconcileRun {
        branch: branch.to_owned(),
        target_branch: target_branch.to_owned(),
        strategy,
        auto_open_pr_if_missing,
        draft,
        local_head: String::new(),
        title: String::new(),
        phase: Phase::Classify(ClassifyPhase::Query),
    }
}

/// The command that lists the open PR of a branch.
fn list_pr(branch: &str) -> (r: Command)
    ensures
        r@ == list_command(branch@),
{
    gh_command(
        &[
            "pr",
            "list",
            "--head",
            branch,
            "--state",
            "open",
            "--json",
            "number",
            "--jq",
            ".[0].number",
        ],
    )
}

/// The command that opens a PR.
fn create_pr(draft: bool, base: &str, head: &str, title: &str, body: &str) -> (r: Command)
    ensures
        r@ == gh(create_args(draft, base@, head@, title@, body@)),
{
    if draft {
        gh_command(
            &[
                "pr",
                "create",
                "--draft",
                "--base",
                base,
                "--head",
                head,
                "--title",
                title,
                "--body",
                body,
            ],
        )
    } else {
        gh_command(
            &["pr", "create", "--base", base, "--head", head, "--title", title, "--body", body],
        )
    }
}

impl Landing {
    /// The branch that is merged.
    fn head_of(&self, branch: &str) -> (r: String)
        ensures
            r@ == self.head(branch@),
    {
        match self {
            Landing::Feature(_) => branch.to_owned(),
            Landing::Replacement { version, .. } => versioned_name(branch, *version),
        }
    }

    /// Reports a failed merge as this landing does.
    fn failed(&self, fault: Fault) -> (r: Fault)
        ensures
            r@ == fault@.within(self.merge_context()),
    {
        match self {
            Landing::Feature(_) => fault.within("squash-merge via GitHub REST API failed"),
            Landing::Replacement { .. } => fault.within("failed to squash-merge replacement PR"),
        }
    }

    /// The outcome once the merge is there.
    fn landed(&self, branch: &str, pr: u32) -> (r: ReconcileOutcome)
        ensures
            r@ == self.outcome(branch@, pr),
    {
        match self {
            Landing::Feature(state) => match state {
                RemoteState::Absent => ReconcileOutcome::FirstPush { pr_number: pr },
                RemoteState::InSync => ReconcileOutcome::AlreadyPushed { pr_number: pr },
                RemoteState::Ahead => ReconcileOutcome::RebasedAndPushed { pr_number: pr },
                RemoteState::Diverges { behind, .. } => if *behind == 0 {
                    ReconcileOutcome::FastForwarded { pr_number: pr }
                } else {
                    ReconcileOutcome::RemoteSquashed { pr_number: pr }
                },
            },
            Landing::Replacement { version, closed_pr } => ReconcileOutcome::Restacked {
                new_branch: versioned_name(branch, *version),
                closed_pr: *closed_pr,
                new_pr: pr,
            },
        }
    }
}

impl ReconcileRun {
    /// The command that the run stands before.
    pub fn command(&self) -> (r: Command)
        ensures
            r@ == self@.command(),
    {
        let branch = self.branch.as_str();
        let target = self.target_branch.as_str();
        let title = self.title.as_str();
        match self.phase {
            Phase::Classify(phase) => {
                let run = ClassifyRun {
                    branch: self.branch.clone(),
                    local_head: self.local_head.clone(),
                    phase,
                };
                run.command()
            },
            Phase::FirstPush => git_command(&["push", "-u", "origin", branch]),
            Phase::Rebase => {
                let remote = remote_ref_of(branch);
                git_command(&["rebase", remote.as_str()])
            },
            Phase::PushRebased => git_command(&["push", "origin", branch]),
            Phase::PushAhead { .. } => git_command(&["push", "origin", branch]),
            Phase::FindPr(_) => list_pr(branch),
            Phase::ReadTitle(_) => git_command(&["log", "-1", "--format=%s", "HEAD"]),
            Phase::OpenPr(_) => {
                let body = opening_body(branch, target);
                create_pr(self.draft, target, branch, title, body.as_str())
            },
            Phase::ProbeLocal { version } => {
                let name = versioned_name(branch, version);
                let full = "refs/heads/".to_owned().concat(name.as_str());
                git_command(&["show-ref", "--verify", "--quiet", full.as_str()])
            },
            Phase::ProbeRemote { version, .. } => {
                let name = versioned_name(branch, version);
                git_command(&["ls-remote", "--heads", "origin", name.as_str()])
            },
            Phase::CreateBranch { version } => {
                let name = versioned_name(branch, version);
                git_command(&["branch", name.as_str(), "HEAD"])
            },
            Phase::PushBranch { version } => {
                let name = versioned_name(branch, version);
                git_command(&["push", "-u", "origin", name.as_str()])
            },
            Phase::FindOldPr { .. } => list_pr(branch),
            Phase::CloseOldPr { version, old_pr } => {
                let name = versioned_name(branch, version);
                let comment = closing_comment(name.as_str());
                let number = decimal_text(old_pr as u64);
                gh_command(&["pr", "close", number.as_str(), "--comment", comment.as_str()])
            },
            Phase::ReadNewTitle { .. } => git_command(&["log", "-1", "--format=%s", "HEAD"]),
            Phase::OpenNewPr { version, closed_pr } => {
                let name = versioned_name(branch, version);
                let body = supersession_body(branch, closed_pr);
                create_pr(self.draft, target, name.as_str(), title, body.as_str())
            },
            Phase::Merge { pr, .. } => {
                let path = pr_merge_api_path(pr);
                gh_command(&["api", "-X", "PUT", path.as_str(), "-f", "merge_method=squash"])
            },
            Phase::DeleteBranch { landing, .. } => {
                let head = landing.head_of(branch);
                let path = branch_ref_api_path(head.as_str());
                gh_command(&["api", "-X", "DELETE", path.as_str()])
            },
            Phase::FetchTarget { .. } => git_command(&["fetch", "origin", target]),
            Phase::AdvanceTarget { .. } => {
                let local = "refs/heads/".to_owned().concat(target);
                let remote = "refs/remotes/origin/".to_owned().concat(target);
                git_command(&["update-ref", local.as_str(), remote.as_str()])
            },
        }
    }

    fn at(self, phase: Phase) -> (r: ReconcileStep)
        ensures
            r@ == StepView::Next(self@.at(phase)),
    {
        ReconcileStep::Next(ReconcileRun { phase, ..self })
    }

    fn proceed(self, reply: Reply, context: &str, phase: Phase) -> (r: ReconcileStep)
        ensures
            r@ == self@.proceed(reply@, context@, phase),
    {
        match reply {
            Reply::Failure { fault, .. } => ReconcileStep::Done(Err(fault.within(context))),
            Reply::Output(_) => self.at(phase),
        }
    }

    fn titled(self, reply: Reply, phase: Phase) -> (r: ReconcileStep)
        ensures
            r@ == self@.titled(reply@, phase),
    {
        match reply {
            Reply::Failure { fault, .. } => ReconcileStep::Done(Err(fault)),
            Reply::Output(output) => ReconcileStep::Next(
                ReconcileRun { title: trim(output.as_str()).to_owned(), phase, ..self },
            ),
        }
    }

    fn opened_pr(self, landing: Landing, output: &str) -> (r: ReconcileStep)
        ensures
            r@ == self@.opened_pr(landing, output@),
    {
        match read_created_pr(output) {
            Err(fault) => ReconcileStep::Done(Err(fault)),
            Ok(pr) => if self.draft {
                ReconcileStep::Done(Ok(ReconcileOutcome::OpenedDraftPr { pr_number: pr }))
            } else {
                self.at(Phase::Merge { landing, pr })
            },
        }
    }

    /// What follows once the remote state is known: the step that pushes or
    /// lands the branch, or, for a remote that collides with local HEAD, what
    /// the strategy asks for.
    pub fn dispatch(self, state: RemoteState) -> (r: ReconcileStep)
        ensures
            r@ == self@.dispatch(state),
    {
        match state {
            RemoteState::Absent => self.at(Phase::FirstPush),
            RemoteState::InSync => self.at(Phase::FindPr(state)),
            RemoteState::Ahead => self.at(Phase::Rebase),
            RemoteState::Diverges { behind: 0, ahead } => self.at(Phase::PushAhead { ahead }),
            RemoteState::Diverges { .. } => match self.strategy {
                RemoteDivergenceStrategy::RemoteSquash => self.at(Phase::FindPr(state)),
                RemoteDivergenceStrategy::Restack => self.at(Phase::ProbeLocal { version: 2 }),
                RemoteDivergenceStrategy::Abort => {
                    let message = abort_message(self.branch.as_str(), self.target_branch.as_str());
                    ReconcileStep::Done(Err(Fault::new(message)))
                },
            },
        }
    }

    fn found_pr(self, state: RemoteState, reply: Reply) -> (r: ReconcileStep)
        ensures
            r@ == self@.found_pr(state, reply@),
    {
        match read_listed_pr(reply) {
            Err(fault) => ReconcileStep::Done(Err(fault)),
            Ok(Some(pr)) => self.at(Phase::Merge { landing: Landing::Feature(state), pr }),
            Ok(None) => if self.auto_open_pr_if_missing {
                self.at(Phase::ReadTitle(state))
            } else {
                let message = missing_pr_message(
                    self.branch.as_str(),
                    self.target_branch.as_str(),
                );
                ReconcileStep::Done(Err(Fault::new(message)))
            },
        }
    }

    fn probed(self, version: u32, taken: bool) -> (r: ReconcileStep)
        ensures
            r@ == self@.probed(version, taken),
    {
        if !taken {
            self.at(Phase::CreateBranch { version })
        } else if version < LAST_VERSION {
            self.at(Phase::ProbeLocal { version: version + 1 })
        } else {
            let message = "exhausted -v2..-v99 candidates for branch '".to_owned().concat(
                self.branch.as_str(),
            ).concat("'; clean up old restacks");
            ReconcileStep::Done(Err(Fault::new(message)))
        }
    }

    /// Takes the reply to the command.
    pub fn resume(self, reply: Reply) -> (r: ReconcileStep)
        ensures
            r@ == self@.step(reply@),
    {
        match self.phase {
            Phase::Classify(phase) => {
                let run = ClassifyRun {
                    branch: self.branch.clone(),
                    local_head: self.local_head.clone(),
                    phase,
                };
                match run.resume(reply) {
                    ClassifyStep::Next(next) => ReconcileStep::Next(
                        ReconcileRun {
                            local_head: next.local_head,
                            phase: Phase::Classify(next.phase),
                            ..self
                        },
                    ),
                    ClassifyStep::Done(Err(fault)) => ReconcileStep::Done(Err(fault)),
                    ClassifyStep::Done(Ok(state)) => self.dispatch(state),
                }
            },
            Phase::FirstPush => self.proceed(
                reply,
                "initial push to origin failed",
                Phase::FindPr(RemoteState::Absent),
            ),
            Phase::Rebase => self.proceed(
                reply,
                "rebase onto origin/<branch> failed",
                Phase::PushRebased,
            ),
            Phase::PushRebased => self.proceed(
                reply,
                "push after rebase failed",
                Phase::FindPr(RemoteState::Ahead),
            ),
            Phase::PushAhead { ahead } => self.proceed(
                reply,
                "push to origin failed",
                Phase::FindPr(RemoteState::Diverges { behind: 0, ahead }),
            ),
            Phase::FindPr(state) => self.found_pr(state, reply),
            Phase::ReadTitle(state) => self.titled(reply, Phase::OpenPr(state)),
            Phase::OpenPr(state) => match reply {
                Reply::Failure { fault, .. } => ReconcileStep::Done(Err(fault)),
                Reply::Output(output) => self.opened_pr(Landing::Feature(state), output.as_str()),
            },
            Phase::ProbeLocal { version } => {
                let local_exists = matches!(reply, Reply::Output(_));
                self.at(Phase::ProbeRemote { version, local_exists })
            },
            Phase::ProbeRemote { version, local_exists } => {
                let remote_exists = match reply {
                    Reply::Output(output) => !trim(output.as_str()).is_empty(),
                    Reply::Failure { .. } => false,
                };
                self.probed(version, local_exists || remote_exists)
            },
            Phase::CreateBranch { version } => self.proceed(
                reply,
                "failed to create -vN branch",
                Phase::PushBranch { version },
            ),
            Phase::PushBranch { version } => self.proceed(
                reply,
                "failed to push -vN branch",
                Phase::FindOldPr { version },
            ),
            Phase::FindOldPr { version } => match read_listed_pr(reply) {
                Err(fault) => ReconcileStep::Done(Err(fault)),
                Ok(Some(old_pr)) => self.at(Phase::CloseOldPr { version, old_pr }),
                Ok(None) => self.at(Phase::ReadNewTitle { version, closed_pr: None }),
            },
            Phase::CloseOldPr { version, old_pr } => self.proceed(
                reply,
                "failed to close superseded PR",
                Phase::ReadNewTitle { version, closed_pr: Some(old_pr) },
            ),
            Phase::ReadNewTitle { version, closed_pr } => self.titled(
                reply,
                Phase::OpenNewPr { version, closed_pr },
            ),
            Phase::OpenNewPr { version, closed_pr } => match reply {
                Reply::Failure { fault, .. } => ReconcileStep::Done(
                    Err(fault.within("failed to create replacement PR")),
                ),
                Reply::Output(output) => self.opened_pr(
                    Landing::Replacement { version, closed_pr },
                    output.as_str(),
                ),
            },
            Phase::Merge { landing, pr } => match reply {
                Reply::Failure { fault, .. } => ReconcileStep::Done(
                    Err(landing.failed(fault.within("squash-merge PUT returned non-success"))),
                ),
                Reply::Output(_) => self.at(Phase::DeleteBranch { landing, pr }),
            },
            Phase::DeleteBranch { landing, pr } => match reply {
                Reply::Failure { fault, complaint } => {
                    let gone = is_already_gone(complaint.as_str());
                    if gone {
                        self.at(Phase::FetchTarget { landing, pr })
                    } else {
                        ReconcileStep::Done(
                            Err(
                                landing.failed(
                                    fault.within("delete remote branch via gh api failed"),
                                ),
                            ),
                        )
                    }
                },
                Reply::Output(_) => self.at(Phase::FetchTarget { landing, pr }),
            },
            Phase::FetchTarget { landing, pr } => match reply {
                Reply::Failure { fault, .. } => ReconcileStep::Done(Err(fault)),
                Reply::Output(_) => self.at(Phase::AdvanceTarget { landing, pr }),
            },
            Phase::AdvanceTarget { landing, pr } => match reply {
                Reply::Failure { fault, .. } => {
                    let context = "failed to advance local ".to_owned().concat(
                        self.target_branch.as_str(),
                    ).concat(" to origin/").concat(self.target_branch.as_str());
                    ReconcileStep::Done(Err(fault.within(context.as_str())))
                },
                Reply::Output(_) => ReconcileStep::Done(
                    Ok(landing.landed(self.branch.as_str(), pr)),
                ),
            },
        }
    }
}

} // verus!
