//! How a branch on the remote relates to the local HEAD.
//!
//! Finding out takes up to six commands. A [`ClassifyRun`] stands before one of
//! them; the reply to it leads to the next one or to the answer.

use vstd::prelude::*;
use crate::command::{Command, CommandView, Reply, ReplyView, git, git_command};
use crate::fault::{Fault, FaultView, number_fault, result_view};
use crate::text::{number, parse_number, trim, trimmed};

verus! {

/// Snapshot of how local HEAD relates to `origin/<branch>`.
#[derive(Debug, Clone, Copy, PartialEq, Eq, Structural)]
pub enum RemoteState {
    /// `origin/<branch>` does not exist. First push; no reconciliation needed.
    Absent,
    /// `origin/<branch>` points at the same commit as local HEAD. No-op.
    InSync,
    /// Local and remote share a base but have diverged: remote has `behind`
    /// commits not in local, local has `ahead` commits not in remote. When
    /// `behind == 0` the push is a fast-forward and is treated as a normal push.
    /// When `behind > 0` this is the collision that needs reconciliation.
    Diverges { behind: u32, ahead: u32 },
    /// Remote is strictly ahead of local (someone pushed while we were
    /// working). Reconcile by rebasing local onto remote, then retry.
    Ahead,
}

/// Which command a [`ClassifyRun`] stands before.
#[derive(Debug, Clone, Copy, PartialEq, Eq, Structural)]
pub enum ClassifyPhase {
    /// Ask the remote whether it has the branch, without touching local refs.
    Query,
    /// Bring the tracking ref up to date.
    Fetch,
    /// Read the commit at local HEAD.
    LocalHead,
    /// Read the commit at the tracking ref.
    RemoteHead,
    /// Count the commits that only the remote has.
    CountBehind,
    /// Count the commits that only local HEAD has.
    CountAhead { behind: u32 },
}

/// A classification under way.
#[derive(Debug, Clone, PartialEq, Eq)]
pub struct ClassifyRun {
    pub branch: String,
    /// The commit at local HEAD, once it is read.
    pub local_head: String,
    pub phase: ClassifyPhase,
}

/// The content of a [`ClassifyRun`].
#[verifier::ext_equal]
pub struct ClassifyView {
    pub branch: Seq<char>,
    pub local_head: Seq<char>,
    pub phase: ClassifyPhase,
}

impl View for ClassifyRun {
    type V = ClassifyView;

    open spec fn view(&self) -> ClassifyView {
        ClassifyView { branch: self.branch@, local_head: self.local_head@, phase: self.phase }
    }
}

/// What a reply leads to.
#[derive(Debug, PartialEq, Eq)]
pub enum ClassifyStep {
    /// There is another command to run.
    Next(ClassifyRun),
    /// The classification is over.
    Done(Result<RemoteState, Fault>),
}

/// The content of a [`ClassifyStep`].
#[verifier::ext_equal]
pub enum ClassifyStepView {
    Next(ClassifyView),
    Done(Result<RemoteState, FaultView>),
}

impl View for ClassifyStep {
    type V = ClassifyStepView;

    open spec fn view(&self) -> ClassifyStepView {
        match self {
            ClassifyStep::Next(run) => ClassifyStepView::Next(run@),
            ClassifyStep::Done(result) => ClassifyStepView::Done(result_view(*result)),
        }
    }
}

/// The tracking ref of a branch.
pub open spec fn remote_ref(branch: Seq<char>) -> Seq<char> {
    "origin/"@ + branch
}

/// The tracking ref of a branch.
pub fn remote_ref_of(branch: &str) -> (r: String)
    ensures
        r@ == remote_ref(branch@),
{
    "origin/".to_owned().concat(branch)
}

/// The commits that the remote has and local HEAD lacks.
pub open spec fn behind_range(branch: Seq<char>) -> Seq<char> {
    "HEAD.."@ + remote_ref(branch)
}

/// The commits that local HEAD has and the remote lacks.
pub open spec fn ahead_range(branch: Seq<char>) -> Seq<char> {
    remote_ref(branch) + "..HEAD"@
}

/// The number of commits in a range, read from the reply to the count.
pub open spec fn commit_count(range: Seq<char>, reply: ReplyView) -> Result<u32, FaultView> {
    match reply {
        ReplyView::Failure { fault, .. } => Err(fault),
        ReplyView::Output(output) => match number(trimmed(output)) {
            Ok(n) => Ok(n),
            Err(e) => Err(
                number_fault(e).within("failed to parse commit count for range "@ + range),
            ),
        },
    }
}

/// Reads the number of commits in a range from the reply to the count.
pub fn count_commits(range: &str, reply: Reply) -> (r: Result<u32, Fault>)
    ensures
        result_view(r) == commit_count(range@, reply@),
{
    match reply {
        Reply::Failure { fault, .. } => Err(fault),
        Reply::Output(output) => match parse_number(trim(output.as_str())) {
            Ok(n) => Ok(n),
            Err(e) => {
                let context = "failed to parse commit count for range ".to_owned().concat(range);
                Err(Fault::of_number(e).within(context.as_str()))
            },
        },
    }
}

/// How two different commits relate, given how many commits each side has that
/// the other lacks.
pub open spec fn relation(behind: u32, ahead: u32) -> RemoteState {
    if ahead == 0 && behind > 0 {
        RemoteState::Ahead
    } else {
        RemoteState::Diverges { behind, ahead }
    }
}

impl ClassifyView {
    /// The command that the run stands before.
    pub open spec fn command(self) -> CommandView {
        match self.phase {
            ClassifyPhase::Query => git(seq!["ls-remote"@, "--heads"@, "origin"@, self.branch]),
            ClassifyPhase::Fetch => git(seq!["fetch"@, "origin"@, self.branch]),
            ClassifyPhase::LocalHead => git(seq!["rev-parse"@, "HEAD"@]),
            ClassifyPhase::RemoteHead => git(seq!["rev-parse"@, remote_ref(self.branch)]),
            ClassifyPhase::CountBehind => git(
                seq!["rev-list"@, "--count"@, behind_range(self.branch)],
            ),
            ClassifyPhase::CountAhead { .. } => git(
                seq!["rev-list"@, "--count"@, ahead_range(self.branch)],
            ),
        }
    }

    /// The run before another command.
    pub open spec fn at(self, phase: ClassifyPhase) -> ClassifyView {
        ClassifyView { phase, ..self }
    }

    /// What the reply to the command leads to.
    pub open spec fn step(self, reply: ReplyView) -> ClassifyStepView {
        match self.phase {
            ClassifyPhase::Query => match reply {
                ReplyView::Failure { fault, .. } => ClassifyStepView::Done(
                    Err(fault.within("failed to query origin for branch state"@)),
                ),
                ReplyView::Output(output) => if trimmed(output).len() == 0 {
                    ClassifyStepView::Done(Ok(RemoteState::Absent))
                } else {
                    ClassifyStepView::Next(self.at(ClassifyPhase::Fetch))
                },
            },
            ClassifyPhase::Fetch => match reply {
                ReplyView::Failure { fault, .. } => ClassifyStepView::Done(
                    Err(fault.within("failed to fetch origin/<branch>"@)),
                ),
                ReplyView::Output(_) => ClassifyStepView::Next(self.at(ClassifyPhase::LocalHead)),
            },
            ClassifyPhase::LocalHead => match reply {
                ReplyView::Failure { fault, .. } => ClassifyStepView::Done(Err(fault)),
                ReplyView::Output(output) => ClassifyStepView::Next(
                    ClassifyView {
                        local_head: trimmed(output),
                        phase: ClassifyPhase::RemoteHead,
                        ..self
                    },
                ),
            },
            ClassifyPhase::RemoteHead => match reply {
                ReplyView::Failure { fault, .. } => ClassifyStepView::Done(Err(fault)),
                ReplyView::Output(output) => if self.local_head == trimmed(output) {
                    ClassifyStepView::Done(Ok(RemoteState::InSync))
                } else {
                    ClassifyStepView::Next(self.at(ClassifyPhase::CountBehind))
                },
            },
            ClassifyPhase::CountBehind => match commit_count(behind_range(self.branch), reply) {
                Err(fault) => ClassifyStepView::Done(Err(fault)),
                Ok(behind) => ClassifyStepView::Next(
                    self.at(ClassifyPhase::CountAhead { behind }),
                ),
            },
            ClassifyPhase::CountAhead { behind } => match commit_count(
                ahead_range(self.branch),
                reply,
            ) {
                Err(fault) => ClassifyStepView::Done(Err(fault)),
                Ok(ahead) => ClassifyStepView::Done(Ok(relation(behind, ahead))),
            },
        }
    }

    /// Where the run stands after several replies.
    pub open spec fn after(self, replies: Seq<ReplyView>) -> ClassifyStepView
        decreases replies.len(),
    {
        if replies.len() == 0 {
            ClassifyStepView::Next(self)
        } else {
            match self.step(replies.first()) {
                ClassifyStepView::Next(next) => next.after(replies.drop_first()),
                ClassifyStepView::Done(result) => ClassifyStepView::Done(result),
            }
        }
    }
}

/// A classification of `branch` that has not asked anything yet.
pub open spec fn unclassified(branch: Seq<char>) -> ClassifyView {
    ClassifyView { branch, local_head: Seq::empty(), phase: ClassifyPhase::Query }
}

/// Begins to classify the remote state of `branch` relative to local HEAD.
pub fn classify_remote_state(branch: &str) -> (r: ClassifyRun)
    ensures
        r@ == unclassified(branch@),
{
    ClassifyRun {
        branch: branch.to_owned(),
        local_head: String::new(),
        phase: ClassifyPhase::Query,
    }
}

impl ClassifyRun {
    /// The command that the run stands before.
    pub fn command(&self) -> (r: Command)
        ensures
            r@ == self@.command(),
    {
        let branch = self.branch.as_str();
        let remote = remote_ref_of(branch);
        match self.phase {
            ClassifyPhase::Query => git_command(&["ls-remote", "--heads", "origin", branch]),
            ClassifyPhase::Fetch => git_command(&["fetch", "origin", branch]),
            ClassifyPhase::LocalHead => git_command(&["rev-parse", "HEAD"]),
            ClassifyPhase::RemoteHead => git_command(&["rev-parse", remote.as_str()]),
            ClassifyPhase::CountBehind => {
                let range = "HEAD..".to_owned().concat(remote.as_str());
                git_command(&["rev-list", "--count", range.as_str()])
            },
            ClassifyPhase::CountAhead { .. } => {
                let range = remote.concat("..HEAD");
                git_command(&["rev-list", "--count", range.as_str()])
            },
        }
    }

    /// Takes the reply to the command.
    pub fn resume(self, reply: Reply) -> (r: ClassifyStep)
        ensures
            r@ == self@.step(reply@),
    {
        match self.phase {
            ClassifyPhase::Query => match reply {
                Reply::Failure { fault, .. } => ClassifyStep::Done(
                    Err(fault.within("failed to query origin for branch state")),
                ),
                Reply::Output(output) => if trim(output.as_str()).is_empty() {
                    ClassifyStep::Done(Ok(RemoteState::Absent))
                } else {
                    ClassifyStep::Next(ClassifyRun { phase: ClassifyPhase::Fetch, ..self })
                },
            },
            ClassifyPhase::Fetch => match reply {
                Reply::Failure { fault, .. } => ClassifyStep::Done(
                    Err(fault.within("failed to fetch origin/<branch>")),
                ),
                Reply::Output(_) => ClassifyStep::Next(
                    ClassifyRun { phase: ClassifyPhase::LocalHead, ..self },
                ),
            },
            ClassifyPhase::LocalHead => match reply {
                Reply::Failure { fault, .. } => ClassifyStep::Done(Err(fault)),
                Reply::Output(output) => ClassifyStep::Next(
                    ClassifyRun {
                        local_head: trim(output.as_str()).to_owned(),
                        phase: ClassifyPhase::RemoteHead,
                        ..self
                    },
                ),
            },
            ClassifyPhase::RemoteHead => match reply {
                Reply::Failure { fault, .. } => ClassifyStep::Done(Err(fault)),
                Reply::Output(output) => {
                    let remote_head = trim(output.as_str()).to_owned();
                    if self.local_head == remote_head {
                        ClassifyStep::Done(Ok(RemoteState::InSync))
                    } else {
                        ClassifyStep::Next(
                            ClassifyRun { phase: ClassifyPhase::CountBehind, ..self },
                        )
                    }
                },
            },
            ClassifyPhase::CountBehind => {
                let remote = remote_ref_of(self.branch.as_str());
                let range = "HEAD..".to_owned().concat(remote.as_str());
                match count_commits(range.as_str(), reply) {
                    Err(fault) => ClassifyStep::Done(Err(fault)),
                    Ok(behind) => ClassifyStep::Next(
                        ClassifyRun { phase: ClassifyPhase::CountAhead { behind }, ..self },
                    ),
                }
            },
            ClassifyPhase::CountAhead { behind } => {
                let range = remote_ref_of(self.branch.as_str()).concat("..HEAD");
                match count_commits(range.as_str(), reply) {
                    Err(fault) => ClassifyStep::Done(Err(fault)),
                    Ok(ahead) => if ahead == 0 && behind > 0 {
                        ClassifyStep::Done(Ok(RemoteState::Ahead))
                    } else {
                        ClassifyStep::Done(Ok(RemoteState::Diverges { behind, ahead }))
                    },
                }
            },
        }
    }
}

} // verus!
