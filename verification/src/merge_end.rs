//! What the user is told of a merge, on the way and at its end.

use vstd::prelude::*;
use crate::fault::{Fault, FaultView};
use crate::text::{decimal, decimal_text, lemma_continues, lemma_ends_with, occurs_in};

verus! {

/// Something to tell the user on the way.
#[derive(Debug, Clone, Copy, PartialEq, Eq, Structural)]
pub enum Note {
    /// The project's commands were declined; the merge goes on without them.
    CommandsDeclined,
    /// A draft PR was opened in place of a merge.
    DraftOpened { pr_number: u32 },
    /// The provider has merged the branch.
    ProviderMerged,
    /// The worktree stays because that was asked for.
    PreservedOnRequest,
    /// The worktree stays because it holds the target branch.
    PreservedOnTarget,
    /// The worktree stays because it is the primary one.
    PreservedPrimary,
}

impl Note {
    /// The note in words.
    pub open spec fn words(self) -> Seq<char> {
        match self {
            Note::CommandsDeclined => "Commands declined, continuing merge"@,
            Note::DraftOpened { pr_number } => "Opened draft PR #"@ + decimal(pr_number as nat)
                + "; merge skipped. Mark it ready for review then re-run `wt merge` to land it."@,
            Note::ProviderMerged =>
                "Provider completed the squash-merge; skipping the redundant local merge."@,
            Note::PreservedOnRequest => "Worktree preserved (--no-remove)"@,
            Note::PreservedOnTarget => "Worktree preserved (already on target branch)"@,
            Note::PreservedPrimary => "Worktree preserved (primary worktree)"@,
        }
    }

    /// The note in words.
    pub fn text(&self) -> (r: String)
        ensures
            r@ == self.words(),
    {
        match self {
            Note::CommandsDeclined => "Commands declined, continuing merge".to_owned(),
            Note::DraftOpened { pr_number } => {
                let number = decimal_text(*pr_number as u64);
                "Opened draft PR #".to_owned().concat(number.as_str()).concat(
                    "; merge skipped. Mark it ready for review then re-run `wt merge` to land it.",
                )
            },
            Note::ProviderMerged =>
                "Provider completed the squash-merge; skipping the redundant local merge.".to_owned(),
            Note::PreservedOnRequest => "Worktree preserved (--no-remove)".to_owned(),
            Note::PreservedOnTarget => "Worktree preserved (already on target branch)".to_owned(),
            Note::PreservedPrimary => "Worktree preserved (primary worktree)".to_owned(),
        }
    }
}

/// What a merge reports at its end.
#[derive(Debug, Clone, PartialEq, Eq)]
pub struct MergeReport {
    /// Whether the report is printed, as JSON.
    pub json: bool,
    pub branch: String,
    pub target: String,
    pub committed: bool,
    pub squashed: bool,
    pub rebased: bool,
    pub removed: bool,
}

/// The content of a [`MergeReport`].
#[verifier::ext_equal]
pub struct ReportView {
    pub json: bool,
    pub branch: Seq<char>,
    pub target: Seq<char>,
    pub committed: bool,
    pub squashed: bool,
    pub rebased: bool,
    pub removed: bool,
}

impl View for MergeReport {
    type V = ReportView;

    open spec fn view(&self) -> ReportView {
        ReportView {
            json: self.json,
            branch: self.branch@,
            target: self.target@,
            committed: self.committed,
            squashed: self.squashed,
            rebased: self.rebased,
            removed: self.removed,
        }
    }
}

/// How a merge ends well.
#[derive(Debug, Clone, PartialEq, Eq)]
pub enum MergeEnd {
    /// A draft PR was opened. Nothing was merged.
    Draft { pr_number: u32 },
    /// The branch was merged.
    Merged(MergeReport),
}

/// The content of a [`MergeEnd`].
#[verifier::ext_equal]
pub enum EndView {
    Draft { pr_number: u32 },
    Merged(ReportView),
}

/// Why a merge ends otherwise.
#[derive(Debug, Clone, PartialEq, Eq)]
pub enum MergeError {
    /// There are uncommitted changes, and nothing is to be committed.
    UncommittedChanges { action: String, branch: String, force_hint: bool },
    /// The branch is not on top of the target, and is not to be rebased.
    NotRebased { target_branch: String },
    /// Something that was asked for failed.
    Failed(Fault),
}

/// The content of a [`MergeError`].
#[verifier::ext_equal]
pub enum MergeErrorView {
    UncommittedChanges { action: Seq<char>, branch: Seq<char>, force_hint: bool },
    NotRebased { target_branch: Seq<char> },
    Failed(FaultView),
}

impl View for MergeEnd {
    type V = EndView;

    open spec fn view(&self) -> EndView {
        match self {
            MergeEnd::Draft { pr_number } => EndView::Draft { pr_number: *pr_number },
            MergeEnd::Merged(report) => EndView::Merged(report@),
        }
    }
}

impl View for MergeError {
    type V = MergeErrorView;

    open spec fn view(&self) -> MergeErrorView {
        match self {
            MergeError::UncommittedChanges { action, branch, force_hint } => {
                MergeErrorView::UncommittedChanges {
                    action: action@,
                    branch: branch@,
                    force_hint: *force_hint,
                }
            },
            MergeError::NotRebased { target_branch } => MergeErrorView::NotRebased {
                target_branch: target_branch@,
            },
            MergeError::Failed(fault) => MergeErrorView::Failed(fault@),
        }
    }
}

/// The note of a draft names its PR.
pub proof fn a_draft_is_noted_by_its_number(pr_number: u32)
    ensures
        occurs_in(
            "draft PR #"@ + decimal(pr_number as nat) + ";"@,
            (Note::DraftOpened { pr_number }).words(),
        ),
{
    reveal_strlit("Opened draft PR #");
    reveal_strlit("draft PR #");
    reveal_strlit(";");
    reveal_strlit(
        "; merge skipped. Mark it ready for review then re-run `wt merge` to land it.",
    );
    let first = "Opened draft PR #"@.take(7);
    let last =
        "; merge skipped. Mark it ready for review then re-run `wt merge` to land it."@;
    let named = "draft PR #"@ + decimal(pr_number as nat) + ";"@;
    assert("Opened draft PR #"@ =~= first + "draft PR #"@);
    assert(last =~= ";"@ + last.skip(1));
    assert((Note::DraftOpened { pr_number }).words() =~= first + named + last.skip(1));
    lemma_ends_with(first, named);
    lemma_continues(named, first + named, last.skip(1));
}

} // verus!
