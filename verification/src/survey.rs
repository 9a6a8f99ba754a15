//! Finding out what a worktree is to a cleanup.
//!
//! Most worktrees are settled by what the list of worktrees says of them. Only
//! one that has a branch, is present and is not locked is looked into: first for
//! uncommitted changes, then for commits that the target lacks.

use vstd::prelude::*;
use crate::answer::{Answer, AnswerView};
use crate::clean::{Classification, ClassificationView};
use crate::command::{Command, CommandView, git, git_command};
use crate::text::{optional, trim, trimmed};

verus! {

/// What the list of worktrees says of one of them.
#[derive(Debug, Clone, PartialEq, Eq)]
pub struct WorktreeFacts {
    /// Whether the cleanup was started in it.
    pub current: bool,
    /// Whether it is the primary one.
    pub primary: bool,
    /// Why it is locked, if it is.
    pub locked: Option<String>,
    /// Whether its metadata can be pruned.
    pub prunable: bool,
    /// Whether its directory is there.
    pub exists: bool,
    pub detached: bool,
    pub branch: Option<String>,
}

/// The content of [`WorktreeFacts`].
#[verifier::ext_equal]
pub struct FactsView {
    pub current: bool,
    pub primary: bool,
    pub locked: Option<Seq<char>>,
    pub prunable: bool,
    pub exists: bool,
    pub detached: bool,
    pub branch: Option<Seq<char>>,
}

impl View for WorktreeFacts {
    type V = FactsView;

    open spec fn view(&self) -> FactsView {
        FactsView {
            current: self.current,
            primary: self.primary,
            locked: optional(self.locked),
            prunable: self.prunable,
            exists: self.exists,
            detached: self.detached,
            branch: optional(self.branch),
        }
    }
}

/// What a survey asks for.
#[derive(Debug, PartialEq, Eq)]
pub enum SurveyAction {
    /// Run a command in the worktree and tell what it printed.
    Output(Command),
    /// Say whether a command of the repository ends successfully.
    Check(Command),
}

/// The content of a [`SurveyAction`].
#[verifier::ext_equal]
pub enum SurveyActionView {
    Output(CommandView),
    Check(CommandView),
}

impl View for SurveyAction {
    type V = SurveyActionView;

    open spec fn view(&self) -> SurveyActionView {
        match self {
            SurveyAction::Output(command) => SurveyActionView::Output(command@),
            SurveyAction::Check(command) => SurveyActionView::Check(command@),
        }
    }
}

/// What a [`SurveyRun`] stands before.
#[derive(Debug, Clone, Copy, PartialEq, Eq, Structural)]
pub enum SurveyPhase {
    /// Look for uncommitted changes.
    Status,
    /// Look for commits that the target lacks.
    Ancestry,
}

/// A survey under way, of a worktree with a branch.
#[derive(Debug, Clone, PartialEq, Eq)]
pub struct SurveyRun {
    pub branch: String,
    pub target_branch: String,
    pub phase: SurveyPhase,
}

/// The content of a [`SurveyRun`].
#[verifier::ext_equal]
pub struct SurveyView {
    pub branch: Seq<char>,
    pub target_branch: Seq<char>,
    pub phase: SurveyPhase,
}

impl View for SurveyRun {
    type V = SurveyView;

    open spec fn view(&self) -> SurveyView {
        SurveyView {
            branch: self.branch@,
            target_branch: self.target_branch@,
            phase: self.phase,
        }
    }
}

/// What an answer leads to.
#[derive(Debug, PartialEq, Eq)]
pub enum SurveyStep {
    /// There is more to ask.
    Next(SurveyRun),
    /// What the worktree is.
    Done(Classification),
}

/// The content of a [`SurveyStep`].
#[verifier::ext_equal]
pub enum SurveyStepView {
    Next(SurveyView),
    Done(ClassificationView),
}

impl View for SurveyStep {
    type V = SurveyStepView;

    open spec fn view(&self) -> SurveyStepView {
        match self {
            SurveyStep::Next(run) => SurveyStepView::Next(run@),
            SurveyStep::Done(classification) => SurveyStepView::Done(classification@),
        }
    }
}

/// How a survey begins. What comes first in this order counts: the current
/// worktree, the primary one, a locked one, one whose directory is gone, one
/// without a branch.
pub open spec fn surveyed(facts: FactsView, target_branch: Seq<char>) -> SurveyStepView {
    if facts.current {
        SurveyStepView::Done(ClassificationView::Current)
    } else if facts.primary {
        SurveyStepView::Done(ClassificationView::Primary)
    } else if facts.locked is Some {
        SurveyStepView::Done(ClassificationView::Locked { reason: facts.locked->Some_0 })
    } else if facts.prunable || !facts.exists {
        SurveyStepView::Done(ClassificationView::Prunable)
    } else if facts.detached || facts.branch is None {
        SurveyStepView::Done(ClassificationView::DetachedHead)
    } else {
        SurveyStepView::Next(
            SurveyView {
                branch: facts.branch->Some_0,
                target_branch,
                phase: SurveyPhase::Status,
            },
        )
    }
}

/// Whether an answer tells of uncommitted changes.
pub open spec fn shows_changes(answer: AnswerView) -> bool {
    answer matches AnswerView::Text(text) && trimmed(text).len() > 0
}

impl SurveyView {
    /// What the survey asks for.
    pub open spec fn action(self) -> SurveyActionView {
        match self.phase {
            SurveyPhase::Status => SurveyActionView::Output(
                git(seq!["status"@, "--porcelain"@]),
            ),
            SurveyPhase::Ancestry => SurveyActionView::Check(
                git(seq!["merge-base"@, "--is-ancestor"@, self.branch, self.target_branch]),
            ),
        }
    }

    /// What the answer leads to. A status that cannot be found out counts as
    /// clean, an ancestry that cannot be found out as not merged.
    pub open spec fn step(self, answer: AnswerView) -> SurveyStepView {
        match self.phase {
            SurveyPhase::Status => if shows_changes(answer) {
                SurveyStepView::Done(ClassificationView::Dirty)
            } else {
                SurveyStepView::Next(SurveyView { phase: SurveyPhase::Ancestry, ..self })
            },
            SurveyPhase::Ancestry => if answer.holds() {
                SurveyStepView::Done(ClassificationView::Merged { branch: self.branch })
            } else {
                SurveyStepView::Done(ClassificationView::NotMerged { branch: self.branch })
            },
        }
    }
}

impl SurveyStepView {
    /// Where a number of answers leads.
    pub open spec fn after(self, answers: Seq<AnswerView>) -> SurveyStepView
        decreases answers.len(),
    {
        if answers.len() == 0 {
            self
        } else {
            match self {
                SurveyStepView::Next(run) => run.step(answers.first()).after(answers.drop_first()),
                done => done,
            }
        }
    }
}

/// Begins to classify a worktree.
pub fn classify(facts: &WorktreeFacts, target_branch: &str) -> (r: SurveyStep)
    ensures
        r@ == surveyed(facts@, target_branch@),
{
    if facts.current {
        return SurveyStep::Done(Classification::Current);
    }
    if facts.primary {
        return SurveyStep::Done(Classification::Primary);
    }
    if let Some(reason) = &facts.locked {
        return SurveyStep::Done(Classification::Locked { reason: reason.clone() });
    }
    if facts.prunable || !facts.exists {
        return SurveyStep::Done(Classification::Prunable);
    }
    if facts.detached {
        return SurveyStep::Done(Classification::DetachedHead);
    }
    match &facts.branch {
        None => SurveyStep::Done(Classification::DetachedHead),
        Some(branch) => SurveyStep::Next(
            SurveyRun {
                branch: branch.clone(),
                target_branch: target_branch.to_owned(),
                phase: SurveyPhase::Status,
            },
        ),
    }
}

impl SurveyRun {
    /// What the survey asks for.
    pub fn action(&self) -> (r: SurveyAction)
        ensures
            r@ == self@.action(),
    {
        match self.phase {
            SurveyPhase::Status => SurveyAction::Output(git_command(&["status", "--porcelain"])),
            SurveyPhase::Ancestry => SurveyAction::Check(
                git_command(
                    &[
                        "merge-base",
                        "--is-ancestor",
                        self.branch.as_str(),
                        self.target_branch.as_str(),
                    ],
                ),
            ),
        }
    }

    /// Goes on with what was found out.
    pub fn resume(self, answer: &Answer) -> (r: SurveyStep)
        ensures
            r@ == self@.step(answer@),
    {
        match self.phase {
            SurveyPhase::Status => {
                if let Answer::Text(text) = answer {
                    if !trim(text.as_str()).is_empty() {
                        return SurveyStep::Done(Classification::Dirty);
                    }
                }
                SurveyStep::Next(SurveyRun { phase: SurveyPhase::Ancestry, ..self })
            },
            SurveyPhase::Ancestry => if answer.holds() {
                SurveyStep::Done(Classification::Merged { branch: self.branch })
            } else {
                SurveyStep::Done(Classification::NotMerged { branch: self.branch })
            },
        }
    }
}

/// The worktree in which a cleanup was started is classified as the current
/// one, whatever else holds of it, and nothing is asked.
pub proof fn the_current_worktree_is_current(
    facts: FactsView,
    target_branch: Seq<char>,
    answers: Seq<AnswerView>,
)
    ensures
        surveyed(facts, target_branch).after(answers) == SurveyStepView::Done(
            ClassificationView::Current,
        ) <==> facts.current,
{
    reveal_with_fuel(SurveyStepView::after, 4);
}

/// Two answers settle what a worktree is.
pub proof fn every_survey_ends(
    facts: FactsView,
    target_branch: Seq<char>,
    answers: Seq<AnswerView>,
)
    requires
        answers.len() >= 2,
    ensures
        surveyed(facts, target_branch).after(answers) is Done,
{
    reveal_with_fuel(SurveyStepView::after, 4);
}

/// A worktree that is there counts as merged only if it was not seen to have
/// changes, and its branch was found to be an ancestor of the target.
pub proof fn what_is_merged_holds_nothing_new(
    facts: FactsView,
    target_branch: Seq<char>,
    answers: Seq<AnswerView>,
    branch: Seq<char>,
)
    requires
        surveyed(facts, target_branch).after(answers) == SurveyStepView::Done(
            ClassificationView::Merged { branch },
        ),
    ensures
        facts.branch == Some(branch),
        !facts.current && !facts.primary && facts.locked is None && facts.exists
            && !facts.detached,
        answers.len() >= 2,
        !shows_changes(answers[0]),
        answers[1] is Yes,
{
    reveal_with_fuel(SurveyStepView::after, 4);
    if answers.len() >= 1 {
        let rest = answers.drop_first();
        if rest.len() >= 1 {
            assert(rest.first() == answers[1]);
        }
    }
}

} // verus!
