//! Answers to what a plan asks of the repository and of the user.

use vstd::prelude::*;
use crate::fault::{Fault, FaultView};
use crate::reconcile::{OutcomeView, ReconcileOutcome};

verus! {

/// What came of a question or a request.
#[derive(Debug, Clone, PartialEq, Eq)]
pub enum Answer {
    /// It holds, or it was done.
    Yes,
    /// It does not hold, or there is no such thing.
    No,
    /// The text that was asked for.
    Text(String),
    /// What a reconciliation came to.
    Reconciled(ReconcileOutcome),
    /// It could not be found out or done.
    Failed(Fault),
}

/// The content of an [`Answer`].
#[verifier::ext_equal]
pub enum AnswerView {
    Yes,
    No,
    Text(Seq<char>),
    Reconciled(OutcomeView),
    Failed(FaultView),
}

impl View for Answer {
    type V = AnswerView;

    open spec fn view(&self) -> AnswerView {
        match self {
            Answer::Yes => AnswerView::Yes,
            Answer::No => AnswerView::No,
            Answer::Text(text) => AnswerView::Text(text@),
            Answer::Reconciled(outcome) => AnswerView::Reconciled(outcome@),
            Answer::Failed(fault) => AnswerView::Failed(fault@),
        }
    }
}

impl AnswerView {
    /// Whether what was asked holds.
    pub open spec fn holds(self) -> bool {
        self is Yes
    }

    /// The text that was asked for, if there is one.
    pub open spec fn text(self) -> Option<Seq<char>> {
        match self {
            AnswerView::Text(text) => Some(text),
            _ => None,
        }
    }
}

impl Answer {
    /// Whether what was asked holds.
    pub fn holds(&self) -> (r: bool)
        ensures
            r == self@.holds(),
    {
        matches!(self, Answer::Yes)
    }
}

} // verus!
