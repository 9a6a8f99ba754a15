//! Keeping local commits from being dropped by a merge of the pushed branch.
//!
//! A merge that goes through the remote squashes the pull request's branch, not
//! local HEAD. So, before anything is squashed locally, the remote branch must
//! come to hold every local commit, or the merge is refused:
//!
//! - no remote branch: nothing to do, the first push takes everything along;
//! - the remote branch holds local HEAD and the tree is clean: nothing to do;
//! - local HEAD is a clean fast-forward of the remote branch: push it;
//! - uncommitted changes over a remote branch, or histories that diverged:
//!   refuse.

use vstd::prelude::*;
use crate::answer::{Answer, AnswerView};
use crate::command::{Command, CommandView, Program, git, git_command};
use crate::fault::{Fault, FaultView, plain, result_view};
use crate::remote_state::{remote_ref, remote_ref_of};
use crate::text::{lemma_continues, lemma_ends_with, lemma_spans, occurs_in};

verus! {

/// What a guard asks for.
#[derive(Debug, PartialEq, Eq)]
pub enum GuardAction {
    /// Run a command. The answer is a failure where the command fails.
    Run(Command),
    /// Say whether one commit is an ancestor of another.
    IsAncestor { ancestor: String, descendant: String },
}

/// The content of a [`GuardAction`].
#[verifier::ext_equal]
pub enum GuardActionView {
    Run(CommandView),
    IsAncestor { ancestor: Seq<char>, descendant: Seq<char> },
}

impl View for GuardAction {
    type V = GuardActionView;

    open spec fn view(&self) -> GuardActionView {
        match self {
            GuardAction::Run(command) => GuardActionView::Run(command@),
            GuardAction::IsAncestor { ancestor, descendant } => GuardActionView::IsAncestor {
                ancestor: ancestor@,
                descendant: descendant@,
            },
        }
    }
}

/// What a [`GuardRun`] stands before.
#[derive(Debug, Clone, Copy, PartialEq, Eq, Structural)]
pub enum GuardPhase {
    /// See whether there is a remote branch.
    Verify,
    /// Ask whether it holds local HEAD.
    RemoteHoldsHead,
    /// Ask whether local HEAD holds it.
    HeadHoldsRemote,
    /// Push local HEAD onto it.
    Push,
}

/// A guard under way.
#[derive(Debug, Clone, PartialEq, Eq)]
pub struct GuardRun {
    pub branch: String,
    /// Whether there are uncommitted changes.
    pub dirty: bool,
    pub phase: GuardPhase,
}

/// The content of a [`GuardRun`].
#[verifier::ext_equal]
pub struct GuardView {
    pub branch: Seq<char>,
    pub dirty: bool,
    pub phase: GuardPhase,
}

impl View for GuardRun {
    type V = GuardView;

    open spec fn view(&self) -> GuardView {
        GuardView { branch: self.branch@, dirty: self.dirty, phase: self.phase }
    }
}

/// What an answer leads to.
#[derive(Debug, PartialEq, Eq)]
pub enum GuardStep {
    /// There is more to ask.
    Next(GuardRun),
    /// The merge may go on, or is refused.
    Done(Result<(), Fault>),
}

/// The content of a [`GuardStep`].
#[verifier::ext_equal]
pub enum GuardStepView {
    Next(GuardView),
    Done(Result<(), FaultView>),
}

impl View for GuardStep {
    type V = GuardStepView;

    open spec fn view(&self) -> GuardStepView {
        match self {
            GuardStep::Next(run) => GuardStepView::Next(run@),
            GuardStep::Done(result) => GuardStepView::Done(result_view(*result)),
        }
    }
}

/// What the user is told of uncommitted changes.
pub open spec fn uncommitted_text(branch: Seq<char>) -> Seq<char> {
    "Uncommitted changes won't reach "@ + remote_ref(branch)
        + ": a push_to_origin merge squashes the pushed PR branch, so they would be silently dropped. Commit them (wt will push) before merging."@
}

/// What the user is told of diverged histories.
pub open spec fn diverged_text(branch: Seq<char>) -> Seq<char> {
    "Local branch and "@ + remote_ref(branch)
        + " have diverged — the remote has commits not in your history, so a squash-merge would drop your local commits. Rebase onto "@
        + remote_ref(branch) + " (or reconcile manually) before merging."@
}

/// The command that pushes local HEAD onto a branch, as a fast-forward.
pub open spec fn push_head(branch: Seq<char>) -> CommandView {
    git(seq!["push"@, "origin"@, "HEAD:"@ + branch])
}

impl GuardView {
    /// What the guard asks for.
    pub open spec fn action(self) -> GuardActionView {
        match self.phase {
            GuardPhase::Verify => GuardActionView::Run(
                git(seq!["rev-parse"@, "--verify"@, "--quiet"@, remote_ref(self.branch)]),
            ),
            GuardPhase::RemoteHoldsHead => GuardActionView::IsAncestor {
                ancestor: "HEAD"@,
                descendant: remote_ref(self.branch),
            },
            GuardPhase::HeadHoldsRemote => GuardActionView::IsAncestor {
                ancestor: remote_ref(self.branch),
                descendant: "HEAD"@,
            },
            GuardPhase::Push => GuardActionView::Run(push_head(self.branch)),
        }
    }

    /// The guard before something else.
    pub open spec fn at(self, phase: GuardPhase) -> GuardView {
        GuardView { phase, ..self }
    }

    /// What the answer leads to.
    pub open spec fn step(self, answer: AnswerView) -> GuardStepView {
        match self.phase {
            GuardPhase::Verify => if answer is Failed {
                GuardStepView::Done(Ok(()))
            } else {
                GuardStepView::Next(self.at(GuardPhase::RemoteHoldsHead))
            },
            GuardPhase::RemoteHoldsHead => if let AnswerView::Failed(fault) = answer {
                GuardStepView::Done(Err(fault))
            } else if answer.holds() && !self.dirty {
                GuardStepView::Done(Ok(()))
            } else {
                GuardStepView::Next(self.at(GuardPhase::HeadHoldsRemote))
            },
            GuardPhase::HeadHoldsRemote => if let AnswerView::Failed(fault) = answer {
                GuardStepView::Done(Err(fault))
            } else if !answer.holds() {
                GuardStepView::Done(Err(plain(diverged_text(self.branch))))
            } else if self.dirty {
                GuardStepView::Done(Err(plain(uncommitted_text(self.branch))))
            } else {
                GuardStepView::Next(self.at(GuardPhase::Push))
            },
            GuardPhase::Push => if let AnswerView::Failed(fault) = answer {
                GuardStepView::Done(Err(fault))
            } else {
                GuardStepView::Done(Ok(()))
            },
        }
    }

    /// Where the guard stands after several answers.
    pub open spec fn after(self, answers: Seq<AnswerView>) -> GuardStepView
        decreases answers.len(),
    {
        if answers.len() == 0 {
            GuardStepView::Next(self)
        } else {
            match self.step(answers.first()) {
                GuardStepView::Next(next) => next.after(answers.drop_first()),
                GuardStepView::Done(result) => GuardStepView::Done(result),
            }
        }
    }
}

/// What the answers were given to, in order.
pub open spec fn asked(run: GuardView, answers: Seq<AnswerView>) -> Seq<GuardActionView>
    decreases answers.len(),
{
    if answers.len() == 0 {
        Seq::empty()
    } else {
        seq![run.action()] + match run.step(answers.first()) {
            GuardStepView::Next(next) => asked(next, answers.drop_first()),
            GuardStepView::Done(_) => Seq::empty(),
        }
    }
}

/// A guard that has not asked anything yet.
pub open spec fn guarding(branch: Seq<char>, dirty: bool) -> GuardView {
    GuardView { branch, dirty, phase: GuardPhase::Verify }
}

/// Begins to make sure that `origin/<branch>` holds every local commit, before
/// a merge that squashes the pull request's branch. `dirty` tells whether there
/// are uncommitted changes.
pub fn ensure_pr_branch_has_local_commits(branch: &str, dirty: bool) -> (r: GuardRun)
    ensures
        r@ == guarding(branch@, dirty),
{
    GuardRun { branch: branch.to_owned(), dirty, phase: GuardPhase::Verify }
}

impl GuardRun {
    /// What the guard asks for.
    pub fn action(&self) -> (r: GuardAction)
        ensures
            r@ == self@.action(),
    {
        let branch = self.branch.as_str();
        let remote = remote_ref_of(branch);
        match self.phase {
            GuardPhase::Verify => GuardAction::Run(
                git_command(&["rev-parse", "--verify", "--quiet", remote.as_str()]),
            ),
            GuardPhase::RemoteHoldsHead => GuardAction::IsAncestor {
                ancestor: "HEAD".to_owned(),
                descendant: remote,
            },
            GuardPhase::HeadHoldsRemote => GuardAction::IsAncestor {
                ancestor: remote,
                descendant: "HEAD".to_owned(),
            },
            GuardPhase::Push => {
                let refspec = "HEAD:".to_owned().concat(branch);
                GuardAction::Run(git_command(&["push", "origin", refspec.as_str()]))
            },
        }
    }

    /// Takes the answer.
    pub fn resume(self, answer: Answer) -> (r: GuardStep)
        ensures
            r@ == self@.step(answer@),
    {
        let holds = answer.holds();
        match self.phase {
            GuardPhase::Verify => match answer {
                Answer::Failed(_) => GuardStep::Done(Ok(())),
                _ => GuardStep::Next(GuardRun { phase: GuardPhase::RemoteHoldsHead, ..self }),
            },
            GuardPhase::RemoteHoldsHead => match answer {
                Answer::Failed(fault) => GuardStep::Done(Err(fault)),
                _ => if holds && !self.dirty {
                    GuardStep::Done(Ok(()))
                } else {
                    GuardStep::Next(GuardRun { phase: GuardPhase::HeadHoldsRemote, ..self })
                },
            },
            GuardPhase::HeadHoldsRemote => match answer {
                Answer::Failed(fault) => GuardStep::Done(Err(fault)),
                _ => {
                    let remote = remote_ref_of(self.branch.as_str());
                    if !holds {
                        let message = "Local branch and ".to_owned().concat(
                            remote.as_str(),
                        ).concat(
                            " have diverged — the remote has commits not in your history, so a squash-merge would drop your local commits. Rebase onto ",
                        ).concat(remote.as_str()).concat(
                            " (or reconcile manually) before merging.",
                        );
                        GuardStep::Done(Err(Fault::new(message)))
                    } else if self.dirty {
                        let message = "Uncommitted changes won't reach ".to_owned().concat(
                            remote.as_str(),
                        ).concat(
                            ": a push_to_origin merge squashes the pushed PR branch, so they would be silently dropped. Commit them (wt will push) before merging.",
                        );
                        GuardStep::Done(Err(Fault::new(message)))
                    } else {
                        GuardStep::Next(GuardRun { phase: GuardPhase::Push, ..self })
                    }
                },
            },
            GuardPhase::Push => match answer {
                Answer::Failed(fault) => GuardStep::Done(Err(fault)),
                _ => GuardStep::Done(Ok(())),
            },
        }
    }
}

/// The guard lets a merge pass only where nothing local can be lost: there is
/// no remote branch; or the tree is clean and the remote branch holds local
/// HEAD; or the tree is clean, local HEAD is a fast-forward of the remote
/// branch, and was pushed onto it.
pub proof fn what_passes_is_on_the_remote(
    branch: Seq<char>,
    dirty: bool,
    answers: Seq<AnswerView>,
)
    requires
        guarding(branch, dirty).after(answers) == GuardStepView::Done(Ok::<(), FaultView>(())),
    ensures
        ({
            let actions = asked(guarding(branch, dirty), answers);
            ||| {
                &&& actions.len() == 1
                &&& actions[0] == GuardActionView::Run(
                    git(seq!["rev-parse"@, "--verify"@, "--quiet"@, "origin/"@ + branch]),
                )
                &&& answers[0] is Failed
            }
            ||| {
                &&& !dirty
                &&& actions.len() == 2
                &&& actions[1] == (GuardActionView::IsAncestor {
                    ancestor: "HEAD"@,
                    descendant: "origin/"@ + branch,
                })
                &&& answers[1].holds()
            }
            ||| {
                &&& !dirty
                &&& actions.len() == 4
                &&& actions[2] == (GuardActionView::IsAncestor {
                    ancestor: "origin/"@ + branch,
                    descendant: "HEAD"@,
                })
                &&& answers[2].holds()
                &&& actions[3] == GuardActionView::Run(
                    git(seq!["push"@, "origin"@, "HEAD:"@ + branch]),
                )
                &&& !(answers[3] is Failed)
            }
        }),
{
    reveal_with_fuel(GuardView::after, 5);
    reveal_with_fuel(asked, 5);
    if answers.len() >= 1 {
        let one = answers.drop_first();
        if one.len() >= 1 {
            assert(one.first() == answers[1]);
            let two = one.drop_first();
            if two.len() >= 1 {
                assert(two.first() == answers[2]);
                let three = two.drop_first();
                if three.len() >= 1 {
                    assert(three.first() == answers[3]);
                }
            }
        }
    }
}

/// Whether the answers say that the remote branch comes to hold local work: there
/// is none yet; or nothing is uncommitted, and it holds local HEAD already, or
/// local HEAD holds it and was pushed onto it.
pub open spec fn nothing_is_lost(dirty: bool, answers: Seq<AnswerView>) -> bool {
    answers[0] is Failed || !dirty && (answers[1].holds() || answers[2].holds() && !(answers[3]
        is Failed))
}

/// The guard refuses exactly where local work would be missing on the remote. Of
/// what it is asked, the questions have to be answerable.
pub proof fn the_guard_refuses_exactly_what_would_be_lost(
    branch: Seq<char>,
    dirty: bool,
    answers: Seq<AnswerView>,
)
    requires
        answers.len() >= 4,
        !(answers[0] is Failed) ==> !(answers[1] is Failed) && !(answers[2] is Failed),
    ensures
        guarding(branch, dirty).after(answers) == GuardStepView::Done(Ok::<(), FaultView>(()))
            <==> nothing_is_lost(dirty, answers),
        guarding(branch, dirty).after(answers) matches GuardStepView::Done(Err(_))
            <==> !nothing_is_lost(dirty, answers),
        !(answers[0] is Failed) && dirty && answers[2].holds() ==> guarding(branch, dirty).after(
            answers,
        ) == GuardStepView::Done(Err(plain(uncommitted_text(branch)))),
        !(answers[0] is Failed) && !(answers[1].holds() && !dirty) && !answers[2].holds()
            ==> guarding(branch, dirty).after(answers) == GuardStepView::Done(
            Err(plain(diverged_text(branch))),
        ),
{
    reveal_with_fuel(GuardView::after, 5);
    let one = answers.drop_first();
    let two = one.drop_first();
    let three = two.drop_first();
    assert(one.first() == answers[1]);
    assert(two.first() == answers[2]);
    assert(three.first() == answers[3]);
}

/// Uncommitted changes over a remote branch are always refused.
pub proof fn uncommitted_changes_never_pass(branch: Seq<char>, answers: Seq<AnswerView>)
    requires
        answers.len() > 0,
        !(answers[0] is Failed),
    ensures
        guarding(branch, true).after(answers) != GuardStepView::Done(Ok::<(), FaultView>(())),
{
    if guarding(branch, true).after(answers) == GuardStepView::Done(Ok::<(), FaultView>(())) {
        what_passes_is_on_the_remote(branch, true, answers);
    }
}

/// Four answers are enough.
pub proof fn every_guard_ends(branch: Seq<char>, dirty: bool, answers: Seq<AnswerView>)
    requires
        answers.len() >= 4,
    ensures
        guarding(branch, dirty).after(answers) is Done,
{
    reveal_with_fuel(GuardView::after, 5);
}

/// What the guard asks for, in this order and as far as it comes: whether there
/// is a remote branch, whether that holds local HEAD, whether local HEAD holds
/// it, and the push of local HEAD onto it. It comes to the next where the answer
/// leaves the matter open. What cannot be found out or done is an error, but for
/// a remote branch that is not there.
pub proof fn a_guard_takes_its_course(
    branch: Seq<char>,
    dirty: bool,
    answers: Seq<AnswerView>,
)
    requires
        answers.len() >= 4,
    ensures
        ({
            let remote = "origin/"@ + branch;
            let all = seq![
                GuardActionView::Run(
                    CommandView {
                        program: Program::Git,
                        args: seq!["rev-parse"@, "--verify"@, "--quiet"@, remote],
                    },
                ),
                GuardActionView::IsAncestor { ancestor: "HEAD"@, descendant: remote },
                GuardActionView::IsAncestor { ancestor: remote, descendant: "HEAD"@ },
                GuardActionView::Run(
                    CommandView {
                        program: Program::Git,
                        args: seq!["push"@, "origin"@, "HEAD:"@ + branch],
                    },
                ),
            ];
            let run = guarding(branch, dirty);
            if answers[0] is Failed {
                asked(run, answers) == all.take(1) && run.after(answers) == GuardStepView::Done(
                    Ok::<(), FaultView>(()),
                )
            } else if answers[1] is Failed {
                asked(run, answers) == all.take(2) && run.after(answers) == GuardStepView::Done(
                    Err(answers[1]->Failed_0),
                )
            } else if answers[1] is Yes && !dirty {
                asked(run, answers) == all.take(2) && run.after(answers) == GuardStepView::Done(
                    Ok::<(), FaultView>(()),
                )
            } else if answers[2] is Failed {
                asked(run, answers) == all.take(3) && run.after(answers) == GuardStepView::Done(
                    Err(answers[2]->Failed_0),
                )
            } else if !(answers[2] is Yes) {
                asked(run, answers) == all.take(3) && run.after(answers) == GuardStepView::Done(
                    Err(plain(diverged_text(branch))),
                )
            } else if dirty {
                asked(run, answers) == all.take(3) && run.after(answers) == GuardStepView::Done(
                    Err(plain(uncommitted_text(branch))),
                )
            } else {
                asked(run, answers) == all && run.after(answers) == GuardStepView::Done(
                    match answers[3] {
                        AnswerView::Failed(fault) => Err(fault),
                        _ => Ok::<(), FaultView>(()),
                    },
                )
            }
        }),
{
    reveal_with_fuel(GuardView::after, 5);
    reveal_with_fuel(asked, 5);
    let run = guarding(branch, dirty);
    let one = answers.drop_first();
    let two = one.drop_first();
    let three = two.drop_first();
    assert(one.first() == answers[1]);
    assert(two.first() == answers[2]);
    assert(three.first() == answers[3]);
    let second = run.at(GuardPhase::RemoteHoldsHead);
    let third = run.at(GuardPhase::HeadHoldsRemote);
    let fourth = run.at(GuardPhase::Push);
    let a = run.action();
    let b = second.action();
    let c = third.action();
    let d = fourth.action();
    assert(asked(fourth, three) =~= seq![d]);
    assert(asked(third, two) =~= seq![c] || asked(third, two) =~= seq![c, d]);
    assert(asked(second, one) =~= seq![b] || asked(second, one) =~= seq![b, c] || asked(second, one)
        =~= seq![b, c, d]);
    assert(seq![a, b, c, d].take(1) =~= seq![a]);
    assert(seq![a, b, c, d].take(2) =~= seq![a, b]);
    assert(seq![a, b, c, d].take(3) =~= seq![a, b, c]);
}

/// Both refusals name the remote branch.
pub proof fn a_refusal_names_the_remote_branch(branch: Seq<char>)
    ensures
        occurs_in("origin/"@ + branch, uncommitted_text(branch)),
        occurs_in("origin/"@ + branch, diverged_text(branch)),
{
    let remote = "origin/"@ + branch;
    let first = "Uncommitted changes won't reach "@;
    lemma_ends_with(first, remote);
    lemma_continues(
        remote,
        first + remote,
        ": a push_to_origin merge squashes the pushed PR branch, so they would be silently dropped. Commit them (wt will push) before merging."@,
    );
    let last = " (or reconcile manually) before merging."@;
    let before = "Local branch and "@ + remote
        + " have diverged — the remote has commits not in your history, so a squash-merge would drop your local commits. Rebase onto "@;
    lemma_ends_with(before, remote);
    lemma_continues(remote, before + remote, last);
}

/// Each refusal says what the remote branch has to do with it: what does not
/// reach it, or what to rebase onto.
pub proof fn a_refusal_says_what_to_do(branch: Seq<char>)
    ensures
        occurs_in(
            "Uncommitted changes won't reach "@ + ("origin/"@ + branch) + ":"@,
            uncommitted_text(branch),
        ),
        occurs_in("Rebase onto "@ + ("origin/"@ + branch) + " "@, diverged_text(branch)),
{
    let none = Seq::<char>::empty();
    let remote = "origin/"@ + branch;
    let l1 = "Uncommitted changes won't reach "@;
    let l2 =
        ": a push_to_origin merge squashes the pushed PR branch, so they would be silently dropped. Commit them (wt will push) before merging."@;
    let m1 = "Local branch and "@;
    let m2 =
        " have diverged — the remote has commits not in your history, so a squash-merge would drop your local commits. Rebase onto "@;
    let m3 = " (or reconcile manually) before merging."@;
    assert(l2.len() >= 1 && l2.take(1) =~= ":"@) by {
        reveal_strlit(":");
        reveal_strlit(
            ": a push_to_origin merge squashes the pushed PR branch, so they would be silently dropped. Commit them (wt will push) before merging.",
        );
    }
    assert(m2.len() >= 12 && m2.skip(m2.len() - 12) =~= "Rebase onto "@) by {
        reveal_strlit("Rebase onto ");
        reveal_strlit(
            " have diverged — the remote has commits not in your history, so a squash-merge would drop your local commits. Rebase onto ",
        );
    }
    assert(m3.len() >= 1 && m3.take(1) =~= " "@) by {
        reveal_strlit(" ");
        reveal_strlit(" (or reconcile manually) before merging.");
    }
    assert(uncommitted_text(branch) =~= none + l1 + remote + l2 + none);
    lemma_spans(none, l1, remote, l2, none, l1.len() as int, 1);
    assert(l1.skip(0) =~= l1);
    assert(diverged_text(branch) =~= (m1 + remote) + m2 + remote + m3 + none);
    lemma_spans(m1 + remote, m2, remote, m3, none, 12, 1);
}

} // verus!
