//! What the answers about a worktree make of it in the plan of a cleanup.

use vstd::prelude::*;
use crate::answer::AnswerView;
use crate::clean::{ClassificationView, EntryView};
use crate::clean_plan::{PlanStepView, PlanView, WorktreeView, planned};
use crate::command::{CommandView, Program};
use crate::survey::{FactsView, SurveyActionView, SurveyPhase, SurveyView};
use crate::text::trimmed;

verus! {

/// A question about the worktree at a position, and its answer.
#[verifier::ext_equal]
pub struct Asked {
    pub position: int,
    pub question: SurveyActionView,
    pub answer: AnswerView,
}

impl PlanStepView {
    /// What is asked, and how it is answered, while a number of answers is
    /// given. Answers beyond the end are not counted.
    pub open spec fn asked(self, answers: Seq<AnswerView>) -> Seq<Asked>
        decreases answers.len(),
    {
        match self {
            PlanStepView::Next(run) => if answers.len() == 0 {
                Seq::empty()
            } else {
                seq![
                    Asked {
                        position: run.position(),
                        question: run.action(),
                        answer: answers.first(),
                    },
                ] + run.step(answers.first()).asked(answers.drop_first())
            },
            PlanStepView::Done(_) => Seq::empty(),
        }
    }
}

/// The question what is uncommitted in a worktree.
pub open spec fn whether_clean() -> SurveyActionView {
    SurveyActionView::Output(
        CommandView { program: Program::Git, args: seq!["status"@, "--porcelain"@] },
    )
}

/// The question whether a branch holds nothing that the target lacks.
pub open spec fn whether_merged(branch: Seq<char>, target_branch: Seq<char>) -> SurveyActionView {
    SurveyActionView::Check(
        CommandView {
            program: Program::Git,
            args: seq!["merge-base"@, "--is-ancestor"@, branch, target_branch],
        },
    )
}

/// Whether the list of worktrees leaves open what a worktree is: it is neither
/// the current nor the primary one, it is not locked, it is there, and it has a
/// branch.
pub open spec fn left_open(facts: FactsView) -> bool {
    &&& !facts.current
    &&& !facts.primary
    &&& facts.locked is None
    &&& !facts.prunable
    &&& facts.exists
    &&& !facts.detached
    &&& facts.branch is Some
}

/// Whether a classification follows from the list of worktrees.
pub open spec fn follows_from_the_list(facts: FactsView, class: ClassificationView) -> bool {
    match class {
        ClassificationView::Current => facts.current,
        ClassificationView::Primary => facts.primary && !facts.current,
        ClassificationView::Locked { reason } => facts.locked == Some(reason) && !facts.current
            && !facts.primary,
        ClassificationView::Prunable => (facts.prunable || !facts.exists) && facts.locked is None
            && !facts.current && !facts.primary,
        ClassificationView::DetachedHead => (facts.detached || facts.branch is None)
            && !facts.prunable && facts.exists && facts.locked is None && !facts.current
            && !facts.primary,
        _ => false,
    }
}

/// Whether a classification follows from what was asked and answered about the
/// worktree at a position, first at `k`: changes make it dirty. Without them it
/// was asked next whether its branch is merged into the target, and the answer
/// decides. Nothing else was asked about it.
pub open spec fn follows_from_the_answers(
    asked: Seq<Asked>,
    position: int,
    k: int,
    branch: Seq<char>,
    target_branch: Seq<char>,
    class: ClassificationView,
) -> bool {
    &&& 0 <= k < asked.len()
    &&& asked[k].position == position
    &&& asked[k].question == whether_clean()
    &&& if asked[k].answer matches AnswerView::Text(text) && trimmed(text).len() > 0 {
        &&& class is Dirty
        &&& forall|j: int|
            0 <= j < asked.len() && (#[trigger] asked[j]).position == position ==> j == k
    } else {
        &&& k + 1 < asked.len()
        &&& asked[k + 1].position == position
        &&& asked[k + 1].question == whether_merged(branch, target_branch)
        &&& asked[k + 1].answer is Yes ==> class == (ClassificationView::Merged { branch })
        &&& !(asked[k + 1].answer is Yes) ==> class == (ClassificationView::NotMerged { branch })
        &&& forall|j: int|
            0 <= j < asked.len() && (#[trigger] asked[j]).position == position ==> j == k || j == k
                + 1
    }
}

/// Whether the classification of the worktree at a position is what the list
/// and the answers make of it.
pub open spec fn well_founded(
    asked: Seq<Asked>,
    position: int,
    facts: FactsView,
    target_branch: Seq<char>,
    class: ClassificationView,
) -> bool {
    if left_open(facts) {
        exists|k: int|
            #[trigger] follows_from_the_answers(
                asked,
                position,
                k,
                facts.branch->Some_0,
                target_branch,
                class,
            )
    } else {
        &&& follows_from_the_list(facts, class)
        &&& forall|j: int|
            0 <= j < asked.len() ==> (#[trigger] asked[j]).position != position
    }
}

/// How many worktrees are classified already.
spec fn classified(step: PlanStepView) -> Seq<EntryView> {
    match step {
        PlanStepView::Next(run) => run.entries,
        PlanStepView::Done(entries) => entries,
    }
}

/// Whether a step is about these worktrees, and its survey about the next one.
spec fn about(
    step: PlanStepView,
    target_branch: Seq<char>,
    worktrees: Seq<WorktreeView>,
) -> bool {
    match step {
        PlanStepView::Done(entries) => entries.len() == worktrees.len(),
        PlanStepView::Next(run) => {
            &&& run.target_branch == target_branch
            &&& run.worktrees == worktrees
            &&& run.entries.len() < worktrees.len()
            &&& left_open(run.worktree().facts)
            &&& run.worktree().facts.branch == Some(run.survey.branch)
            &&& run.survey.target_branch == target_branch
        },
    }
}

/// What the list settles is passed over, up to the next worktree that it leaves
/// open.
proof fn lemma_planned(
    target_branch: Seq<char>,
    worktrees: Seq<WorktreeView>,
    entries: Seq<EntryView>,
)
    requires
        entries.len() <= worktrees.len(),
    ensures
        ({
            let step = planned(target_branch, worktrees, entries);
            let all = classified(step);
            &&& about(step, target_branch, worktrees)
            &&& entries.len() <= all.len() <= worktrees.len()
            &&& all.take(entries.len() as int) == entries
            &&& forall|i: int|
                entries.len() <= i < all.len() ==> {
                    &&& !left_open(worktrees[i].facts)
                    &&& follows_from_the_list(worktrees[i].facts, (#[trigger] all[i]).class)
                    &&& all[i].path == worktrees[i].path
                    &&& all[i].path_id == worktrees[i].path_id
                    &&& all[i].branch == worktrees[i].facts.branch
                }
            &&& step matches PlanStepView::Next(run) ==> run.survey.phase is Status
        }),
    decreases worktrees.len() - entries.len(),
{
    assert(entries.take(entries.len() as int) =~= entries);
    if entries.len() < worktrees.len() {
        let worktree = worktrees[entries.len() as int];
        if !left_open(worktree.facts) {
            let class = if worktree.facts.current {
                ClassificationView::Current
            } else if worktree.facts.primary {
                ClassificationView::Primary
            } else if worktree.facts.locked is Some {
                ClassificationView::Locked { reason: worktree.facts.locked->Some_0 }
            } else if worktree.facts.prunable || !worktree.facts.exists {
                ClassificationView::Prunable
            } else {
                ClassificationView::DetachedHead
            };
            let more = entries.push(worktree.classified(class));
            lemma_planned(target_branch, worktrees, more);
            let all = classified(planned(target_branch, worktrees, more));
            assert(all.take(entries.len() as int) =~= entries) by {
                assert(all.take(more.len() as int).take(entries.len() as int) =~= entries);
            }
            assert(all[entries.len() as int] == all.take(more.len() as int)[entries.len() as int]);
        }
    }
}

/// Whether the rest of what is asked settles the worktree that is being
/// surveyed.
spec fn settled_next(asked: Seq<Asked>, run: PlanView, class: ClassificationView) -> bool {
    let position = run.entries.len() as int;
    if run.survey.phase is Status {
        follows_from_the_answers(
            asked,
            position,
            0,
            run.survey.branch,
            run.target_branch,
            class,
        )
    } else {
        &&& asked.len() > 0
        &&& asked[0].position == position
        &&& asked[0].question == whether_merged(run.survey.branch, run.target_branch)
        &&& asked[0].answer is Yes ==> class == (ClassificationView::Merged {
            branch: run.survey.branch,
        })
        &&& !(asked[0].answer is Yes) ==> class == (ClassificationView::NotMerged {
            branch: run.survey.branch,
        })
        &&& forall|j: int|
            0 <= j < asked.len() && (#[trigger] asked[j]).position == position ==> j == 0
    }
}

/// What holds of the answers that are left holds of them all, where those before
/// are about another worktree.
proof fn lemma_shifted(
    first: Asked,
    later: Seq<Asked>,
    position: int,
    facts: FactsView,
    target_branch: Seq<char>,
    class: ClassificationView,
)
    requires
        first.position != position,
        well_founded(later, position, facts, target_branch, class),
    ensures
        well_founded(seq![first] + later, position, facts, target_branch, class),
{
    let asked = seq![first] + later;
    assert forall|j: int| 1 <= j < asked.len() implies #[trigger] asked[j] == later[j - 1] by {}
    if left_open(facts) {
        let branch = facts.branch->Some_0;
        let k = choose|k: int|
            #[trigger] follows_from_the_answers(later, position, k, branch, target_branch, class);
        assert(asked[k + 1] == later[k]);
        if k + 1 < later.len() {
            assert(asked[k + 2] == later[k + 1]);
        }
        assert(follows_from_the_answers(asked, position, k + 1, branch, target_branch, class));
    }
}

proof fn lemma_founded(
    step: PlanStepView,
    target_branch: Seq<char>,
    worktrees: Seq<WorktreeView>,
    answers: Seq<AnswerView>,
    entries: Seq<EntryView>,
)
    requires
        about(step, target_branch, worktrees),
        step.after(answers) == PlanStepView::Done(entries),
    ensures
        entries.len() == worktrees.len(),
        classified(step).len() <= entries.len(),
        entries.take(classified(step).len() as int) == classified(step),
        forall|j: int|
            0 <= j < step.asked(answers).len() ==> (#[trigger] step.asked(answers)[j]).position
                >= classified(step).len(),
        step matches PlanStepView::Next(run) ==> settled_next(
            step.asked(answers),
            run,
            entries[run.entries.len() as int].class,
        ),
        forall|i: int|
            classified(step).len() <= i < entries.len() ==> {
                &&& (#[trigger] entries[i]).path == worktrees[i].path
                &&& entries[i].path_id == worktrees[i].path_id
                &&& entries[i].branch == worktrees[i].facts.branch
            },
        forall|i: int|
            classified(step).len() <= i < entries.len() && !(step is Next && i
                == classified(step).len()) ==> well_founded(
                step.asked(answers),
                i,
                worktrees[i].facts,
                target_branch,
                (#[trigger] entries[i]).class,
            ),
    decreases answers.len(),
{
    match step {
        PlanStepView::Done(all) => {
            assert(entries.take(all.len() as int) =~= all);
        },
        PlanStepView::Next(run) => {
            let answer = answers.first();
            let rest = answers.drop_first();
            let next = run.step(answer);
            let n = run.entries.len() as int;
            let first = Asked { position: n, question: run.action(), answer };
            let asked = step.asked(answers);
            let later = next.asked(rest);
            assert(asked =~= seq![first] + later);
            assert forall|j: int| 1 <= j < asked.len() implies #[trigger] asked[j] == later[j - 1]
                by {}
            let changes = answer matches AnswerView::Text(text) && trimmed(text).len() > 0;
            if run.survey.phase is Status && !changes {
                let survey = SurveyView { phase: SurveyPhase::Ancestry, ..run.survey };
                let going_on = PlanView { survey, ..run };
                assert(next == PlanStepView::Next(going_on));
                lemma_founded(next, target_branch, worktrees, rest, entries);
                assert(asked[1] == later[0]);
                assert forall|i: int| n < i < entries.len() implies well_founded(
                    asked,
                    i,
                    worktrees[i].facts,
                    target_branch,
                    (#[trigger] entries[i]).class,
                ) by {
                    lemma_shifted(
                        first,
                        later,
                        i,
                        worktrees[i].facts,
                        target_branch,
                        entries[i].class,
                    );
                }
            } else {
                let class = if run.survey.phase is Status {
                    ClassificationView::Dirty
                } else if answer is Yes {
                    ClassificationView::Merged { branch: run.survey.branch }
                } else {
                    ClassificationView::NotMerged { branch: run.survey.branch }
                };
                let entry = run.worktree().classified(class);
                let more = run.entries.push(entry);
                assert(next == planned(target_branch, worktrees, more));
                lemma_planned(target_branch, worktrees, more);
                lemma_founded(next, target_branch, worktrees, rest, entries);
                let all = classified(next);
                assert(all.take(n + 1) == more);
                assert forall|i: int| 0 <= i < all.len() implies #[trigger] entries[i] == all[i] by {
                    assert(entries.take(all.len() as int)[i] == all[i]);
                }
                assert forall|i: int| 0 <= i <= n implies #[trigger] all[i] == more[i] by {
                    assert(all.take(n + 1)[i] == more[i]);
                }
                assert(entries[n] == entry);
                assert(entries.take(n) =~= run.entries);
                assert forall|i: int| n < i < entries.len() implies well_founded(
                    asked,
                    i,
                    worktrees[i].facts,
                    target_branch,
                    (#[trigger] entries[i]).class,
                ) by {
                    if i < all.len() {
                        assert(follows_from_the_list(worktrees[i].facts, all[i].class));
                    } else if next is Next && i == all.len() {
                        let branch = worktrees[i].facts.branch->Some_0;
                        assert(follows_from_the_answers(
                            later,
                            i,
                            0,
                            branch,
                            target_branch,
                            entries[i].class,
                        ));
                    }
                    lemma_shifted(
                        first,
                        later,
                        i,
                        worktrees[i].facts,
                        target_branch,
                        entries[i].class,
                    );
                }
            }
        },
    }
}

/// Each entry of a finished plan stands for the worktree at its place, and has
/// the class that the list and the answers about that very worktree determine.
/// A worktree that the list settles is not asked about. Any other one is dirty
/// where its status was answered with changes; otherwise it was asked whether
/// its branch is merged into the target, and it is merged if that was answered
/// with yes and not merged if it was answered with anything else.
pub proof fn the_answers_about_a_worktree_decide(
    target_branch: Seq<char>,
    worktrees: Seq<WorktreeView>,
    answers: Seq<AnswerView>,
    entries: Seq<EntryView>,
    i: int,
)
    requires
        planned(target_branch, worktrees, Seq::empty()).after(answers) == PlanStepView::Done(
            entries,
        ),
        0 <= i < worktrees.len(),
    ensures
        entries.len() == worktrees.len(),
        entries[i].path == worktrees[i].path,
        entries[i].path_id == worktrees[i].path_id,
        entries[i].branch == worktrees[i].facts.branch,
        well_founded(
            planned(target_branch, worktrees, Seq::empty()).asked(answers),
            i,
            worktrees[i].facts,
            target_branch,
            entries[i].class,
        ),
{
    let begun = planned(target_branch, worktrees, Seq::empty());
    let asked = begun.asked(answers);
    lemma_planned(target_branch, worktrees, Seq::empty());
    lemma_founded(begun, target_branch, worktrees, answers, entries);
    let all = classified(begun);
    assert(entries.take(all.len() as int) == all);
    if i < all.len() {
        assert(entries[i] == entries.take(all.len() as int)[i]);
        assert(follows_from_the_list(worktrees[i].facts, all[i].class));
    } else if begun is Next && i == all.len() {
        assert(follows_from_the_answers(
            asked,
            i,
            0,
            worktrees[i].facts.branch->Some_0,
            target_branch,
            entries[i].class,
        ));
    }
}

/// Whether this is that question about the worktree at a position, answered with
/// yes or with something else.
pub open spec fn answered(
    asked: Asked,
    position: int,
    question: SurveyActionView,
    yes: bool,
) -> bool {
    asked.position == position && asked.question == question && (asked.answer is Yes) == yes
}

/// A worktree is taken for merged exactly if it was asked whether its branch is
/// merged into the target and that was answered with yes, and for not merged
/// exactly if it was asked and not so answered.
pub proof fn merged_is_what_was_answered_so(
    target_branch: Seq<char>,
    worktrees: Seq<WorktreeView>,
    answers: Seq<AnswerView>,
    entries: Seq<EntryView>,
    i: int,
    branch: Seq<char>,
)
    requires
        planned(target_branch, worktrees, Seq::empty()).after(answers) == PlanStepView::Done(
            entries,
        ),
        0 <= i < worktrees.len(),
        worktrees[i].facts.branch == Some(branch),
    ensures
        entries[i].class is Merged <==> exists|j: int|
            answered(
                #[trigger] planned(target_branch, worktrees, Seq::empty()).asked(answers)[j],
                i,
                whether_merged(branch, target_branch),
                true,
            ) && 0 <= j < planned(target_branch, worktrees, Seq::empty()).asked(answers).len(),
        entries[i].class is NotMerged <==> exists|j: int|
            answered(
                #[trigger] planned(target_branch, worktrees, Seq::empty()).asked(answers)[j],
                i,
                whether_merged(branch, target_branch),
                false,
            ) && 0 <= j < planned(target_branch, worktrees, Seq::empty()).asked(answers).len(),
{
    the_answers_about_a_worktree_decide(target_branch, worktrees, answers, entries, i);
    let facts = worktrees[i].facts;
    let class = entries[i].class;
    let asked = planned(target_branch, worktrees, Seq::empty()).asked(answers);
    assert(whether_merged(branch, target_branch) != whether_clean());
    if left_open(facts) {
        let k = choose|k: int|
            #[trigger] follows_from_the_answers(asked, i, k, branch, target_branch, class);
        if k + 1 < asked.len() {
            assert(answered(
                asked[k + 1],
                i,
                whether_merged(branch, target_branch),
                class is Merged,
            ) || class is Dirty);
        }
    }
}

} // verus!
