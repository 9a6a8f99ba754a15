//! Classifying every worktree of a repository, one after the other.

use vstd::prelude::*;
use crate::answer::{Answer, AnswerView};
use crate::clean::{Classification, ClassificationView, CleanEntry, EntryView, entry_views};
use crate::survey::{
    FactsView, SurveyAction, SurveyActionView, SurveyRun, SurveyStep, SurveyStepView, SurveyView,
    WorktreeFacts, classify, surveyed, the_current_worktree_is_current,
};
use crate::text::copied;

verus! {

/// A worktree, and what the list of worktrees says of it.
#[derive(Debug, Clone, PartialEq, Eq)]
pub struct Worktree {
    /// The path, as it is shown.
    pub path: String,
    /// Which path this is. Two worktrees have the same number exactly if they
    /// have the same path. The text does not tell that: paths that are not text
    /// can be shown alike.
    pub path_id: usize,
    pub facts: WorktreeFacts,
}

/// The content of a [`Worktree`].
#[verifier::ext_equal]
pub struct WorktreeView {
    pub path: Seq<char>,
    pub path_id: int,
    pub facts: FactsView,
}

impl View for Worktree {
    type V = WorktreeView;

    open spec fn view(&self) -> WorktreeView {
        WorktreeView { path: self.path@, path_id: self.path_id as int, facts: self.facts@ }
    }
}

impl WorktreeView {
    /// The worktree, classified.
    pub open spec fn classified(self, class: ClassificationView) -> EntryView {
        EntryView { path: self.path, path_id: self.path_id, branch: self.facts.branch, class }
    }
}

/// The contents of a list of worktrees.
pub open spec fn worktree_views(worktrees: Seq<Worktree>) -> Seq<WorktreeView> {
    worktrees.map_values(|w: Worktree| w@)
}

/// A classification of all worktrees under way. The next one to be classified is
/// being surveyed.
#[derive(Debug, Clone, PartialEq, Eq)]
pub struct PlanRun {
    target_branch: String,
    worktrees: Vec<Worktree>,
    /// The worktrees that are classified already.
    entries: Vec<CleanEntry>,
    /// The survey of the next one.
    survey: SurveyRun,
}

/// The content of a [`PlanRun`].
#[verifier::ext_equal]
pub struct PlanView {
    pub target_branch: Seq<char>,
    pub worktrees: Seq<WorktreeView>,
    pub entries: Seq<EntryView>,
    pub survey: SurveyView,
}

impl View for PlanRun {
    type V = PlanView;

    closed spec fn view(&self) -> PlanView {
        PlanView {
            target_branch: self.target_branch@,
            worktrees: worktree_views(self.worktrees@),
            entries: entry_views(self.entries@),
            survey: self.survey@,
        }
    }
}

/// What an answer leads to.
#[derive(Debug, Clone, PartialEq, Eq)]
pub enum PlanStep {
    /// There is more to ask.
    Next(PlanRun),
    /// All worktrees are classified.
    Done(Vec<CleanEntry>),
}

/// The content of a [`PlanStep`].
#[verifier::ext_equal]
pub enum PlanStepView {
    Next(PlanView),
    Done(Seq<EntryView>),
}

impl View for PlanStep {
    type V = PlanStepView;

    open spec fn view(&self) -> PlanStepView {
        match self {
            PlanStep::Next(run) => PlanStepView::Next(run@),
            PlanStep::Done(entries) => PlanStepView::Done(entry_views(entries@)),
        }
    }
}

/// What follows once some worktrees are classified: those that the list settles,
/// up to the first one that has to be looked into.
pub open spec fn planned(
    target_branch: Seq<char>,
    worktrees: Seq<WorktreeView>,
    entries: Seq<EntryView>,
) -> PlanStepView
    decreases worktrees.len() - entries.len(),
{
    if entries.len() >= worktrees.len() {
        PlanStepView::Done(entries)
    } else {
        let worktree = worktrees[entries.len() as int];
        match surveyed(worktree.facts, target_branch) {
            SurveyStepView::Done(class) => planned(
                target_branch,
                worktrees,
                entries.push(worktree.classified(class)),
            ),
            SurveyStepView::Next(survey) => PlanStepView::Next(
                PlanView { target_branch, worktrees, entries, survey },
            ),
        }
    }
}

impl PlanView {
    /// There is a worktree to be classified.
    pub open spec fn valid(self) -> bool {
        self.entries.len() < self.worktrees.len()
    }

    /// Where the worktree that is being surveyed stands in the list.
    pub open spec fn position(self) -> int {
        self.entries.len() as int
    }

    /// The worktree that is being surveyed.
    pub open spec fn worktree(self) -> WorktreeView {
        self.worktrees[self.entries.len() as int]
    }

    /// What is asked for: something about the worktree that is being surveyed.
    pub open spec fn action(self) -> SurveyActionView {
        self.survey.action()
    }

    /// What the answer leads to.
    pub open spec fn step(self, answer: AnswerView) -> PlanStepView {
        match self.survey.step(answer) {
            SurveyStepView::Next(survey) => PlanStepView::Next(PlanView { survey, ..self }),
            SurveyStepView::Done(class) => planned(
                self.target_branch,
                self.worktrees,
                self.entries.push(self.worktree().classified(class)),
            ),
        }
    }
}

impl PlanStepView {
    /// Where a number of answers leads.
    pub open spec fn after(self, answers: Seq<AnswerView>) -> PlanStepView
        decreases answers.len(),
    {
        if answers.len() == 0 {
            self
        } else {
            match self {
                PlanStepView::Next(run) => run.step(answers.first()).after(answers.drop_first()),
                done => done,
            }
        }
    }
}

/// Adds a classified worktree.
fn add_entry(entries: &mut Vec<CleanEntry>, worktree: &Worktree, class: Classification)
    ensures
        entry_views(final(entries)@) == entry_views(old(entries)@).push(
            worktree@.classified(class@),
        ),
        final(entries)@.len() == old(entries)@.len() + 1,
{
    entries.push(
        CleanEntry {
            path: worktree.path.clone(),
            path_id: worktree.path_id,
            branch: copied(&worktree.facts.branch),
            classification: class,
        },
    );
    assert(entry_views(entries@) =~= entry_views(old(entries)@).push(
        worktree@.classified(class@),
    ));
}

/// Goes on to the first worktree that has to be looked into.
fn advance(
    target_branch: String,
    worktrees: Vec<Worktree>,
    classified: Vec<CleanEntry>,
) -> (r: PlanStep)
    requires
        classified@.len() <= worktrees@.len(),
    ensures
        r@ == planned(target_branch@, worktree_views(worktrees@), entry_views(classified@)),
        r@ matches PlanStepView::Next(run) ==> run.valid(),
{
    let ghost goal = planned(target_branch@, worktree_views(worktrees@), entry_views(classified@));
    let mut entries = classified;
    while entries.len() < worktrees.len()
        invariant
            entries@.len() <= worktrees@.len(),
            goal == planned(target_branch@, worktree_views(worktrees@), entry_views(classified@)),
            goal == planned(target_branch@, worktree_views(worktrees@), entry_views(entries@)),
        decreases worktrees@.len() - entries@.len(),
    {
        let i: usize = entries.len();
        match classify(&worktrees[i].facts, target_branch.as_str()) {
            SurveyStep::Done(class) => add_entry(&mut entries, &worktrees[i], class),
            SurveyStep::Next(survey) => {
                return PlanStep::Next(PlanRun { target_branch, worktrees, entries, survey });
            },
        }
    }
    PlanStep::Done(entries)
}

/// Begins to classify all worktrees.
pub fn plan_cleanup(target_branch: String, worktrees: Vec<Worktree>) -> (r: PlanStep)
    ensures
        r@ == planned(target_branch@, worktree_views(worktrees@), Seq::empty()),
        r@ matches PlanStepView::Next(run) ==> run.valid(),
{
    let entries: Vec<CleanEntry> = Vec::new();
    assert(entry_views(entries@) =~= Seq::<EntryView>::empty());
    advance(target_branch, worktrees, entries)
}

impl PlanRun {
    /// What is asked for, about the worktree at [`PlanRun::position`].
    pub fn action(&self) -> (r: SurveyAction)
        ensures
            r@ == self@.action(),
    {
        self.survey.action()
    }

    /// Where the worktree that is being surveyed stands in the list.
    pub fn position(&self) -> (r: usize)
        ensures
            r == self@.position(),
            r == self@.entries.len(),
    {
        self.entries.len()
    }

    /// Goes on with what was found out.
    pub fn resume(self, answer: &Answer) -> (r: PlanStep)
        requires
            self@.valid(),
        ensures
            r@ == self@.step(answer@),
            r@ matches PlanStepView::Next(run) ==> run.valid(),
    {
        let PlanRun { target_branch, worktrees, mut entries, survey } = self;
        let i: usize = entries.len();
        match survey.resume(answer) {
            SurveyStep::Next(survey) => PlanStep::Next(
                PlanRun { target_branch, worktrees, entries, survey },
            ),
            SurveyStep::Done(class) => {
                add_entry(&mut entries, &worktrees[i], class);
                advance(target_branch, worktrees, entries)
            },
        }
    }
}

/// What an entry of the plan has to do with its worktree: it has its path and
/// its branch, and a classification that a survey of it can come to.
pub open spec fn accounts_for(
    entry: EntryView,
    worktree: WorktreeView,
    target_branch: Seq<char>,
) -> bool {
    &&& entry == worktree.classified(entry.class)
    &&& exists|answers: Seq<AnswerView>|
        #[trigger] surveyed(worktree.facts, target_branch).after(answers) == SurveyStepView::Done(
            entry.class,
        )
}

/// The plan accounts for every worktree, in order, and for nothing else.
pub proof fn the_plan_accounts_for_every_worktree(
    target_branch: Seq<char>,
    worktrees: Seq<WorktreeView>,
    answers: Seq<AnswerView>,
    entries: Seq<EntryView>,
)
    requires
        planned(target_branch, worktrees, Seq::empty()).after(answers) == PlanStepView::Done(
            entries,
        ),
    ensures
        entries.len() == worktrees.len(),
        forall|i: int|
            0 <= i < entries.len() ==> accounts_for(
                #[trigger] entries[i],
                worktrees[i],
                target_branch,
            ),
{
    lemma_planned(target_branch, worktrees, Seq::empty());
    lemma_accounted(
        planned(target_branch, worktrees, Seq::empty()),
        target_branch,
        worktrees,
        answers,
        entries,
    );
}

/// The current and the primary worktree never go, not even with force; and no
/// other worktree is taken for the current one.
pub proof fn the_current_and_the_primary_worktree_never_go(
    target_branch: Seq<char>,
    worktrees: Seq<WorktreeView>,
    answers: Seq<AnswerView>,
    entries: Seq<EntryView>,
    i: int,
    force: bool,
)
    requires
        planned(target_branch, worktrees, Seq::empty()).after(answers) == PlanStepView::Done(
            entries,
        ),
        0 <= i < worktrees.len(),
    ensures
        entries[i].class is Current <==> worktrees[i].facts.current,
        worktrees[i].facts.current || worktrees[i].facts.primary ==> !entries[i].class.goes(force),
{
    the_plan_accounts_for_every_worktree(target_branch, worktrees, answers, entries);
    assert(accounts_for(entries[i], worktrees[i], target_branch));
    let begun = surveyed(worktrees[i].facts, target_branch);
    let replies = choose|replies: Seq<AnswerView>|
        #[trigger] begun.after(replies) == SurveyStepView::Done(entries[i].class);
    the_current_worktree_is_current(worktrees[i].facts, target_branch, replies);
    reveal_with_fuel(SurveyStepView::after, 2);
}

/// Whether the entries so far account for the worktrees so far.
spec fn accounted(
    target_branch: Seq<char>,
    worktrees: Seq<WorktreeView>,
    entries: Seq<EntryView>,
) -> bool {
    &&& entries.len() <= worktrees.len()
    &&& forall|i: int|
        0 <= i < entries.len() ==> accounts_for(#[trigger] entries[i], worktrees[i], target_branch)
}

/// Whether a step stays true to the worktrees, and its survey is one that the
/// next worktree leads to.
spec fn faithful(
    step: PlanStepView,
    target_branch: Seq<char>,
    worktrees: Seq<WorktreeView>,
) -> bool {
    match step {
        PlanStepView::Done(entries) => entries.len() == worktrees.len() && accounted(
            target_branch,
            worktrees,
            entries,
        ),
        PlanStepView::Next(run) => {
            &&& run.target_branch == target_branch
            &&& run.worktrees == worktrees
            &&& run.valid()
            &&& accounted(target_branch, worktrees, run.entries)
            &&& exists|answers: Seq<AnswerView>|
                #[trigger] surveyed(run.worktree().facts, target_branch).after(answers)
                    == SurveyStepView::Next(run.survey)
        },
    }
}

/// One more answer.
proof fn lemma_survey_goes_on(
    begun: SurveyStepView,
    answers: Seq<AnswerView>,
    survey: SurveyView,
    answer: AnswerView,
)
    requires
        begun.after(answers) == SurveyStepView::Next(survey),
    ensures
        begun.after(answers.push(answer)) == survey.step(answer),
    decreases answers.len(),
{
    reveal_with_fuel(SurveyStepView::after, 3);
    let more = answers.push(answer);
    if answers.len() == 0 {
        assert(more.drop_first() =~= Seq::<AnswerView>::empty());
    } else {
        assert(more.drop_first() =~= answers.drop_first().push(answer));
        if let SurveyStepView::Next(run) = begun {
            lemma_survey_goes_on(
                run.step(answers.first()),
                answers.drop_first(),
                survey,
                answer,
            );
        }
    }
}

proof fn lemma_planned(
    target_branch: Seq<char>,
    worktrees: Seq<WorktreeView>,
    entries: Seq<EntryView>,
)
    requires
        accounted(target_branch, worktrees, entries),
    ensures
        faithful(planned(target_branch, worktrees, entries), target_branch, worktrees),
    decreases worktrees.len() - entries.len(),
{
    if entries.len() < worktrees.len() {
        let worktree = worktrees[entries.len() as int];
        let begun = surveyed(worktree.facts, target_branch);
        assert(begun.after(Seq::empty()) == begun);
        if let SurveyStepView::Done(class) = begun {
            lemma_one_more(target_branch, worktrees, entries, class, Seq::empty());
            lemma_planned(target_branch, worktrees, entries.push(worktree.classified(class)));
        }
    }
}

/// A worktree whose survey is over is accounted for.
proof fn lemma_one_more(
    target_branch: Seq<char>,
    worktrees: Seq<WorktreeView>,
    entries: Seq<EntryView>,
    class: ClassificationView,
    answers: Seq<AnswerView>,
)
    requires
        accounted(target_branch, worktrees, entries),
        entries.len() < worktrees.len(),
        surveyed(worktrees[entries.len() as int].facts, target_branch).after(answers)
            == SurveyStepView::Done(class),
    ensures
        accounted(
            target_branch,
            worktrees,
            entries.push(worktrees[entries.len() as int].classified(class)),
        ),
{
    let entry = worktrees[entries.len() as int].classified(class);
    let more = entries.push(entry);
    assert(accounts_for(entry, worktrees[entries.len() as int], target_branch));
    assert forall|i: int| 0 <= i < more.len() implies accounts_for(
        #[trigger] more[i],
        worktrees[i],
        target_branch,
    ) by {
        if i < entries.len() {
            assert(more[i] == entries[i]);
        }
    }
}

proof fn lemma_accounted(
    step: PlanStepView,
    target_branch: Seq<char>,
    worktrees: Seq<WorktreeView>,
    answers: Seq<AnswerView>,
    entries: Seq<EntryView>,
)
    requires
        faithful(step, target_branch, worktrees),
        step.after(answers) == PlanStepView::Done(entries),
    ensures
        entries.len() == worktrees.len(),
        accounted(target_branch, worktrees, entries),
    decreases answers.len(),
{
    if let PlanStepView::Next(run) = step {
        let answer = answers.first();
        let begun = surveyed(run.worktree().facts, target_branch);
        let so_far = choose|so_far: Seq<AnswerView>|
            #[trigger] begun.after(so_far) == SurveyStepView::Next(run.survey);
        lemma_survey_goes_on(begun, so_far, run.survey, answer);
        if let SurveyStepView::Done(class) = run.survey.step(answer) {
            lemma_one_more(target_branch, worktrees, run.entries, class, so_far.push(answer));
            lemma_planned(
                target_branch,
                worktrees,
                run.entries.push(run.worktree().classified(class)),
            );
        }
        lemma_accounted(
            run.step(answer),
            target_branch,
            worktrees,
            answers.drop_first(),
            entries,
        );
    }
}

} // verus!
