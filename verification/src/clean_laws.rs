//! What holds of every cleanup, whatever the answers.

use vstd::prelude::*;
use crate::answer::AnswerView;
use crate::clean::{ClassificationView, CleanOptions, EntryView, kept, picked};
use crate::clean_plan::{
    PlanStepView, WorktreeView, planned, the_current_and_the_primary_worktree_never_go,
    the_plan_accounts_for_every_worktree,
};
use crate::cleanup::{
    CleanActionView, CleanEndView, CleanView, CleanWayView, FailureView, LineView, lemma_next_from,
    lemma_picked_from, lemma_positions_from, next_from, opening, picked_positions, positions_from,
};
use crate::command::{CommandView, Program};
use crate::removal::BranchDeletionMode;
use crate::text::decimal;

verus! {

impl CleanView {
    /// Where a number of answers leads.
    pub open spec fn after(self, answers: Seq<AnswerView>) -> CleanWayView
        decreases answers.len(),
    {
        if answers.len() == 0 {
            CleanWayView::Next(self)
        } else {
            match self.step(answers.first()).to {
                CleanWayView::Next(run) => run.after(answers.drop_first()),
                done => done,
            }
        }
    }

    /// What is asked for and answered, in order. Answers beyond the end of the
    /// cleanup are not counted.
    pub open spec fn asked(self, answers: Seq<AnswerView>) -> Seq<CleanActionView>
        decreases answers.len(),
    {
        if answers.len() == 0 {
            Seq::empty()
        } else {
            seq![self.action()] + match self.step(answers.first()).to {
                CleanWayView::Next(run) => run.asked(answers.drop_first()),
                CleanWayView::Done(_) => Seq::empty(),
            }
        }
    }

    /// The positions of the worktrees that the answers were about, in order.
    /// Answers beyond the end of the cleanup are not counted.
    pub open spec fn visited(self, answers: Seq<AnswerView>) -> Seq<int>
        decreases answers.len(),
    {
        if answers.len() == 0 {
            Seq::empty()
        } else {
            seq![self.position()] + match self.step(answers.first()).to {
                CleanWayView::Next(run) => run.visited(answers.drop_first()),
                CleanWayView::Done(_) => Seq::empty(),
            }
        }
    }
}

/// The failures among the answers that the worktrees at a number of positions
/// got.
pub open spec fn failures_among(
    entries: Seq<EntryView>,
    positions: Seq<int>,
    answers: Seq<AnswerView>,
) -> Seq<FailureView>
    decreases positions.len(),
{
    if positions.len() == 0 {
        Seq::empty()
    } else {
        let entry = entries[positions.first()];
        (match answers.first() {
            AnswerView::Failed(fault) => seq![
                FailureView {
                    path_id: entry.path_id,
                    error: if entry.class is Prunable {
                        "git worktree prune failed"@
                    } else {
                        fault.message
                    },
                },
            ],
            _ => Seq::empty(),
        }) + failures_among(entries, positions.drop_first(), answers.drop_first())
    }
}

/// Without a confirmation, or on a dry run, nothing is asked for: the cleanup
/// is over with its plan, and nothing has failed.
pub proof fn an_unconfirmed_cleanup_removes_nothing(
    opts: CleanOptions,
    target_branch: Seq<char>,
    entries: Seq<EntryView>,
)
    requires
        opts.dry_run || !opts.yes,
    ensures
        opening(opts, target_branch, entries).to == CleanWayView::Done(
            CleanEndView {
                force: opts.force,
                json: opts.json,
                entries,
                failures: Seq::empty(),
            },
        ),
{
}

/// A confirmed cleanup takes on every worktree that goes, each once and in
/// order, whatever becomes of the others. What it reports as failed is what
/// failed.
pub proof fn each_worktree_that_goes_is_cleaned_once(
    opts: CleanOptions,
    target_branch: Seq<char>,
    entries: Seq<EntryView>,
    run: CleanView,
    answers: Seq<AnswerView>,
)
    requires
        opening(opts, target_branch, entries).to == CleanWayView::Next(run),
        answers.len() >= picked_positions(entries, opts.force).len(),
    ensures
        run.visited(answers) == picked_positions(entries, opts.force),
        run.visited(answers).map_values(|i: int| entries[i]) == picked(entries, opts.force),
        run.after(answers) == CleanWayView::Done(
            CleanEndView {
                force: opts.force,
                json: opts.json,
                entries,
                failures: failures_among(
                    entries,
                    picked_positions(entries, opts.force),
                    answers,
                ),
            },
        ),
{
    lemma_opening(opts, target_branch, entries, run);
    assert(positions_from(entries, 0) =~= Seq::new(entries.len(), |i: int| i));
    lemma_positions_from(entries, opts.force, 0);
    lemma_rest(run, answers);
    lemma_positions_of_picked(entries, opts.force, 0);
    assert(entries.skip(0) =~= entries);
}

/// The worktrees that go, from some place on, are those at the positions that
/// go.
proof fn lemma_positions_of_picked(entries: Seq<EntryView>, force: bool, k: int)
    requires
        0 <= k <= entries.len(),
    ensures
        positions_from(entries, k).filter(|i: int| entries[i].class.goes(force)).map_values(
            |i: int| entries[i],
        ) == picked(entries.skip(k), force),
    decreases entries.len() - k,
{
    lemma_positions_from(entries, force, k);
    lemma_picked_from(entries, force, k);
    let i = next_from(entries, force, k);
    if i < entries.len() {
        lemma_positions_of_picked(entries, force, i + 1);
    }
    assert(positions_from(entries, k).filter(|i: int| entries[i].class.goes(force)).map_values(
        |i: int| entries[i],
    ) =~= picked(entries.skip(k), force));
}

/// A confirmed cleanup begins at the first worktree that goes.
proof fn lemma_opening(
    opts: CleanOptions,
    target_branch: Seq<char>,
    entries: Seq<EntryView>,
    run: CleanView,
)
    requires
        opening(opts, target_branch, entries).to == CleanWayView::Next(run),
    ensures
        run.valid(),
        run.entries == entries,
        run.force == opts.force,
{
    assert(entries.skip(0) =~= entries);
    lemma_picked_from(entries, opts.force, 0);
    lemma_next_from(entries, opts.force, 0);
}

/// The positions of the worktrees that go, after the one that a cleanup stands
/// before.
spec fn later(run: CleanView) -> Seq<int> {
    positions_from(run.entries, run.index + 1).filter(
        |i: int| run.entries[i].class.goes(run.force),
    )
}

proof fn lemma_rest(run: CleanView, answers: Seq<AnswerView>)
    requires
        run.valid(),
        answers.len() > later(run).len(),
    ensures
        ({
            let rest = seq![run.index] + later(run);
            &&& run.visited(answers) == rest
            &&& run.after(answers) == CleanWayView::Done(
                CleanEndView {
                    force: run.force,
                    json: run.json,
                    entries: run.entries,
                    failures: run.failures + failures_among(run.entries, rest, answers),
                },
            )
        }),
    decreases answers.len(),
{
    let tail = later(run);
    let rest = seq![run.index] + tail;
    let others = answers.drop_first();
    lemma_positions_from(run.entries, run.force, run.index + 1);
    lemma_next_from(run.entries, run.force, run.index + 1);
    assert(rest.drop_first() =~= tail);
    assert(rest.first() == run.index);
    match run.step(answers.first()).to {
        CleanWayView::Next(next) => {
            lemma_rest(next, others);
            assert(next.failures =~= run.failures_with(answers.first()));
            assert(run.visited(answers) =~= rest);
            assert(next.failures + failures_among(run.entries, tail, others) =~= run.failures
                + failures_among(run.entries, rest, answers));
        },
        CleanWayView::Done(end) => {
            assert(tail =~= Seq::<int>::empty());
            assert(run.visited(answers) =~= rest);
            assert(failures_among(run.entries, tail, others) =~= Seq::<FailureView>::empty());
            assert(run.failures_with(answers.first()) =~= run.failures + failures_among(
                run.entries,
                rest,
                answers,
            ));
        },
    }
}

/// A cleanup complains exactly if some worktree could not be cleaned.
pub proof fn a_cleanup_complains_of_failures_only(
    entries: Seq<EntryView>,
    positions: Seq<int>,
    answers: Seq<AnswerView>,
    end: CleanEndView,
)
    requires
        answers.len() >= positions.len(),
        end.failures == failures_among(entries, positions, answers),
    ensures
        end.complaint() is Some <==> exists|i: int|
            0 <= i < positions.len() && #[trigger] answers[i] is Failed,
    decreases positions.len(),
{
    if positions.len() > 0 {
        let others = answers.drop_first();
        let rest = CleanEndView {
            failures: failures_among(entries, positions.drop_first(), others),
            ..end
        };
        a_cleanup_complains_of_failures_only(entries, positions.drop_first(), others, rest);
        assert(answers.first() == answers[0]);
        if rest.complaint() is Some {
            let i = choose|i: int| 0 <= i < positions.len() - 1 && #[trigger] others[i] is Failed;
            assert(answers[i + 1] is Failed);
        }
        if exists|i: int| 0 <= i < positions.len() && #[trigger] answers[i] is Failed {
            let i = choose|i: int| 0 <= i < positions.len() && #[trigger] answers[i] is Failed;
            if i > 0 {
                assert(others[i - 1] is Failed);
            }
        }
    }
}

/// Every position that a cleanup comes to is that of a worktree that goes.
proof fn lemma_visits_what_goes(run: CleanView, answers: Seq<AnswerView>, k: int)
    requires
        run.valid(),
        0 <= k < run.visited(answers).len(),
    ensures
        0 <= run.visited(answers)[k] < run.entries.len(),
        run.entries[run.visited(answers)[k]].class.goes(run.force),
    decreases answers.len(),
{
    let first = run.step(answers.first()).to;
    lemma_next_from(run.entries, run.force, run.index + 1);
    if k > 0 {
        if let CleanWayView::Next(next) = first {
            assert(run.visited(answers)[k] == next.visited(answers.drop_first())[k - 1]);
            lemma_visits_what_goes(next, answers.drop_first(), k - 1);
        }
    }
}

/// The primary and the current worktree are never removed: from the list of
/// worktrees to the end of the cleanup, whatever the answers, and with force
/// too, nothing is ever asked for about a worktree that the list says is the
/// current or the primary one.
pub proof fn the_primary_and_the_current_worktree_stay(
    opts: CleanOptions,
    target_branch: Seq<char>,
    worktrees: Seq<WorktreeView>,
    survey_answers: Seq<AnswerView>,
    entries: Seq<EntryView>,
    run: CleanView,
    answers: Seq<AnswerView>,
    k: int,
)
    requires
        planned(target_branch, worktrees, Seq::empty()).after(survey_answers)
            == PlanStepView::Done(entries),
        opening(opts, target_branch, entries).to == CleanWayView::Next(run),
        0 <= k < run.visited(answers).len(),
    ensures
        ({
            let position = run.visited(answers)[k];
            &&& 0 <= position < worktrees.len()
            &&& !worktrees[position].facts.current
            &&& !worktrees[position].facts.primary
        }),
{
    lemma_opening(opts, target_branch, entries, run);
    lemma_visits_what_goes(run, answers, k);
    the_plan_accounts_for_every_worktree(target_branch, worktrees, survey_answers, entries);
    the_current_and_the_primary_worktree_never_go(
        target_branch,
        worktrees,
        survey_answers,
        entries,
        run.visited(answers)[k],
        opts.force,
    );
}

/// The primary and the current worktree are never asked to go; without force
/// none is that holds anything of its own, and nothing is forced.
pub proof fn only_what_may_go_is_asked_to_go(run: CleanView)
    requires
        run.valid(),
    ensures
        !(run.entry().class is Primary),
        !(run.entry().class is Current),
        !run.force ==> run.entry().class is Prunable || run.entry().class is Merged,
        run.action() matches CleanActionView::Remove { mode, force_worktree, .. } ==> (
        force_worktree <==> run.force) && (mode == BranchDeletionMode::ForceDelete <==> run.force),
{
}

/// Where only metadata is left of a worktree, its branch is not touched.
pub proof fn a_missing_worktree_keeps_its_branch(run: CleanView)
    requires
        run.entry().class is Prunable,
    ensures
        run.action() is Prune,
{
}

/// Where JSON was asked for nothing is shown on the way.
pub proof fn json_replaces_the_lines(
    opts: CleanOptions,
    target_branch: Seq<char>,
    entries: Seq<EntryView>,
    run: CleanView,
    answer: AnswerView,
)
    requires
        opts.json,
        run.json,
    ensures
        opening(opts, target_branch, entries).lines.len() == 0,
        run.step(answer).lines.len() == 0,
{
}

/// Whether a worktree may go: one whose directory is gone or whose branch is
/// merged in any case, the primary and the current one in none, and any other
/// one with force.
pub open spec fn may_go(class: ClassificationView, force: bool) -> bool {
    match class {
        ClassificationView::Primary => false,
        ClassificationView::Current => false,
        ClassificationView::Prunable => true,
        ClassificationView::Merged { .. } => true,
        _ => force,
    }
}

/// Whether a position is that of the first worktree that may go, from some place
/// on.
pub open spec fn first_from(entries: Seq<EntryView>, force: bool, k: int, i: int) -> bool {
    &&& k <= i < entries.len()
    &&& may_go(entries[i].class, force)
    &&& forall|j: int| k <= j < i ==> !may_go((#[trigger] entries[j]).class, force)
}

/// Whether some worktree may go, from some place on.
pub open spec fn some_from(entries: Seq<EntryView>, force: bool, k: int) -> bool {
    exists|i: int| k <= i < entries.len() && may_go((#[trigger] entries[i]).class, force)
}

proof fn lemma_first(entries: Seq<EntryView>, force: bool, k: int)
    requires
        0 <= k <= entries.len(),
    ensures
        next_from(entries, force, k) < entries.len() <==> some_from(entries, force, k),
        next_from(entries, force, k) < entries.len() ==> first_from(
            entries,
            force,
            k,
            next_from(entries, force, k),
        ),
{
    lemma_next_from(entries, force, k);
    let i = next_from(entries, force, k);
    if i < entries.len() {
        assert(may_go(entries[i].class, force));
    }
}

/// A cleanup that is confirmed and no dry run goes on to the first worktree that
/// may go whenever there is one. It is over at once exactly if it is not
/// confirmed, or is a dry run, or no worktree may go; then nothing has failed.
pub proof fn a_cleanup_goes_on_exactly_if_confirmed(
    opts: CleanOptions,
    target_branch: Seq<char>,
    entries: Seq<EntryView>,
)
    ensures
        opening(opts, target_branch, entries).to is Next <==> opts.yes && !opts.dry_run
            && some_from(entries, opts.force, 0),
        opening(opts, target_branch, entries).to matches CleanWayView::Next(run) ==> first_from(
            entries,
            opts.force,
            0,
            run.index,
        ) && run == (CleanView {
            force: opts.force,
            json: opts.json,
            target_branch,
            entries,
            failures: Seq::empty(),
            index: run.index,
        }),
        opening(opts, target_branch, entries).to matches CleanWayView::Done(end) ==> end == (
        CleanEndView { force: opts.force, json: opts.json, entries, failures: Seq::empty() }),
{
    assert(entries.skip(0) =~= entries);
    lemma_picked_from(entries, opts.force, 0);
    lemma_first(entries, opts.force, 0);
}

/// After a worktree comes the next one that may go, whatever became of it. The
/// cleanup is over once there is none. A failure is kept under the path of the
/// worktree, and nothing else is.
pub proof fn one_worktree_comes_after_the_other(run: CleanView, answer: AnswerView)
    requires
        run.valid(),
    ensures
        ({
            let failures = match answer {
                AnswerView::Failed(fault) => run.failures.push(
                    FailureView {
                        path_id: run.entries[run.index].path_id,
                        error: if run.entries[run.index].class is Prunable {
                            "git worktree prune failed"@
                        } else {
                            fault.message
                        },
                    },
                ),
                _ => run.failures,
            };
            match run.step(answer).to {
                CleanWayView::Next(next) => first_from(
                    run.entries,
                    run.force,
                    run.index + 1,
                    next.index,
                ) && next == (CleanView { failures, index: next.index, ..run }),
                CleanWayView::Done(end) => !some_from(run.entries, run.force, run.index + 1) && end
                    == (CleanEndView {
                    force: run.force,
                    json: run.json,
                    entries: run.entries,
                    failures,
                }),
            }
        }),
{
    lemma_first(run.entries, run.force, run.index + 1);
}

/// What cleans a worktree: where its directory is gone its metadata is pruned;
/// otherwise it is removed with its branch, judged against the target, with
/// force exactly if that was asked for.
pub open spec fn cleaning(
    entry: EntryView,
    target_branch: Seq<char>,
    force: bool,
) -> CleanActionView {
    match entry.class {
        ClassificationView::Prunable => CleanActionView::Prune(
            CommandView { program: Program::Git, args: seq!["worktree"@, "prune"@] },
        ),
        _ => CleanActionView::Remove {
            path: entry.path,
            branch: entry.branch,
            mode: if force {
                BranchDeletionMode::ForceDelete
            } else {
                BranchDeletionMode::SafeDelete
            },
            target_branch,
            force_worktree: force,
        },
    }
}

/// A confirmed cleanup takes on the worktrees that may go, all of them and no
/// others, in the order of the plan, and asks for the cleaning of each. It ends
/// with the failures among the answers.
pub proof fn every_worktree_that_may_go_is_cleaned(
    opts: CleanOptions,
    target_branch: Seq<char>,
    entries: Seq<EntryView>,
    run: CleanView,
    answers: Seq<AnswerView>,
)
    requires
        opening(opts, target_branch, entries).to == CleanWayView::Next(run),
        answers.len() >= entries.len(),
    ensures
        forall|i: int|
            #[trigger] run.visited(answers).contains(i) <==> 0 <= i < entries.len() && may_go(
                entries[i].class,
                opts.force,
            ),
        forall|a: int, b: int|
            0 <= a < b < run.visited(answers).len() ==> #[trigger] run.visited(answers)[a]
                < #[trigger] run.visited(answers)[b],
        run.asked(answers) == run.visited(answers).map_values(
            |i: int| cleaning(entries[i], target_branch, opts.force),
        ),
        run.after(answers) == CleanWayView::Done(
            CleanEndView {
                force: opts.force,
                json: opts.json,
                entries,
                failures: failures_among(entries, run.visited(answers), answers),
            },
        ),
{
    lemma_opening(opts, target_branch, entries, run);
    a_cleanup_goes_on_exactly_if_confirmed(opts, target_branch, entries);
    lemma_taken_on(run, answers);
    assert(Seq::<FailureView>::empty() + failures_among(entries, run.visited(answers), answers)
        =~= failures_among(entries, run.visited(answers), answers));
}

proof fn lemma_taken_on(run: CleanView, answers: Seq<AnswerView>)
    requires
        run.valid(),
        answers.len() >= run.entries.len() - run.index,
    ensures
        forall|i: int|
            #[trigger] run.visited(answers).contains(i) <==> run.index <= i < run.entries.len()
                && may_go(run.entries[i].class, run.force),
        forall|a: int, b: int|
            0 <= a < b < run.visited(answers).len() ==> #[trigger] run.visited(answers)[a]
                < #[trigger] run.visited(answers)[b],
        run.asked(answers) == run.visited(answers).map_values(
            |i: int| cleaning(run.entries[i], run.target_branch, run.force),
        ),
        run.after(answers) == CleanWayView::Done(
            CleanEndView {
                force: run.force,
                json: run.json,
                entries: run.entries,
                failures: run.failures + failures_among(
                    run.entries,
                    run.visited(answers),
                    answers,
                ),
            },
        ),
    decreases answers.len(),
{
    let all = run.visited(answers);
    let rest = answers.drop_first();
    one_worktree_comes_after_the_other(run, answers.first());
    lemma_next_from(run.entries, run.force, run.index + 1);
    assert(may_go(run.entries[run.index].class, run.force));
    match run.step(answers.first()).to {
        CleanWayView::Next(next) => {
            lemma_taken_on(next, rest);
            let tail = next.visited(rest);
            assert(all =~= seq![run.index] + tail);
            assert(all.drop_first() =~= tail);
            assert forall|k: int| 1 <= k < all.len() implies #[trigger] all[k] == tail[k - 1] by {}
            assert forall|k: int| 0 <= k < tail.len() implies run.index < #[trigger] tail[k] by {
                assert(tail.contains(tail[k]));
            }
            assert forall|i: int| #[trigger] all.contains(i) <==> run.index <= i
                < run.entries.len() && may_go(run.entries[i].class, run.force) by {
                if all.contains(i) {
                    let k = choose|k: int| 0 <= k < all.len() && all[k] == i;
                    if k > 0 {
                        assert(tail[k - 1] == i);
                        assert(tail.contains(i));
                    }
                }
                if run.index <= i < run.entries.len() && may_go(run.entries[i].class, run.force) {
                    if i == run.index {
                        assert(all[0] == i);
                    } else {
                        assert(next.index <= i);
                        assert(tail.contains(i));
                        let k = choose|k: int| 0 <= k < tail.len() && tail[k] == i;
                        assert(all[k + 1] == i);
                    }
                }
            }
            assert(run.asked(answers) =~= all.map_values(
                |i: int| cleaning(run.entries[i], run.target_branch, run.force),
            ));
            assert(next.failures + failures_among(run.entries, tail, rest) =~= run.failures
                + failures_among(run.entries, all, answers));
        },
        CleanWayView::Done(end) => {
            assert(all =~= seq![run.index]);
            assert(all.drop_first() =~= Seq::<int>::empty());
            assert(failures_among(run.entries, all.drop_first(), rest) =~= Seq::<
                FailureView,
            >::empty());
            assert forall|i: int| #[trigger] all.contains(i) <==> run.index <= i
                < run.entries.len() && may_go(run.entries[i].class, run.force) by {
                if i == run.index {
                    assert(all[0] == i);
                }
            }
            assert(run.asked(answers) =~= all.map_values(
                |i: int| cleaning(run.entries[i], run.target_branch, run.force),
            ));
            assert(end.failures =~= run.failures + failures_among(run.entries, all, answers));
        },
    }
}

/// One worktree more: it is among those that go exactly if it may go, and
/// otherwise among those that stay, in either case behind the ones before it.
pub proof fn one_worktree_more(entries: Seq<EntryView>, entry: EntryView, force: bool)
    ensures
        picked(Seq::empty(), force).len() == 0,
        kept(Seq::empty(), force).len() == 0,
        may_go(entry.class, force) ==> picked(entries.push(entry), force) == picked(
            entries,
            force,
        ).push(entry) && kept(entries.push(entry), force) == kept(entries, force),
        !may_go(entry.class, force) ==> picked(entries.push(entry), force) == picked(
            entries,
            force,
        ) && kept(entries.push(entry), force) == kept(entries, force).push(entry),
{
    reveal(Seq::filter);
    entries.lemma_filter_push(entry, |e: EntryView| e.class.goes(force));
    entries.lemma_filter_push(entry, |e: EntryView| !e.class.goes(force));
}

/// The plan as it is shown: a heading and a line for each worktree, in order.
/// The line says whether the worktree goes, where it is, what it is and which
/// branch it has. Where nothing is removed a last line says so, with the number
/// of worktrees that may go. JSON replaces all of it.
pub proof fn the_plan_is_shown(
    opts: CleanOptions,
    target_branch: Seq<char>,
    entries: Seq<EntryView>,
    i: int,
)
    requires
        !opts.json,
        0 <= i < entries.len(),
    ensures
        ({
            let step = opening(opts, target_branch, entries);
            let entry = entries[i];
            &&& step.lines.len() == entries.len() + 1 + (if step.to is Done {
                1int
            } else {
                0int
            })
            &&& step.lines[0] == LineView::Info("wt clean — plan:"@)
            &&& step.lines[i + 1] == LineView::Plain(
                (if may_go(entry.class, opts.force) {
                    "  ["@ + "clean"@ + "] "@
                } else {
                    "  ["@ + "skip"@ + "] "@
                }) + entry.path + " — "@ + entry.class.label() + " ("@ + (match entry.branch {
                    Some(branch) => branch,
                    None => "(detached)"@,
                }) + ")"@,
            )
        }),
{
}

/// What is shown where nothing is removed.
pub proof fn a_refusal_to_clean_is_shown(
    opts: CleanOptions,
    target_branch: Seq<char>,
    entries: Seq<EntryView>,
)
    requires
        !opts.json,
        !opts.yes || opts.dry_run || !some_from(entries, opts.force, 0),
    ensures
        ({
            let shown = opening(opts, target_branch, entries).lines.last();
            let count = decimal(picked(entries, opts.force).len());
            if !some_from(entries, opts.force, 0) {
                shown == LineView::Info("Nothing to clean."@)
            } else if opts.dry_run {
                shown == LineView::Info(
                    "Dry run — would clean "@ + count
                        + " worktree(s). Re-run without --dry-run to apply."@,
                )
            } else {
                shown == LineView::Info(
                    "Would clean "@ + count + " worktree(s). Re-run with --yes to confirm."@,
                )
            }
        }),
{
    a_cleanup_goes_on_exactly_if_confirmed(opts, target_branch, entries);
    assert(entries.skip(0) =~= entries);
    lemma_picked_from(entries, opts.force, 0);
    lemma_first(entries, opts.force, 0);
}

/// What is shown of each worktree that is taken on: that it was cleaned, or why
/// it was not.
pub proof fn each_cleaning_is_shown(run: CleanView, answer: AnswerView)
    requires
        !run.json,
    ensures
        run.step(answer).lines.len() == 1,
        ({
            let entry = run.entries[run.index];
            run.step(answer).lines[0] == LineView::Info(
                match answer {
                    AnswerView::Failed(fault) => "Failed to clean "@ + entry.path + " ("@
                        + entry.class.label() + "): "@ + (if entry.class is Prunable {
                        "git worktree prune failed"@
                    } else {
                        fault.message
                    }),
                    _ => "Cleaned "@ + entry.path + " ("@ + entry.class.label() + ")"@,
                },
            )
        }),
{
}

/// A complaint says how many worktrees could not be cleaned.
pub proof fn a_complaint_counts_the_failures(end: CleanEndView)
    ensures
        end.failures.len() == 0 ==> end.complaint() is None,
        end.failures.len() > 0 ==> end.complaint() == Some(
            "wt clean: "@ + decimal(end.failures.len()) + " worktree(s) failed to clean"@,
        ),
{
}

/// No two sorts of worktrees go by the same word, and all of one sort go by the
/// same.
pub proof fn each_sort_has_its_word(a: ClassificationView, b: ClassificationView)
    ensures
        a.label() == b.label() <==> match a {
            ClassificationView::Primary => b is Primary,
            ClassificationView::Current => b is Current,
            ClassificationView::Locked { .. } => b is Locked,
            ClassificationView::Prunable => b is Prunable,
            ClassificationView::Dirty => b is Dirty,
            ClassificationView::NotMerged { .. } => b is NotMerged,
            ClassificationView::DetachedHead => b is DetachedHead,
            ClassificationView::Merged { .. } => b is Merged,
        },
{
    reveal_strlit("primary");
    reveal_strlit("current");
    reveal_strlit("locked");
    reveal_strlit("merged");
    reveal_strlit("prunable");
    reveal_strlit("detached");
    reveal_strlit("dirty");
    reveal_strlit("not-merged");
    assert("primary"@.len() == 7 && "primary"@[0] == 'p');
    assert("current"@.len() == 7 && "current"@[0] == 'c');
    assert("locked"@.len() == 6 && "locked"@[0] == 'l');
    assert("merged"@.len() == 6 && "merged"@[0] == 'm');
    assert("prunable"@.len() == 8 && "prunable"@[0] == 'p');
    assert("detached"@.len() == 8 && "detached"@[0] == 'd');
    assert("dirty"@.len() == 5);
    assert("not-merged"@.len() == 10);
}

/// The word for what is done with a worktree, and the reason for what it is: a
/// branch is named, and so is what a lock says of itself.
pub proof fn the_reason_names_what_it_is_about(class: ClassificationView, force: bool)
    ensures
        class.action(force) == if may_go(class, force) {
            "clean"@
        } else {
            "skip"@
        },
        class matches ClassificationView::Locked { reason } ==> class.reason() == (
        if reason.len() == 0 {
            "locked"@
        } else {
            "locked: "@ + reason
        }),
        class matches ClassificationView::NotMerged { branch } ==> class.reason() == "branch "@
            + branch + " has commits not on target"@,
        class matches ClassificationView::Merged { branch } ==> class.reason() == "branch "@
            + branch + " merged into target"@,
{
}

} // verus!
