//! What holds of every merge, whatever the answers.

use vstd::prelude::*;
use crate::answer::AnswerView;
use crate::fault::FaultView;
use crate::merge::{
    MergePhase, MergeView, MergeWayView, Progress, resync_command, starting,
};
use crate::merge_action::MergeActionView;
use crate::merge_end::{EndView, MergeErrorView, Note, ReportView};
use crate::merge_options::{HookType, MergeOptions, MergeSettings, SwitchFormat, plan_of};
use crate::merge_report::{printed, report_json};
use crate::reconcile::OutcomeView;
use crate::removal::BranchDeletionMode;
use crate::text::{shortens, trimmed};

verus! {

impl MergeView {
    /// Where a number of answers leads.
    pub open spec fn after(self, answers: Seq<AnswerView>) -> MergeWayView
        decreases answers.len(),
    {
        if answers.len() == 0 {
            MergeWayView::Next(self)
        } else {
            match self.step(answers.first()).to {
                MergeWayView::Next(run) => run.after(answers.drop_first()),
                done => done,
            }
        }
    }

    /// What the merge stood before when each of the answers was given. Answers
    /// beyond its end are not counted.
    pub open spec fn visited(self, answers: Seq<AnswerView>) -> Seq<MergeView>
        decreases answers.len(),
    {
        if answers.len() == 0 {
            Seq::empty()
        } else {
            seq![self] + match self.step(answers.first()).to {
                MergeWayView::Next(run) => run.visited(answers.drop_first()),
                MergeWayView::Done(_) => Seq::empty(),
            }
        }
    }
}

/// How far along a point is.
spec fn rank(phase: MergePhase) -> nat {
    match phase {
        MergePhase::CheckClean => 0,
        MergePhase::RequireTarget => 1,
        MergePhase::FindWorktree => 2,
        MergePhase::LoadConfig => 3,
        MergePhase::CheckDirtyForHooks => 4,
        MergePhase::Approve { .. } => 5,
        MergePhase::CheckDirtyForCommit => 6,
        MergePhase::Commit => 7,
        MergePhase::CheckDirtyForGuard => 8,
        MergePhase::Guard { .. } => 9,
        MergePhase::Squash => 10,
        MergePhase::Rebase => 11,
        MergePhase::CheckRebased => 11,
        MergePhase::PreMerge => 12,
        MergePhase::Reconcile => 13,
        MergePhase::MergeLocally => 13,
        MergePhase::Summarize { .. } => 14,
        MergePhase::Resync => 15,
        MergePhase::FindHome => 16,
        MergePhase::ReadCommit => 17,
        MergePhase::CheckPrimary => 18,
        MergePhase::CheckNotDefault => 19,
        MergePhase::EnsureClean => 20,
        MergePhase::Remove => 21,
        MergePhase::PostMerge => 22,
    }
}

/// Where an answer leads.
#[verifier::opaque]
spec fn moved(run: MergeView, answer: AnswerView) -> MergeWayView {
    run.step(answer).to
}

/// Whether a merge stands at its start.
pub open spec fn begins(run: MergeView) -> bool {
    run == starting(
        run.plan,
        run.requested_target,
        run.current_branch,
        run.worktree_path,
        Some(run.worktree_name),
    )
}

/// Whether the merge is about to change the target.
pub open spec fn lands(run: MergeView) -> bool {
    run.action() is Reconcile || run.action() is MergeLocally
}

/// Whether the merge is about to run hooks, itself or in what it asks for.
pub open spec fn runs_hooks(run: MergeView) -> bool {
    match run.action() {
        MergeActionView::RunPreMergeHooks { .. } => true,
        MergeActionView::RunPostMergeHooks { .. } => true,
        MergeActionView::Commit { verify, .. } => verify,
        MergeActionView::Squash { verify, .. } => verify,
        MergeActionView::RemoveWorktree { verify, .. } => verify,
        _ => false,
    }
}

/// Whether every answer is one to what was asked.
pub open spec fn fitting(run: MergeView, answers: Seq<AnswerView>) -> bool {
    forall|k: int|
        0 <= k < run.visited(answers).len() ==> (#[trigger] run.visited(answers)[k]).expects(
            answers[k],
        )
}

/// Each answer leads from one point to the next.
proof fn lemma_next(run: MergeView, answers: Seq<AnswerView>, i: int)
    requires
        0 <= i < run.visited(answers).len(),
    ensures
        run.visited(answers).len() <= answers.len(),
        run.visited(answers)[0] == run,
        i + 1 < run.visited(answers).len() ==> moved(run.visited(answers)[i], answers[i])
            == MergeWayView::Next(run.visited(answers)[i + 1]),
    decreases answers.len(),
{
    reveal(moved);
    reveal_with_fuel(MergeView::visited, 2);
    match run.step(answers.first()).to {
        MergeWayView::Next(next) => {
            let rest = answers.drop_first();
            let tail = next.visited(rest);
            assert(run.visited(answers) == seq![run] + tail);
            if tail.len() > 0 {
                if i > 0 {
                    lemma_next(next, rest, i - 1);
                    assert(run.visited(answers)[i] == tail[i - 1]);
                    assert(answers[i] == rest[i - 1]);
                } else {
                    lemma_next(next, rest, 0);
                    assert(run.visited(answers)[1] == tail[0]);
                }
            }
        },
        MergeWayView::Done(_) => {},
    }
}

/// The last answer is the one that ends the merge.
proof fn lemma_last(run: MergeView, answers: Seq<AnswerView>)
    requires
        run.after(answers) is Done,
    ensures
        0 < run.visited(answers).len() <= answers.len(),
        moved(run.visited(answers).last(), answers[run.visited(answers).len() - 1]) == run.after(
            answers,
        ),
    decreases answers.len(),
{
    reveal(moved);
    reveal_with_fuel(MergeView::visited, 2);
    match run.step(answers.first()).to {
        MergeWayView::Next(next) => {
            let rest = answers.drop_first();
            lemma_last(next, rest);
            let tail = next.visited(rest);
            assert(run.visited(answers) == seq![run] + tail);
            assert(run.visited(answers).last() == tail.last());
            assert(answers[tail.len() as int] == rest[tail.len() - 1]);
        },
        MergeWayView::Done(_) => {},
    }
}

/// What holds at one point and is kept by every answer holds from there on.
proof fn lemma_kept(
    run: MergeView,
    answers: Seq<AnswerView>,
    j: int,
    i: int,
    kept: spec_fn(MergeView) -> bool,
)
    requires
        0 <= j <= i < run.visited(answers).len(),
        kept(run.visited(answers)[j]),
        forall|m: MergeView, a: AnswerView|
            kept(m) && #[trigger] moved(m, a) is Next ==> kept(moved(m, a)->Next_0),
    ensures
        kept(run.visited(answers)[i]),
    decreases i - j,
{
    if j < i {
        lemma_next(run, answers, j);
        let m = run.visited(answers)[j];
        assert(moved(m, answers[j]) is Next);
        lemma_kept(run, answers, j + 1, i, kept);
    }
}

/// Where every way from before a point to past it leads over a milestone, a
/// merge that is past the point came over the milestone.
proof fn lemma_passed(
    run: MergeView,
    answers: Seq<AnswerView>,
    i: int,
    before: spec_fn(MergeView) -> bool,
    milestone: spec_fn(MergeView, AnswerView) -> bool,
) -> (j: int)
    requires
        0 <= i < run.visited(answers).len(),
        before(run),
        !before(run.visited(answers)[i]),
        forall|m: MergeView, a: AnswerView|
            before(m) && !milestone(m, a) && #[trigger] moved(m, a) is Next ==> before(
                moved(m, a)->Next_0,
            ),
    ensures
        0 <= j < i,
        milestone(run.visited(answers)[j], answers[j]),
    decreases i,
{
    lemma_next(run, answers, 0);
    assert(i > 0);
    lemma_next(run, answers, i - 1);
    let m = run.visited(answers)[i - 1];
    let a = answers[i - 1];
    assert(moved(m, a) is Next);
    if before(m) {
        assert(milestone(m, a));
        i - 1
    } else {
        lemma_passed(run, answers, i - 1, before, milestone)
    }
}

/// A merge asks for at most twenty-three things.
pub proof fn every_merge_ends(run: MergeView, answers: Seq<AnswerView>)
    requires
        answers.len() >= 23,
    ensures
        run.after(answers) is Done,
{
    lemma_ends(run, answers);
}

proof fn lemma_ends(run: MergeView, answers: Seq<AnswerView>)
    requires
        answers.len() + rank(run.phase) >= 23,
    ensures
        run.after(answers) is Done,
    decreases answers.len(),
{
    if answers.len() > 0 {
        lemma_next_phase(run, answers.first());
        if let MergeWayView::Next(next) = run.step(answers.first()).to {
            lemma_ends(next, answers.drop_first());
        }
    }
}

/// What an answer changes, and what it leaves as it was.
proof fn lemma_changes(run: MergeView, answer: AnswerView)
    requires
        moved(run, answer) is Next,
    ensures
        ({
            let next = moved(run, answer)->Next_0;
            let was = run.progress;
            let is = next.progress;
            &&& run.next(answer) == Some(next.phase)
            &&& next.plan == run.plan
            &&& next.current_branch == run.current_branch
            &&& next.target_branch == run.target_branch || run.phase is RequireTarget
                && answer.text() == Some(next.target_branch)
            &&& next.target_worktree == run.target_worktree || run.phase is FindWorktree
            &&& is.verify == (was.verify && !(run.phase is Approve && !(answer is Yes)))
            &&& is.committed == (was.committed || run.phase is Commit)
            &&& is.squashed == (if run.phase is Squash {
                answer is Yes
            } else {
                was.squashed
            })
            &&& is.rebased == (if run.phase is Rebase {
                answer is Yes
            } else {
                was.rebased
            })
            &&& is.removed == (was.removed || run.phase is Remove)
        }),
{
    reveal(moved);
}

/// Which way an answer leads.
proof fn lemma_next_phase(run: MergeView, answer: AnswerView)
    ensures
        run.next(answer) matches Some(phase) ==> {
            &&& rank(run.phase) < rank(phase)
            &&& answer is Failed ==> run.tolerates()
            &&& rank(run.phase) <= 5 < rank(phase) ==> run.phase is Approve
            &&& rank(run.phase) <= 9 < rank(phase) && run.plan.push_to_origin ==> run.phase
                is Guard
            &&& rank(run.phase) <= 11 < rank(phase) ==> run.phase is Rebase || run.phase
                is CheckRebased && answer is Yes
            &&& rank(run.phase) < 13 <= rank(phase) && run.progress.verify ==> run.phase
                is PreMerge
            &&& rank(run.phase) <= 15 < rank(phase) && run.plan.push_to_origin
                && run.target_worktree is Some ==> run.phase is Resync || run.phase is MergeLocally
            &&& rank(run.phase) <= 13 < rank(phase) ==> run.phase is MergeLocally || run.phase
                is Reconcile && answer->Reconciled_0.merged_pr() is Some
            &&& rank(run.phase) <= 18 < rank(phase) <= 21 ==> run.phase is CheckPrimary && !(
            answer is Yes)
            &&& rank(run.phase) <= 19 < rank(phase) <= 21 ==> run.phase is CheckNotDefault
            &&& rank(run.phase) <= 20 < rank(phase) <= 21 ==> run.phase is EnsureClean
        },
{
}

/// Which conditions lead to which point.
proof fn lemma_conditions(run: MergeView, answer: AnswerView)
    ensures
        run.next(answer) matches Some(phase) ==> {
            &&& phase is PreMerge || phase is PostMerge ==> run.progress.verify
            &&& phase is CheckDirtyForCommit ==> run.plan.commit
            &&& phase is Commit ==> run.phase is CheckDirtyForCommit
            &&& phase is Squash ==> run.plan.squash
            &&& phase is Rebase ==> run.plan.rebase
            &&& phase is CheckRebased ==> !run.plan.rebase
            &&& phase is CheckDirtyForGuard || phase is Reconcile ==> run.plan.push_to_origin
            &&& phase is Guard ==> run.phase is CheckDirtyForGuard
            &&& phase is MergeLocally ==> !run.plan.push_to_origin
            &&& phase is CheckPrimary ==> run.phase is ReadCommit && run.plan.remove
                && !run.on_target()
        },
{
}

/// Hooks gate the landing: where hooks were asked for and not declined, the
/// pre-merge hooks have run, without a failure, before anything is done that
/// changes the target.
pub proof fn pre_merge_hooks_gate_the_landing(
    run: MergeView,
    answers: Seq<AnswerView>,
    i: int,
) -> (j: int)
    requires
        begins(run),
        run.plan.verify,
        0 <= i < run.visited(answers).len(),
        lands(run.visited(answers)[i]),
        forall|k: int|
            0 <= k < i && (#[trigger] run.visited(answers)[k]).action() is Approve
                ==> answers[k] is Yes,
    ensures
        0 <= j < i,
        run.visited(answers)[j].action() is RunPreMergeHooks,
        !(answers[j] is Failed),
{
    let before = |m: MergeView| rank(m.phase) < 13 && m.progress.verify;
    let milestone = |m: MergeView, a: AnswerView|
        m.phase is PreMerge && !(a is Failed) || m.phase is Approve && !(a is Yes);
    assert forall|m: MergeView, a: AnswerView|
        before(m) && !milestone(m, a) && #[trigger] moved(m, a) is Next implies before(
        moved(m, a)->Next_0,
    ) by {
        lemma_changes(m, a);
        lemma_next_phase(m, a);
    }
    lemma_passed(run, answers, i, before, milestone)
}

/// No command of the project runs unless hooks were asked for and the commands
/// were approved before.
pub proof fn hooks_run_only_once_approved(
    run: MergeView,
    answers: Seq<AnswerView>,
    i: int,
) -> (j: int)
    requires
        begins(run),
        0 <= i < run.visited(answers).len(),
        runs_hooks(run.visited(answers)[i]),
    ensures
        run.plan.verify,
        0 <= j < i,
        run.visited(answers)[j].action() is Approve,
        answers[j] is Yes,
{
    lemma_next(run, answers, 0);
    let plan = run.plan;
    let kept = |m: MergeView|
        m.plan == plan && (m.progress.verify ==> plan.verify) && (m.phase is PreMerge || m.phase
            is PostMerge ==> m.progress.verify);
    assert forall|m: MergeView, a: AnswerView|
        kept(m) && #[trigger] moved(m, a) is Next implies kept(moved(m, a)->Next_0) by {
        lemma_changes(m, a);
        lemma_conditions(m, a);
    }
    lemma_kept(run, answers, 0, i, kept);
    let before = |m: MergeView| rank(m.phase) <= 5 || !m.progress.verify;
    let milestone = |m: MergeView, a: AnswerView| m.phase is Approve && a is Yes;
    assert forall|m: MergeView, a: AnswerView|
        before(m) && !milestone(m, a) && #[trigger] moved(m, a) is Next implies before(
        moved(m, a)->Next_0,
    ) by {
        lemma_changes(m, a);
        lemma_next_phase(m, a);
    }
    lemma_passed(run, answers, i, before, milestone)
}

/// What is put up for approval covers the hooks that the merge runs around the
/// landing and the removal, and those of the commit where one is certain.
pub proof fn approval_covers_the_hooks(run: MergeView, dirty: bool, hook: HookType)
    requires
        run.phase == (MergePhase::Approve { changes: Some(dirty) }),
        run.plan.verify,
        match hook {
            HookType::PreMerge | HookType::PostMerge => true,
            HookType::PreRemove | HookType::PostRemove | HookType::PostSwitch => run.plan.remove
                && !run.on_target(),
            HookType::PreCommit | HookType::PostCommit => run.plan.commit && (dirty
                || run.plan.squash),
        },
    ensures
        run.action() matches MergeActionView::Approve { hooks, .. } && hooks.contains(hook),
{
    let hooks = run.hooks(Some(dirty));
    let first = if run.plan.commit && (dirty || run.plan.squash) {
        2int
    } else {
        0int
    };
    match hook {
        HookType::PreCommit => assert(hooks[0] == hook),
        HookType::PostCommit => assert(hooks[1] == hook),
        HookType::PreMerge => assert(hooks[first] == hook),
        HookType::PostMerge => assert(hooks[first + 1] == hook),
        HookType::PreRemove => assert(hooks[first + 2] == hook),
        HookType::PostRemove => assert(hooks[first + 3] == hook),
        HookType::PostSwitch => assert(hooks[first + 4] == hook),
    }
}

/// The plan of a merge never changes.
pub proof fn the_plan_never_changes(run: MergeView, answers: Seq<AnswerView>, i: int)
    requires
        0 <= i < run.visited(answers).len(),
    ensures
        run.visited(answers)[i].plan == run.plan,
{
    lemma_next(run, answers, 0);
    let plan = run.plan;
    let kept = |m: MergeView| m.plan == plan;
    assert forall|m: MergeView, a: AnswerView|
        kept(m) && #[trigger] moved(m, a) is Next implies kept(moved(m, a)->Next_0) by {
        lemma_changes(m, a);
    }
    lemma_kept(run, answers, 0, i, kept);
}

/// A merge prints its report exactly if JSON was asked for and something was
/// merged.
pub proof fn the_report_is_printed_exactly_if_json_was_asked_for(
    opts: MergeOptions<'_>,
    settings: MergeSettings,
    run: MergeView,
    answers: Seq<AnswerView>,
    end: EndView,
)
    requires
        run.plan == plan_of(opts, settings),
        run.after(answers) == MergeWayView::Done(Ok(end)),
    ensures
        printed(end) is Some <==> opts.format == SwitchFormat::Json && end is Merged,
        printed(end) matches Some(document) ==> end matches EndView::Merged(report) && document
            == report_json(report),
{
    lemma_last(run, answers);
    let n = run.visited(answers).len() - 1;
    lemma_ending(run.visited(answers)[n], answers[n]);
    the_plan_never_changes(run, answers, n);
}

/// A merge lands in one way: through the remote if that is configured, and
/// otherwise locally.
pub proof fn the_landing_is_as_configured(run: MergeView, answers: Seq<AnswerView>, i: int)
    requires
        begins(run),
        0 <= i < run.visited(answers).len(),
    ensures
        run.plan.push_to_origin ==> !(run.visited(answers)[i].action() is MergeLocally),
        !run.plan.push_to_origin ==> !(run.visited(answers)[i].action() is Reconcile)
            && !(run.visited(answers)[i].action() is EnsurePrBranch),
{
    lemma_next(run, answers, 0);
    let plan = run.plan;
    let kept = |m: MergeView|
        m.plan == plan && (m.phase is MergeLocally ==> !plan.push_to_origin) && (
        m.phase is Reconcile || m.phase is Guard || m.phase is CheckDirtyForGuard
            ==> plan.push_to_origin);
    assert forall|m: MergeView, a: AnswerView|
        kept(m) && #[trigger] moved(m, a) is Next implies kept(moved(m, a)->Next_0) by {
        lemma_changes(m, a);
        lemma_conditions(m, a);
    }
    lemma_kept(run, answers, 0, i, kept);
}

/// Local commits are on the remote branch, or the merge is refused, before
/// anything is squashed or landed through the remote.
pub proof fn local_commits_are_secured_first(
    run: MergeView,
    answers: Seq<AnswerView>,
    i: int,
) -> (j: int)
    requires
        begins(run),
        run.plan.push_to_origin,
        0 <= i < run.visited(answers).len(),
        run.visited(answers)[i].action() is Squash || lands(run.visited(answers)[i]),
    ensures
        0 <= j < i,
        run.visited(answers)[j].action() matches MergeActionView::EnsurePrBranch { branch, .. }
            && branch == run.current_branch,
        !(answers[j] is Failed),
{
    let branch = run.current_branch;
    let before = |m: MergeView|
        rank(m.phase) <= 9 && m.plan.push_to_origin && m.current_branch == branch;
    let milestone = |m: MergeView, a: AnswerView|
        m.phase is Guard && m.current_branch == branch && !(a is Failed);
    assert forall|m: MergeView, a: AnswerView|
        before(m) && !milestone(m, a) && #[trigger] moved(m, a) is Next implies before(
        moved(m, a)->Next_0,
    ) by {
        lemma_changes(m, a);
        lemma_next_phase(m, a);
    }
    lemma_passed(run, answers, i, before, milestone)
}

/// The target that an action names.
pub open spec fn target_of(action: MergeActionView) -> Option<Seq<char>> {
    match action {
        MergeActionView::WorktreeFor { branch } => Some(branch),
        MergeActionView::Commit { target_branch, .. } => Some(target_branch),
        MergeActionView::Squash { target_branch, .. } => Some(target_branch),
        MergeActionView::Rebase { target_branch } => Some(target_branch),
        MergeActionView::IsRebasedOnto { target_branch } => Some(target_branch),
        MergeActionView::Reconcile { target_branch, .. } => Some(target_branch),
        MergeActionView::Summarize { target_branch, .. } => Some(target_branch),
        MergeActionView::MergeLocally { target_branch, .. } => Some(target_branch),
        MergeActionView::RemoveWorktree { target_branch, .. } => Some(target_branch),
        _ => None,
    }
}

/// The branch to be merged that an action names.
pub open spec fn branch_of(action: MergeActionView) -> Option<Seq<char>> {
    match action {
        MergeActionView::EnsurePrBranch { branch, .. } => Some(branch),
        MergeActionView::Reconcile { branch, .. } => Some(branch),
        MergeActionView::MergeLocally { branch, .. } => Some(branch),
        MergeActionView::CheckNotDefaultBranch { branch, .. } => Some(branch),
        MergeActionView::EnsureClean { branch, .. } => Some(branch),
        MergeActionView::RemoveWorktree { branch, .. } => Some(branch),
        _ => None,
    }
}

/// The template variables that an action hands to hooks.
pub open spec fn variables_of(action: MergeActionView) -> Option<Seq<(Seq<char>, Seq<char>)>> {
    match action {
        MergeActionView::RunPreMergeHooks { variables } => Some(variables),
        MergeActionView::RunPostMergeHooks { variables, .. } => Some(variables),
        _ => None,
    }
}

/// Whatever names a target names the branch that was answered when the target
/// was asked for, and comes after that question, which is put once. Hooks are
/// told of the same branch.
pub proof fn the_target_is_the_one_that_was_found(
    run: MergeView,
    answers: Seq<AnswerView>,
    j: int,
    i: int,
    target: Seq<char>,
)
    requires
        begins(run),
        0 <= j < run.visited(answers).len(),
        run.visited(answers)[j].action() is RequireTarget,
        answers[j] == AnswerView::Text(target),
        0 <= i < run.visited(answers).len(),
    ensures
        target_of(run.visited(answers)[i].action()) matches Some(named) ==> j < i && named
            == target,
        variables_of(run.visited(answers)[i].action()) matches Some(variables) ==> j < i
            && variables.len() > 0 && variables[0] == ("target"@, target),
        i != j ==> !(run.visited(answers)[i].action() is RequireTarget),
{
    lemma_ordered(run, answers, if i < j {
        i
    } else {
        j
    }, if i < j {
        j
    } else {
        i
    });
    if j < i {
        lemma_further(run, answers, j, i);
        lemma_next(run, answers, j);
        lemma_changes(run.visited(answers)[j], answers[j]);
        lemma_next_phase(run.visited(answers)[j], answers[j]);
        let next = run.visited(answers)[j + 1];
        assert(next.target_branch == target) by {
            reveal(moved);
        }
        let kept = |m: MergeView| m.target_branch == target && rank(m.phase) > 1;
        assert forall|m: MergeView, a: AnswerView|
            kept(m) && #[trigger] moved(m, a) is Next implies kept(moved(m, a)->Next_0) by {
            lemma_changes(m, a);
            lemma_next_phase(m, a);
        }
        lemma_kept(run, answers, j + 1, i, kept);
    } else if i < j {
        lemma_further(run, answers, i, j);
    }
}

/// Whatever names the branch to be merged names the branch that the merge was
/// started on.
pub proof fn the_branch_is_the_one_being_merged(
    run: MergeView,
    answers: Seq<AnswerView>,
    i: int,
)
    requires
        0 <= i < run.visited(answers).len(),
    ensures
        branch_of(run.visited(answers)[i].action()) matches Some(named) ==> named
            == run.current_branch,
{
    lemma_next(run, answers, 0);
    let branch = run.current_branch;
    let kept = |m: MergeView| m.current_branch == branch;
    assert forall|m: MergeView, a: AnswerView|
        kept(m) && #[trigger] moved(m, a) is Next implies kept(moved(m, a)->Next_0) by {
        lemma_changes(m, a);
    }
    lemma_kept(run, answers, 0, i, kept);
}

/// The branch is on top of the target when it lands: it was rebased onto the
/// very branch that it lands on, or it was found to be on top of that one
/// already.
pub proof fn the_branch_is_on_the_target_when_it_lands(
    run: MergeView,
    answers: Seq<AnswerView>,
    i: int,
) -> (j: int)
    requires
        begins(run),
        0 <= i < run.visited(answers).len(),
        lands(run.visited(answers)[i]),
    ensures
        0 <= j < i,
        match run.visited(answers)[j].action() {
            MergeActionView::Rebase { target_branch } => run.plan.rebase && !(answers[j] is Failed)
                && Some(target_branch) == target_of(run.visited(answers)[i].action()),
            MergeActionView::IsRebasedOnto { target_branch } => !run.plan.rebase && answers[j]
                is Yes && Some(target_branch) == target_of(run.visited(answers)[i].action()),
            _ => false,
        },
{
    let plan = run.plan;
    let before = |m: MergeView|
        rank(m.phase) <= 11 && m.plan == plan && (m.phase is Rebase ==> plan.rebase) && (m.phase
            is CheckRebased ==> !plan.rebase);
    let milestone = |m: MergeView, a: AnswerView|
        m.phase is Rebase && plan.rebase && !(a is Failed) || m.phase is CheckRebased
            && !plan.rebase && a is Yes;
    assert forall|m: MergeView, a: AnswerView|
        before(m) && !milestone(m, a) && #[trigger] moved(m, a) is Next implies before(
        moved(m, a)->Next_0,
    ) by {
        lemma_changes(m, a);
        lemma_next_phase(m, a);
        lemma_conditions(m, a);
    }
    let j = lemma_passed(run, answers, i, before, milestone);
    let target = run.visited(answers)[j].target_branch;
    let kept = |m: MergeView| m.target_branch == target && rank(m.phase) > 1;
    assert forall|m: MergeView, a: AnswerView|
        kept(m) && #[trigger] moved(m, a) is Next implies kept(moved(m, a)->Next_0) by {
        lemma_changes(m, a);
        lemma_next_phase(m, a);
    }
    lemma_kept(run, answers, j, i, kept);
    j
}

/// Whether a failure of an action cannot fail the merge: it is only shown or
/// tidied up once the branch has landed.
pub open spec fn dispensable(action: MergeActionView) -> bool {
    action is Summarize || action is ResyncTarget || action is ReadCommit
}

/// What fails ends the merge with that failure and nothing else, unless it is
/// dispensable; then the merge goes on or is reported as done.
pub proof fn a_failure_ends_the_merge(
    run: MergeView,
    answers: Seq<AnswerView>,
    i: int,
    fault: FaultView,
)
    requires
        0 <= i < run.visited(answers).len(),
        answers[i] == AnswerView::Failed(fault),
    ensures
        !dispensable(run.visited(answers)[i].action()) ==> run.after(answers)
            == MergeWayView::Done(Err(MergeErrorView::Failed(fault))) && run.visited(
            answers,
        ).len() == i + 1 && run.visited(answers)[i].step(answers[i]).note is None,
        dispensable(run.visited(answers)[i].action()) ==> {
            ||| run.visited(answers)[i].step(answers[i]).to is Next
            ||| run.visited(answers)[i].step(answers[i]).to matches MergeWayView::Done(
                Ok(EndView::Merged(_)),
            )
        },
{
    let m = run.visited(answers)[i];
    if !dispensable(m.action()) {
        assert(moved(m, answers[i]) == MergeWayView::Done(Err(MergeErrorView::Failed(fault))))
            by {
            reveal(moved);
        }
        lemma_stops(run, answers, i);
    }
}

/// A branch that is not to be rebased and is not on top of the target is not
/// merged.
pub proof fn a_branch_off_the_target_is_refused(
    run: MergeView,
    answers: Seq<AnswerView>,
    i: int,
    target_branch: Seq<char>,
)
    requires
        0 <= i < run.visited(answers).len(),
        run.visited(answers)[i].action() == (MergeActionView::IsRebasedOnto { target_branch }),
        answers[i] is No,
    ensures
        run.after(answers) == MergeWayView::Done(Err(MergeErrorView::NotRebased { target_branch })),
        run.visited(answers).len() == i + 1,
{
    let m = run.visited(answers)[i];
    assert(moved(m, answers[i]) == MergeWayView::Done(
        Err(MergeErrorView::NotRebased { target_branch }),
    )) by {
        reveal(moved);
    }
    lemma_stops(run, answers, i);
}

/// A question is answered with yes or no, a request for a name with a text, the
/// reconciliation with what it came to, and anything else by its being done.
/// The commit, once its name is trimmed, can be cut short. Everything may fail.
pub proof fn answers_are_in_kind(run: MergeView, answer: AnswerView)
    ensures
        run.expects(answer) <==> (answer is Failed || match run.action() {
            MergeActionView::IsDirty => answer is Yes || answer is No,
            MergeActionView::RequireTarget { .. } => answer is Text,
            MergeActionView::WorktreeFor { .. } => answer is Text || answer is No,
            MergeActionView::LoadProjectConfig => answer is Yes || answer is No,
            MergeActionView::Approve { .. } => answer is Yes || answer is No,
            MergeActionView::Squash { .. } => answer is Yes || answer is No,
            MergeActionView::Rebase { .. } => answer is Yes || answer is No,
            MergeActionView::IsRebasedOnto { .. } => answer is Yes || answer is No,
            MergeActionView::IsPrimaryWorktree => answer is Yes || answer is No,
            MergeActionView::Reconcile { .. } => answer is Reconciled,
            MergeActionView::ReadCommit => answer matches AnswerView::Text(text) && shortens(
                trimmed(text),
            ),
            _ => answer is Yes,
        }),
{
}

/// Without a commit nothing is committed or squashed, and a tree with changes
/// is refused before anything else happens.
pub proof fn without_a_commit_nothing_is_committed(
    run: MergeView,
    answers: Seq<AnswerView>,
    i: int,
)
    requires
        begins(run),
        run.plan.consistent(),
        !run.plan.commit,
        0 <= i < run.visited(answers).len(),
    ensures
        !(run.visited(answers)[i].action() is Commit),
        !(run.visited(answers)[i].action() is Squash),
        i == 0 ==> run.visited(answers)[i].action() is IsDirty,
        i > 0 ==> !answers[0].holds(),
        answers[0] is Yes ==> run.after(answers) == MergeWayView::Done(
            Err(
                MergeErrorView::UncommittedChanges {
                    action: "merge with --no-commit"@,
                    branch: run.current_branch,
                    force_hint: false,
                },
            ),
        ),
{
    lemma_next(run, answers, 0);
    let kept = |m: MergeView|
        !m.plan.commit && !m.plan.squash && !(m.phase is Commit) && !(m.phase is Squash)
            && !(m.phase is CheckDirtyForCommit);
    assert forall|m: MergeView, a: AnswerView|
        kept(m) && #[trigger] moved(m, a) is Next implies kept(moved(m, a)->Next_0) by {
        lemma_changes(m, a);
        lemma_conditions(m, a);
    }
    lemma_kept(run, answers, 0, i, kept);
}

/// An answer that ends the merge is the last one.
proof fn lemma_stops(run: MergeView, answers: Seq<AnswerView>, i: int)
    requires
        0 <= i < run.visited(answers).len(),
        moved(run.visited(answers)[i], answers[i]) is Done,
    ensures
        run.after(answers) == moved(run.visited(answers)[i], answers[i]),
        i + 1 == run.visited(answers).len(),
    decreases answers.len(),
{
    lemma_next(run, answers, i);
    reveal(moved);
    reveal_with_fuel(MergeView::visited, 2);
    match run.step(answers.first()).to {
        MergeWayView::Next(next) => {
            let rest = answers.drop_first();
            let tail = next.visited(rest);
            assert(run.visited(answers) == seq![run] + tail);
            if i > 0 {
                assert(run.visited(answers)[i] == tail[i - 1]);
                assert(answers[i] == rest[i - 1]);
                lemma_stops(next, rest, i - 1);
            }
        },
        MergeWayView::Done(_) => {},
    }
}

/// Later points are further along.
proof fn lemma_further(run: MergeView, answers: Seq<AnswerView>, i: int, j: int)
    requires
        0 <= i < j < run.visited(answers).len(),
    ensures
        rank(run.visited(answers)[i].phase) < rank(run.visited(answers)[j].phase),
    decreases j - i,
{
    lemma_next(run, answers, i);
    lemma_changes(run.visited(answers)[i], answers[i]);
    lemma_next_phase(run.visited(answers)[i], answers[i]);
    if i + 1 < j {
        lemma_further(run, answers, i + 1, j);
    }
}

/// How a merge ends well.
proof fn lemma_ending(run: MergeView, answer: AnswerView)
    requires
        moved(run, answer) is Done,
    ensures
        ({
            let result = moved(run, answer)->Done_0;
            &&& result matches Ok(EndView::Draft { .. }) ==> run.phase is Reconcile
            &&& result matches Ok(EndView::Merged(report)) ==> {
                &&& rank(run.phase) >= 17
                &&& answer is Failed ==> run.tolerates()
                &&& report == run.recorded(answer).report()
                &&& run.next(answer) is None
            }
        }),
{
    reveal(moved);
}

/// A draft is the end of it: where a merge ends with a draft, the
/// reconciliation came last and opened it, and nothing was merged locally,
/// removed or run after a merge.
pub proof fn a_draft_ends_the_merge(
    run: MergeView,
    answers: Seq<AnswerView>,
    pr_number: u32,
    i: int,
)
    requires
        fitting(run, answers),
        run.after(answers) == MergeWayView::Done(Ok(EndView::Draft { pr_number })),
        0 <= i < run.visited(answers).len(),
    ensures
        run.visited(answers).last().action() is Reconcile,
        answers[run.visited(answers).len() - 1] == AnswerView::Reconciled(
            OutcomeView::OpenedDraftPr { pr_number },
        ),
        !(run.visited(answers)[i].action() is MergeLocally),
        !(run.visited(answers)[i].action() is RemoveWorktree),
        !(run.visited(answers)[i].action() is RunPostMergeHooks),
{
    lemma_last(run, answers);
    let n = run.visited(answers).len() - 1;
    lemma_ending(run.visited(answers)[n], answers[n]);
    assert(run.visited(answers)[n].expects(answers[n]));
    assert(answers[n] == AnswerView::Reconciled(OutcomeView::OpenedDraftPr { pr_number })) by {
        reveal(moved);
    }
    if i < n {
        lemma_further(run, answers, i, n);
    }
}

/// Where the reconciliation opens a draft, the merge ends with it and says so.
pub proof fn an_opened_draft_is_reported(
    run: MergeView,
    answers: Seq<AnswerView>,
    pr_number: u32,
    i: int,
)
    requires
        0 <= i < run.visited(answers).len(),
        run.visited(answers)[i].action() is Reconcile,
        answers[i] == AnswerView::Reconciled(OutcomeView::OpenedDraftPr { pr_number }),
    ensures
        run.after(answers) == MergeWayView::Done(Ok(EndView::Draft { pr_number })),
        run.visited(answers)[i].step(answers[i]).note == Some(Note::DraftOpened { pr_number }),
{
    assert(moved(run.visited(answers)[i], answers[i]) == MergeWayView::Done(
        Ok(EndView::Draft { pr_number }),
    )) by {
        reveal(moved);
    }
    lemma_stops(run, answers, i);
}

/// What is reported as merged was merged: by the provider, or locally.
pub proof fn a_reported_merge_happened(run: MergeView, answers: Seq<AnswerView>) -> (j: int)
    requires
        begins(run),
        fitting(run, answers),
        run.after(answers) matches MergeWayView::Done(Ok(EndView::Merged(_))),
    ensures
        0 <= j < run.visited(answers).len(),
        match run.visited(answers)[j].action() {
            MergeActionView::MergeLocally { .. } => answers[j] is Yes,
            MergeActionView::Reconcile { .. } => answers[j] matches AnswerView::Reconciled(outcome)
                && outcome.merged_pr() is Some,
            _ => false,
        },
{
    lemma_last(run, answers);
    let n = run.visited(answers).len() - 1;
    lemma_ending(run.visited(answers)[n], answers[n]);
    let before = |m: MergeView| rank(m.phase) <= 13;
    let milestone = |m: MergeView, a: AnswerView|
        !(a is Failed) && (m.phase is MergeLocally || m.phase is Reconcile
            && a->Reconciled_0.merged_pr() is Some);
    assert forall|m: MergeView, a: AnswerView|
        before(m) && !milestone(m, a) && #[trigger] moved(m, a) is Next implies before(
        moved(m, a)->Next_0,
    ) by {
        lemma_changes(m, a);
        lemma_next_phase(m, a);
    }
    let j = lemma_passed(run, answers, n, before, milestone);
    assert(run.visited(answers)[j].expects(answers[j]));
    j
}

/// A worktree is removed only if that was asked for, it does not hold the
/// target branch, and it was found to be neither the primary one nor that of the
/// default branch nor in use. Nothing is forced.
pub proof fn a_removal_is_safe(run: MergeView, answers: Seq<AnswerView>, i: int) -> (j: (
    int,
    int,
    int,
))
    requires
        begins(run),
        fitting(run, answers),
        0 <= i < run.visited(answers).len(),
        run.visited(answers)[i].action() is RemoveWorktree,
    ensures
        run.plan.remove,
        run.visited(answers)[i].action() matches MergeActionView::RemoveWorktree {
            branch,
            mode,
            force_worktree,
            target_branch,
            ..
        } && branch == run.current_branch && branch != target_branch && mode
            == BranchDeletionMode::SafeDelete && !force_worktree,
        0 <= j.0 < j.1 < j.2 < i,
        run.visited(answers)[j.0].action() is IsPrimaryWorktree && answers[j.0] is No,
        run.visited(answers)[j.1].action() is CheckNotDefaultBranch && answers[j.1] is Yes,
        run.visited(answers)[j.2].action() is EnsureClean && answers[j.2] is Yes,
{
    lemma_next(run, answers, 0);
    let plan = run.plan;
    let branch = run.current_branch;
    let kept = |m: MergeView|
        {
            &&& m.plan == plan
            &&& m.current_branch == branch
            &&& 18 <= rank(m.phase) <= 21 ==> plan.remove && !m.on_target()
        };
    assert forall|m: MergeView, a: AnswerView|
        kept(m) && #[trigger] moved(m, a) is Next implies kept(moved(m, a)->Next_0) by {
        lemma_changes(m, a);
        lemma_conditions(m, a);
        lemma_next_phase(m, a);
        lemma_before_removal(m, a);
    }
    lemma_kept(run, answers, 0, i, kept);
    let j0 = lemma_checked(run, answers, i, 18);
    let j1 = lemma_checked(run, answers, i, 19);
    let j2 = lemma_checked(run, answers, i, 20);
    if j1 <= j0 {
        lemma_ordered(run, answers, j1, j0);
    }
    if j2 <= j1 {
        lemma_ordered(run, answers, j2, j1);
    }
    assert(run.visited(answers)[j0].expects(answers[j0]));
    assert(run.visited(answers)[j1].expects(answers[j1]));
    assert(run.visited(answers)[j2].expects(answers[j2]));
    (j0, j1, j2)
}

/// The checks before a removal begin once the commit is read.
proof fn lemma_before_removal(run: MergeView, answer: AnswerView)
    ensures
        run.next(answer) matches Some(phase) ==> (18 <= rank(phase) <= 21 ==> run.phase
            is ReadCommit && phase is CheckPrimary || 18 <= rank(run.phase) < 21),
{
}

/// Points that come later in the list are not less far along.
proof fn lemma_ordered(run: MergeView, answers: Seq<AnswerView>, i: int, j: int)
    requires
        0 <= i <= j < run.visited(answers).len(),
    ensures
        rank(run.visited(answers)[i].phase) <= rank(run.visited(answers)[j].phase),
{
    if i < j {
        lemma_further(run, answers, i, j);
    }
}

/// A removal comes over each of the three checks before it.
proof fn lemma_checked(run: MergeView, answers: Seq<AnswerView>, i: int, r: nat) -> (j: int)
    requires
        begins(run),
        0 <= i < run.visited(answers).len(),
        run.visited(answers)[i].phase is Remove,
        18 <= r <= 20,
    ensures
        0 <= j < i,
        rank(run.visited(answers)[j].phase) == r,
        !(answers[j] is Failed),
        r == 18 ==> !(answers[j] is Yes),
{
    let before = |m: MergeView| rank(m.phase) <= r || rank(m.phase) == 22;
    let milestone = |m: MergeView, a: AnswerView|
        rank(m.phase) == r && !(a is Failed) && (r == 18 ==> !(a is Yes));
    assert forall|m: MergeView, a: AnswerView|
        before(m) && !milestone(m, a) && #[trigger] moved(m, a) is Next implies before(
        moved(m, a)->Next_0,
    ) by {
        lemma_changes(m, a);
        lemma_next_phase(m, a);
    }
    lemma_passed(run, answers, i, before, milestone)
}

/// Whether an action of some sort was asked for and answered with yes, among
/// the first few.
pub open spec fn done_among(
    run: MergeView,
    answers: Seq<AnswerView>,
    count: int,
    sort: spec_fn(MergeActionView) -> bool,
) -> bool {
    exists|j: int|
        0 <= j < count && sort((#[trigger] run.visited(answers)[j]).action()) && answers[j] is Yes
}

/// Whether an action of some sort was asked for and answered with yes.
pub open spec fn done(
    run: MergeView,
    answers: Seq<AnswerView>,
    sort: spec_fn(MergeActionView) -> bool,
) -> bool {
    done_among(run, answers, run.visited(answers).len() as int, sort)
}

/// Whether a branch was named as the target.
pub open spec fn targeted(run: MergeView, answers: Seq<AnswerView>, target: Seq<char>) -> bool {
    exists|j: int|
        0 <= j < run.visited(answers).len() && (#[trigger] run.visited(answers)[j]).action()
            is RequireTarget && answers[j] == AnswerView::Text(target)
}

/// The report tells what happened: which branch was merged into which, and
/// whether something was committed, squashed, rebased and removed on the way.
pub proof fn the_report_is_what_happened(
    run: MergeView,
    answers: Seq<AnswerView>,
    report: ReportView,
)
    requires
        begins(run),
        fitting(run, answers),
        run.after(answers) == MergeWayView::Done(Ok(EndView::Merged(report))),
    ensures
        report.json == run.plan.json,
        report.branch == run.current_branch,
        targeted(run, answers, report.target),
        report.committed == done(run, answers, |a: MergeActionView| a is Commit),
        report.squashed == done(run, answers, |a: MergeActionView| a is Squash),
        report.rebased == done(run, answers, |a: MergeActionView| a is Rebase),
        report.removed == done(run, answers, |a: MergeActionView| a is RemoveWorktree),
{
    lemma_last(run, answers);
    lemma_next(run, answers, 0);
    let n = run.visited(answers).len() - 1;
    let last = run.visited(answers)[n];
    lemma_ending(last, answers[n]);
    assert(last.expects(answers[n]));
    the_plan_never_changes(run, answers, n);
    let branch = run.current_branch;
    let same_branch = |m: MergeView| m.current_branch == branch;
    assert forall|m: MergeView, a: AnswerView|
        same_branch(m) && #[trigger] moved(m, a) is Next implies same_branch(
        moved(m, a)->Next_0,
    ) by {
        lemma_changes(m, a);
    }
    lemma_kept(run, answers, 0, n, same_branch);
    lemma_target(run, answers);
    lemma_flag(run, answers, |p: Progress| p.committed, |a: MergeActionView| a is Commit, 7);
    lemma_flag(run, answers, |p: Progress| p.squashed, |a: MergeActionView| a is Squash, 10);
    lemma_flag(run, answers, |p: Progress| p.rebased, |a: MergeActionView| a is Rebase, 11);
    lemma_flag(
        run,
        answers,
        |p: Progress| p.removed,
        |a: MergeActionView| a is RemoveWorktree,
        21,
    );
}

/// The target of a merge that reached its end is the one that was named.
proof fn lemma_target(run: MergeView, answers: Seq<AnswerView>)
    requires
        begins(run),
        fitting(run, answers),
        run.after(answers) matches MergeWayView::Done(Ok(EndView::Merged(_))),
    ensures
        targeted(run, answers, run.visited(answers).last().target_branch),
{
    lemma_last(run, answers);
    lemma_next(run, answers, 0);
    let n = run.visited(answers).len() - 1;
    lemma_ending(run.visited(answers)[n], answers[n]);
    let before = |m: MergeView| rank(m.phase) <= 1;
    let milestone = |m: MergeView, a: AnswerView| m.phase is RequireTarget;
    assert forall|m: MergeView, a: AnswerView|
        before(m) && !milestone(m, a) && #[trigger] moved(m, a) is Next implies before(
        moved(m, a)->Next_0,
    ) by {
        lemma_changes(m, a);
        lemma_next_phase(m, a);
    }
    let j = lemma_passed(run, answers, n, before, milestone);
    lemma_next(run, answers, j);
    lemma_changes(run.visited(answers)[j], answers[j]);
    lemma_next_phase(run.visited(answers)[j], answers[j]);
    assert(run.visited(answers)[j].expects(answers[j]));
    let target = answers[j]->Text_0;
    let kept = |m: MergeView| rank(m.phase) >= 2 && m.target_branch == target;
    assert forall|m: MergeView, a: AnswerView|
        kept(m) && #[trigger] moved(m, a) is Next implies kept(moved(m, a)->Next_0) by {
        lemma_changes(m, a);
        lemma_next_phase(m, a);
    }
    assert(run.visited(answers)[j + 1].target_branch == target) by {
        reveal(moved);
    }
    lemma_kept(run, answers, j + 1, n, kept);
}

/// Whether a flag is raised by one sort of action, at one point.
spec fn raises(
    flag: spec_fn(Progress) -> bool,
    sort: spec_fn(MergeActionView) -> bool,
    r: nat,
    m: MergeView,
    a: AnswerView,
) -> bool {
    &&& sort(m.action()) ==> rank(m.phase) == r && !m.tolerates()
    &&& m.expects(a) && (a is Failed ==> m.tolerates()) ==> flag(m.progress_on(a)) == (if sort(
        m.action(),
    ) {
        a is Yes
    } else {
        flag(m.progress)
    })
}

/// A flag that one sort of action raises is raised at some point exactly if
/// that action was done before.
proof fn lemma_flag_so_far(
    run: MergeView,
    answers: Seq<AnswerView>,
    i: int,
    flag: spec_fn(Progress) -> bool,
    sort: spec_fn(MergeActionView) -> bool,
    r: nat,
)
    requires
        fitting(run, answers),
        0 <= i < run.visited(answers).len(),
        !flag(run.progress),
        forall|m: MergeView, a: AnswerView| #[trigger] raises(flag, sort, r, m, a),
    ensures
        flag(run.visited(answers)[i].progress) == done_among(run, answers, i, sort),
    decreases i,
{
    lemma_next(run, answers, 0);
    if i > 0 {
        lemma_flag_so_far(run, answers, i - 1, flag, sort, r);
        let m = run.visited(answers)[i - 1];
        let a = answers[i - 1];
        lemma_next(run, answers, i - 1);
        lemma_changes(m, a);
        lemma_next_phase(m, a);
        assert(m.expects(a));
        assert(raises(flag, sort, r, m, a));
        assert(run.visited(answers)[i].progress == m.progress_on(a)) by {
            reveal(moved);
        }
        lemma_once(run, answers, i - 1, flag, sort, r);
    }
}

/// An action of a sort that belongs to one point is asked for once.
proof fn lemma_once(
    run: MergeView,
    answers: Seq<AnswerView>,
    i: int,
    flag: spec_fn(Progress) -> bool,
    sort: spec_fn(MergeActionView) -> bool,
    r: nat,
)
    requires
        0 <= i < run.visited(answers).len(),
        forall|m: MergeView, a: AnswerView| #[trigger] raises(flag, sort, r, m, a),
    ensures
        done_among(run, answers, i + 1, sort) == (if sort(run.visited(answers)[i].action()) {
            answers[i] is Yes
        } else {
            done_among(run, answers, i, sort)
        }),
{
    assert(raises(flag, sort, r, run.visited(answers)[i], answers[i]));
    if done_among(run, answers, i, sort) {
        let j = choose|j: int|
            0 <= j < i && sort((#[trigger] run.visited(answers)[j]).action()) && answers[j] is Yes;
        assert(raises(flag, sort, r, run.visited(answers)[j], answers[j]));
        lemma_further(run, answers, j, i);
        assert(done_among(run, answers, i + 1, sort));
    }
    if done_among(run, answers, i + 1, sort) {
        let j = choose|j: int|
            0 <= j < i + 1 && sort((#[trigger] run.visited(answers)[j]).action()) && answers[j]
                is Yes;
        if j < i {
            assert(done_among(run, answers, i, sort));
        }
    }
}

/// A flag that one sort of action raises is raised in the report exactly if
/// that action was done.
proof fn lemma_flag(
    run: MergeView,
    answers: Seq<AnswerView>,
    flag: spec_fn(Progress) -> bool,
    sort: spec_fn(MergeActionView) -> bool,
    r: nat,
)
    requires
        fitting(run, answers),
        run.after(answers) matches MergeWayView::Done(Ok(EndView::Merged(_))),
        !flag(run.progress),
        forall|m: MergeView, a: AnswerView| #[trigger] raises(flag, sort, r, m, a),
    ensures
        ({
            let n = run.visited(answers).len() - 1;
            flag(run.visited(answers)[n].recorded(answers[n]).progress) == done(run, answers, sort)
        }),
{
    lemma_last(run, answers);
    let n = run.visited(answers).len() - 1;
    let m = run.visited(answers)[n];
    let a = answers[n];
    lemma_flag_so_far(run, answers, n, flag, sort, r);
    assert(m.expects(a));
    assert(raises(flag, sort, r, m, a));
    lemma_ending(m, a);
    lemma_once(run, answers, n, flag, sort, r);
}

/// A worktree that can go goes: where a merge was to remove the worktree, the
/// branch is not the target itself, and the worktree was not found to be the
/// primary one, the report says that it was removed. How the branch landed makes
/// no difference.
pub proof fn a_merged_worktree_goes(
    run: MergeView,
    answers: Seq<AnswerView>,
    report: ReportView,
)
    requires
        begins(run),
        run.plan.remove,
        run.after(answers) == MergeWayView::Done(Ok(EndView::Merged(report))),
        report.branch != report.target,
        !done(run, answers, |a: MergeActionView| a is IsPrimaryWorktree),
    ensures
        report.removed,
{
    lemma_last(run, answers);
    lemma_next(run, answers, 0);
    let n = run.visited(answers).len() - 1;
    let last = run.visited(answers)[n];
    lemma_ending(last, answers[n]);
    let kept = |m: MergeView| m.plan.remove;
    assert forall|m: MergeView, a: AnswerView|
        kept(m) && #[trigger] moved(m, a) is Next implies kept(moved(m, a)->Next_0) by {
        lemma_changes(m, a);
    }
    lemma_kept(run, answers, 0, n, kept);
    lemma_ends_removed(last, answers[n]);
    assert(last.recorded(answers[n]).current_branch == last.current_branch);
    assert(last.recorded(answers[n]).target_branch == last.target_branch);
    if last.phase is CheckPrimary {
        assert(last.action() is IsPrimaryWorktree && answers[n] is Yes);
    }
    if last.phase is PostMerge {
        lemma_removed_by_then(run, answers, n);
    }
}

/// With a removal to do, a merge ends after the removal, or at a primary
/// worktree.
proof fn lemma_ends_removed(run: MergeView, answer: AnswerView)
    requires
        rank(run.phase) >= 17,
        run.plan.remove,
        !run.on_target(),
        run.next(answer) is None,
    ensures
        answer is Failed && !run.tolerates() || run.phase is Remove || run.phase is PostMerge
            || run.phase is CheckPrimary && answer is Yes,
{
}

/// With a removal to do, the post-merge hooks come after it.
proof fn lemma_removed_by_then(run: MergeView, answers: Seq<AnswerView>, i: int)
    requires
        begins(run),
        run.plan.remove,
        0 <= i < run.visited(answers).len(),
        run.visited(answers)[i].phase is PostMerge,
        !run.visited(answers)[i].on_target(),
        !done(run, answers, |a: MergeActionView| a is IsPrimaryWorktree),
    ensures
        run.visited(answers)[i].progress.removed,
{
    lemma_next(run, answers, 0);
    assert(i > 0);
    lemma_next(run, answers, i - 1);
    let m = run.visited(answers)[i - 1];
    let a = answers[i - 1];
    let kept = |m: MergeView| m.plan.remove;
    assert forall|m: MergeView, a: AnswerView|
        kept(m) && #[trigger] moved(m, a) is Next implies kept(moved(m, a)->Next_0) by {
        lemma_changes(m, a);
    }
    lemma_kept(run, answers, 0, i - 1, kept);
    lemma_changes(m, a);
    lemma_before_hooks(m, a);
    if m.phase is CheckPrimary {
        assert(m.action() is IsPrimaryWorktree && a is Yes);
    }
}

/// With a removal to do, the way to the post-merge hooks leads over it, or over
/// a primary worktree.
proof fn lemma_before_hooks(run: MergeView, answer: AnswerView)
    requires
        run.plan.remove,
        run.next(answer) == Some(MergePhase::PostMerge),
    ensures
        run.phase is Remove || run.phase is CheckPrimary && answer is Yes || run.phase
            is ReadCommit && run.on_target(),
{
}

/// Post-merge hooks run after every merge for which hooks were asked for and
/// not declined. How the branch landed makes no difference.
pub proof fn post_merge_hooks_run(run: MergeView, answers: Seq<AnswerView>)
    requires
        begins(run),
        run.plan.verify,
        run.after(answers) matches MergeWayView::Done(Ok(EndView::Merged(_))),
        forall|k: int|
            0 <= k < run.visited(answers).len() && (#[trigger] run.visited(answers)[k]).action()
                is Approve ==> answers[k] is Yes,
    ensures
        run.visited(answers).last().action() is RunPostMergeHooks,
        !(answers[run.visited(answers).len() - 1] is Failed),
{
    lemma_last(run, answers);
    lemma_next(run, answers, 0);
    let n = run.visited(answers).len() - 1;
    let last = run.visited(answers)[n];
    lemma_ending(last, answers[n]);
    if !last.progress.verify {
        let before = |m: MergeView| m.progress.verify;
        let milestone = |m: MergeView, a: AnswerView| m.phase is Approve && !(a is Yes);
        assert forall|m: MergeView, a: AnswerView|
            before(m) && !milestone(m, a) && #[trigger] moved(m, a) is Next implies before(
            moved(m, a)->Next_0,
        ) by {
            lemma_changes(m, a);
        }
        let k = lemma_passed(run, answers, n, before, milestone);
        assert(run.visited(answers)[k].action() is Approve);
    }
    lemma_ends_with_hooks(last, answers[n]);
}

/// Where hooks run, a merge that is not failed ends with them.
proof fn lemma_ends_with_hooks(run: MergeView, answer: AnswerView)
    requires
        rank(run.phase) >= 17,
        run.progress.verify,
        run.next(answer) is None,
        answer is Failed ==> run.tolerates(),
    ensures
        run.phase is PostMerge,
{
}

/// What is only shown or tidied up after the provider has merged cannot fail
/// the merge: the answer makes no difference.
pub proof fn what_follows_a_provider_merge_cannot_fail_it(
    run: MergeView,
    answer: AnswerView,
    other: AnswerView,
)
    requires
        run.action() is Summarize || run.action() is ResyncTarget,
    ensures
        run.step(answer) == run.step(other),
        run.step(answer).to is Next,
{
}

/// Once the provider has merged, the worktree of the target is brought up to
/// its branch, if there is such a worktree.
pub proof fn a_provider_merge_reaches_the_targets_worktree(
    run: MergeView,
    answers: Seq<AnswerView>,
) -> (j: int)
    requires
        begins(run),
        run.plan.push_to_origin,
        run.after(answers) matches MergeWayView::Done(Ok(EndView::Merged(_))),
        run.visited(answers).last().target_worktree is Some,
    ensures
        0 <= j < run.visited(answers).len(),
        run.visited(answers)[j].action() == (MergeActionView::ResyncTarget {
            command: resync_command(run.visited(answers)[j].target_branch),
        }),
{
    lemma_last(run, answers);
    lemma_next(run, answers, 0);
    let n = run.visited(answers).len() - 1;
    lemma_ending(run.visited(answers)[n], answers[n]);
    let path = run.visited(answers)[n].target_worktree;
    let found = |m: MergeView| rank(m.phase) >= 3 ==> m.target_worktree == path;
    let before = |m: MergeView|
        rank(m.phase) <= 15 && m.plan.push_to_origin && !(m.phase is MergeLocally) && found(m);
    let elsewhere = |m: MergeView| rank(m.phase) >= 3 && m.target_worktree != path;
    assert forall|m: MergeView, a: AnswerView|
        elsewhere(m) && #[trigger] moved(m, a) is Next implies elsewhere(moved(m, a)->Next_0) by {
        lemma_changes(m, a);
        lemma_next_phase(m, a);
    }
    let at_resync = |m: MergeView, a: AnswerView|
        m.phase is Resync || (m.phase is FindWorktree && moved(m, a) is Next && elsewhere(
            moved(m, a)->Next_0,
        ));
    assert forall|m: MergeView, a: AnswerView|
        before(m) && !at_resync(m, a) && #[trigger] moved(m, a) is Next implies before(
        moved(m, a)->Next_0,
    ) by {
        lemma_changes(m, a);
        lemma_next_phase(m, a);
        lemma_conditions(m, a);
    }
    let j = lemma_passed(run, answers, n, before, at_resync);
    if run.visited(answers)[j].phase is FindWorktree {
        lemma_next(run, answers, j);
        lemma_kept(run, answers, j + 1, n, elsewhere);
    }
    j
}

} // verus!
