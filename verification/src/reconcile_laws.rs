//! What holds of every reconciliation, whatever the commands come to.

use vstd::prelude::*;
use crate::command::{CommandView, Program, ReplyView, gh_outcome, git};
use crate::fault::{FaultView, plain};
use crate::pull_request::{abort_text, created_pr, missing_pr_text, pr_number_in};
use crate::reconcile::{
    LAST_VERSION, Landing, OutcomeView, Phase, RemoteDivergenceStrategy, RunView, StepView,
    advance_command, close_command, delete_command, exhausted_text, list_command,
    merge_command, unreconciled, versioned,
};
use crate::remote_state::{
    ClassifyPhase, ClassifyStepView, ClassifyView, RemoteState, remote_ref, unclassified,
};
use crate::text::{decimal, lemma_spans, number, occurs_in, trimmed};

verus! {

impl RunView {
    /// Where the run stands after several replies.
    pub open spec fn after(self, replies: Seq<ReplyView>) -> StepView
        decreases replies.len(),
    {
        if replies.len() == 0 {
            StepView::Next(self)
        } else {
            match self.step(replies.first()) {
                StepView::Next(next) => next.after(replies.drop_first()),
                StepView::Done(result) => StepView::Done(result),
            }
        }
    }

    /// The commands that the replies answer, in order.
    pub open spec fn answered(self, replies: Seq<ReplyView>) -> Seq<CommandView>
        decreases replies.len(),
    {
        if replies.len() == 0 {
            Seq::empty()
        } else {
            seq![self.command()] + match self.step(replies.first()) {
                StepView::Next(next) => next.answered(replies.drop_first()),
                StepView::Done(_) => Seq::empty(),
            }
        }
    }
}

/// Whether a command pushes.
pub open spec fn pushes(c: CommandView) -> bool {
    c.program == Program::Git && c.args[0] == "push"@
}

/// Whether a command squash-merges some PR.
pub open spec fn merges(c: CommandView) -> bool {
    exists|pr: u32| c == #[trigger] merge_command(pr)
}

/// Whether a command only reads, or only moves a tracking ref.
pub open spec fn only_reads(c: CommandView) -> bool {
    c.program == Program::Git && (c.args[0] == "ls-remote"@ || c.args[0] == "fetch"@ || c.args[0]
        == "rev-parse"@ || c.args[0] == "rev-list"@)
}

/// The phases from a merge on.
pub open spec fn landing_phase(phase: Phase) -> bool {
    phase is Merge || phase is DeleteBranch || phase is FetchTarget || phase is AdvanceTarget
}

/// Every push names the branch that it pushes and nothing else: none carries an
/// option to force it.
pub proof fn no_push_is_forced(run: RunView)
    requires
        pushes(run.command()),
    ensures
        run.command() == git(seq!["push"@, "-u"@, "origin"@, run.branch]) || run.command() == git(
            seq!["push"@, "origin"@, run.branch],
        ) || exists|version: u32|
            run.command() == git(
                seq!["push"@, "-u"@, "origin"@, #[trigger] versioned(run.branch, version)],
            ),
{
    lemma_pushes(run);
    if let Phase::PushBranch { version } = run.phase {
        assert(run.command() == git(
            seq!["push"@, "-u"@, "origin"@, versioned(run.branch, version)],
        ));
    }
}

/// Which phases push.
proof fn lemma_pushes(run: RunView)
    ensures
        pushes(run.command()) <==> (run.phase is FirstPush || run.phase is PushRebased
            || run.phase is PushAhead || run.phase is PushBranch),
{
    reveal_strlit("push");
    reveal_strlit("ls-remote");
    reveal_strlit("fetch");
    reveal_strlit("rev-parse");
    reveal_strlit("rev-list");
    reveal_strlit("rebase");
    reveal_strlit("log");
    reveal_strlit("show-ref");
    reveal_strlit("branch");
    reveal_strlit("update-ref");
    assert("push"@.len() == 4);
    assert("log"@.len() == 3);
    assert("fetch"@.len() == 5);
    assert("rebase"@.len() == 6);
    assert("branch"@.len() == 6);
    assert("rev-list"@.len() == 8);
    assert("show-ref"@.len() == 8);
    assert("rev-parse"@.len() == 9);
    assert("ls-remote"@.len() == 9);
    assert("update-ref"@.len() == 10);
}

/// Which phase merges.
proof fn lemma_merges(run: RunView)
    ensures
        merges(run.command()) <==> run.phase is Merge,
        run.phase matches Phase::Merge { pr, .. } ==> run.command() == merge_command(pr),
{
    reveal_strlit("api");
    reveal_strlit("pr");
    reveal_strlit("PUT");
    reveal_strlit("DELETE");
    assert("api"@.len() == 3);
    assert("pr"@.len() == 2);
    assert("PUT"@.len() == 3);
    assert("DELETE"@.len() == 6);
    let c = run.command();
    assert forall|pr: u32| c == #[trigger] merge_command(pr) implies run.phase is Merge by {
        assert(c.program == Program::Gh);
        assert(c.args[0] == "api"@);
        assert(c.args[2] == "PUT"@);
    }
}

/// From a merge on there is no way to a draft.
proof fn lemma_landing_is_no_draft(run: RunView, replies: Seq<ReplyView>)
    requires
        landing_phase(run.phase),
    ensures
        !(run.after(replies) matches StepView::Done(Ok(OutcomeView::OpenedDraftPr { .. }))),
    decreases replies.len(),
{
    if replies.len() > 0 {
        if let StepView::Next(next) = run.step(replies.first()) {
            lemma_landing_is_no_draft(next, replies.drop_first());
        }
    }
}

/// A draft is never merged: where a reconciliation ends with a draft PR, none
/// of its commands was a merge.
pub proof fn a_draft_is_not_merged(run: RunView, replies: Seq<ReplyView>)
    requires
        run.after(replies) matches StepView::Done(Ok(OutcomeView::OpenedDraftPr { .. })),
    ensures
        forall|i: int|
            0 <= i < run.answered(replies).len() ==> !merges(
                #[trigger] run.answered(replies)[i],
            ),
    decreases replies.len(),
{
    if landing_phase(run.phase) {
        lemma_landing_is_no_draft(run, replies);
    }
    lemma_merges(run);
    let first = replies.first();
    let rest = replies.drop_first();
    if let StepView::Next(next) = run.step(first) {
        a_draft_is_not_merged(next, rest);
        assert forall|i: int| 0 <= i < run.answered(replies).len() implies !merges(
            #[trigger] run.answered(replies)[i],
        ) by {
            if i > 0 {
                assert(run.answered(replies)[i] == next.answered(rest)[i - 1]);
            }
        }
    }
}

/// Where a reconciliation from the start reports a merged PR, that PR was
/// squash-merged, its branch deleted or gone, the target fetched, and, last of
/// all, the local target moved there.
pub proof fn a_reported_merge_happened(
    branch: Seq<char>,
    target_branch: Seq<char>,
    strategy: RemoteDivergenceStrategy,
    auto_open_pr_if_missing: bool,
    draft: bool,
    replies: Seq<ReplyView>,
    outcome: OutcomeView,
    pr: u32,
)
    requires
        unreconciled(branch, target_branch, strategy, auto_open_pr_if_missing, draft).after(replies)
            == StepView::Done(Ok(outcome)),
        outcome.merged_pr() == Some(pr),
    ensures
        ({
            let commands = unreconciled(
                branch,
                target_branch,
                strategy,
                auto_open_pr_if_missing,
                draft,
            ).answered(replies);
            let n = commands.len();
            &&& 4 <= n <= replies.len()
            &&& commands[n - 4] == merge_command(pr)
            &&& replies[n - 4] is Output
            &&& commands[n - 3] == delete_command(landed_branch(outcome, branch))
            &&& commands[n - 2] == git(seq!["fetch"@, "origin"@, target_branch])
            &&& replies[n - 2] is Output
            &&& commands[n - 1] == advance_command(target_branch)
            &&& replies[n - 1] is Output
        }),
{
    lemma_merge_ending(
        unreconciled(branch, target_branch, strategy, auto_open_pr_if_missing, draft),
        replies,
        outcome,
        pr,
    );
}

/// The branch whose PR an outcome reports as merged.
pub open spec fn landed_branch(outcome: OutcomeView, branch: Seq<char>) -> Seq<char> {
    match outcome {
        OutcomeView::Restacked { new_branch, .. } => new_branch,
        _ => branch,
    }
}

/// How far a landing phase is from its end.
spec fn to_go(phase: Phase) -> int {
    match phase {
        Phase::Merge { .. } => 4,
        Phase::DeleteBranch { .. } => 3,
        Phase::FetchTarget { .. } => 2,
        Phase::AdvanceTarget { .. } => 1,
        _ => 5,
    }
}

proof fn lemma_merge_ending(run: RunView, replies: Seq<ReplyView>, outcome: OutcomeView, pr: u32)
    requires
        run.after(replies) == StepView::Done(Ok(outcome)),
        outcome.merged_pr() == Some(pr),
    ensures
        ({
            let commands = run.answered(replies);
            let n = commands.len();
            &&& 1 <= n <= replies.len()
            &&& landing_phase(run.phase) ==> n == to_go(run.phase)
            &&& !landing_phase(run.phase) ==> n >= 5
            &&& n >= 4 ==> commands[n - 4] == merge_command(pr) && replies[n - 4] is Output
            &&& n >= 3 ==> commands[n - 3] == delete_command(landed_branch(outcome, run.branch))
            &&& n >= 2 ==> commands[n - 2] == git(seq!["fetch"@, "origin"@, run.target_branch])
                && replies[n - 2] is Output
            &&& commands[n - 1] == advance_command(run.target_branch)
            &&& replies[n - 1] is Output
        }),
    decreases replies.len(),
{
    let first = replies.first();
    let rest = replies.drop_first();
    match run.step(first) {
        StepView::Next(next) => {
            lemma_merge_ending(next, rest, outcome, pr);
            let commands = run.answered(replies);
            let later = next.answered(rest);
            assert(commands =~= seq![run.command()] + later);
            assert forall|i: int| 1 <= i < commands.len() implies #[trigger] commands[i] == later[i
                - 1] by {}
            assert forall|i: int| 1 <= i < replies.len() implies #[trigger] replies[i] == rest[i
                - 1] by {}
            lemma_may_end_with(run, replies, outcome);
            if let Phase::DeleteBranch { landing, .. } = run.phase {
                assert(commands[0] == delete_command(landing.head(run.branch)));
            }
            let n = commands.len();
            if n >= 4 && n - 4 > 0 {
                assert(commands[n - 4] == later[n - 5]);
            }
            if n >= 3 && n - 3 > 0 {
                assert(commands[n - 3] == later[n - 4]);
            }
            if n - 2 > 0 {
                assert(commands[n - 2] == later[n - 3]);
            }
            assert(commands[n - 1] == later[n - 2]);
        },
        StepView::Done(_) => {
            assert(run.answered(replies) =~= seq![run.command()]);
        },
    }
}

/// How many commands are left at most.
pub open spec fn commands_left(phase: Phase) -> int {
    match phase {
        Phase::Classify(ClassifyPhase::Query) => 212,
        Phase::Classify(ClassifyPhase::Fetch) => 211,
        Phase::Classify(ClassifyPhase::LocalHead) => 210,
        Phase::Classify(ClassifyPhase::RemoteHead) => 209,
        Phase::Classify(ClassifyPhase::CountBehind) => 208,
        Phase::Classify(ClassifyPhase::CountAhead { .. }) => 207,
        Phase::FirstPush => 8,
        Phase::Rebase => 9,
        Phase::PushRebased => 8,
        Phase::PushAhead { .. } => 8,
        Phase::FindPr(_) => 7,
        Phase::ReadTitle(_) => 6,
        Phase::OpenPr(_) => 5,
        Phase::ProbeLocal { version } => 12 + 2 * versions_after(version),
        Phase::ProbeRemote { version, .. } => 11 + 2 * versions_after(version),
        Phase::CreateBranch { .. } => 10,
        Phase::PushBranch { .. } => 9,
        Phase::FindOldPr { .. } => 8,
        Phase::CloseOldPr { .. } => 7,
        Phase::ReadNewTitle { .. } => 6,
        Phase::OpenNewPr { .. } => 5,
        Phase::Merge { .. } => 4,
        Phase::DeleteBranch { .. } => 3,
        Phase::FetchTarget { .. } => 2,
        Phase::AdvanceTarget { .. } => 1,
    }
}

/// How many versions come after one.
pub open spec fn versions_after(version: u32) -> int {
    if version < LAST_VERSION {
        LAST_VERSION - version
    } else {
        0
    }
}

/// A reconciliation ends: after as many replies as there are commands left at
/// most, which is 212 from the start, it is over.
pub proof fn every_reconciliation_ends(run: RunView, replies: Seq<ReplyView>)
    requires
        replies.len() >= commands_left(run.phase),
    ensures
        run.after(replies) is Done,
    decreases replies.len(),
{
    if let StepView::Next(next) = run.step(replies.first()) {
        assert(commands_left(next.phase) < commands_left(run.phase));
        every_reconciliation_ends(next, replies.drop_first());
    }
}

/// What the answers to a classification's questions come to: no branch on the
/// remote where it lists none; in sync where both commits are the same; and
/// otherwise ahead exactly if the remote has commits that local HEAD lacks and
/// local HEAD has none that the remote lacks. In every other case the two
/// diverge by exactly the two counts that were read.
pub proof fn answers_decide_the_state(
    branch: Seq<char>,
    listing: Seq<char>,
    fetched: Seq<char>,
    local: Seq<char>,
    remote: Seq<char>,
    behind: Seq<char>,
    ahead: Seq<char>,
)
    ensures
        trimmed(listing).len() == 0 ==> unclassified(branch).after(
            seq![ReplyView::Output(listing)],
        ) == ClassifyStepView::Done(Ok(RemoteState::Absent)),
        trimmed(listing).len() > 0 && trimmed(local) == trimmed(remote) ==> unclassified(
            branch,
        ).after(
            seq![
                ReplyView::Output(listing),
                ReplyView::Output(fetched),
                ReplyView::Output(local),
                ReplyView::Output(remote),
            ],
        ) == ClassifyStepView::Done(Ok(RemoteState::InSync)),
        trimmed(listing).len() > 0 && trimmed(local) != trimmed(remote) ==> {
            let way = unclassified(branch).after(
                seq![
                    ReplyView::Output(listing),
                    ReplyView::Output(fetched),
                    ReplyView::Output(local),
                    ReplyView::Output(remote),
                    ReplyView::Output(behind),
                    ReplyView::Output(ahead),
                ],
            );
            match (number(trimmed(behind)), number(trimmed(ahead))) {
                (Ok(only_remote), Ok(only_local)) => {
                    &&& way == ClassifyStepView::Done(Ok(RemoteState::Ahead)) <==> only_remote > 0
                        && only_local == 0
                    &&& !(only_remote > 0 && only_local == 0) ==> way == ClassifyStepView::Done(
                        Ok(RemoteState::Diverges { behind: only_remote, ahead: only_local }),
                    )
                },
                _ => way matches ClassifyStepView::Done(result) && result is Err,
            }
        },
{
    reveal_with_fuel(ClassifyView::after, 7);
    let six = seq![
        ReplyView::Output(listing),
        ReplyView::Output(fetched),
        ReplyView::Output(local),
        ReplyView::Output(remote),
        ReplyView::Output(behind),
        ReplyView::Output(ahead),
    ];
    let five = six.drop_first();
    let four = five.drop_first();
    let three = four.drop_first();
    let two = three.drop_first();
    assert(five.first() == ReplyView::Output(fetched));
    assert(four.first() == ReplyView::Output(local));
    assert(three.first() == ReplyView::Output(remote));
    assert(two.first() == ReplyView::Output(behind));
    assert(two.drop_first().first() == ReplyView::Output(ahead));
    let f4 = six.take(4);
    assert(f4 =~= seq![
        ReplyView::Output(listing),
        ReplyView::Output(fetched),
        ReplyView::Output(local),
        ReplyView::Output(remote),
    ]);
    let f3 = f4.drop_first();
    let f2 = f3.drop_first();
    assert(f3.first() == ReplyView::Output(fetched));
    assert(f2.first() == ReplyView::Output(local));
    assert(f2.drop_first().first() == ReplyView::Output(remote));
}

/// The run with another commit read at local HEAD.
spec fn with_head(run: RunView, local_head: Seq<char>) -> RunView {
    RunView { local_head, ..run }
}

/// A reconciliation begins as a classification: while that asks on, nothing
/// but reading is done, and where it ends the state decides.
proof fn lemma_begins_as_classification(
    run: RunView,
    phase: ClassifyPhase,
    replies: Seq<ReplyView>,
)
    requires
        run.phase == Phase::Classify(phase),
        replies.len() > 0,
        run.classification(phase).after(replies.drop_last()) is Next,
    ensures
        match run.classification(phase).after(replies) {
            ClassifyStepView::Next(_) => true,
            ClassifyStepView::Done(Err(fault)) => run.after(replies) == StepView::Done(Err(fault)),
            ClassifyStepView::Done(Ok(state)) => exists|h: Seq<char>|
                run.after(replies) == (#[trigger] with_head(run, h)).dispatch(state),
        },
        forall|i: int|
            0 <= i < run.answered(replies).len() ==> only_reads(
                #[trigger] run.answered(replies)[i],
            ),
    decreases replies.len(),
{
    let first = replies.first();
    let rest = replies.drop_first();
    reveal_with_fuel(RunView::after, 2);
    reveal_with_fuel(RunView::answered, 2);
    assert(only_reads(run.command()));
    match run.classification(phase).step(first) {
        ClassifyStepView::Next(next) => {
            let run2 = RunView {
                local_head: next.local_head,
                phase: Phase::Classify(next.phase),
                ..run
            };
            assert(run.step(first) == StepView::Next(run2));
            assert(run2.classification(next.phase) == next);
            if rest.len() > 0 {
                assert(replies.drop_last().drop_first() =~= rest.drop_last());
                assert(replies.drop_last().first() == first);
                lemma_begins_as_classification(run2, next.phase, rest);
                if let ClassifyStepView::Done(Ok(state)) = next.after(rest) {
                    let h = choose|h: Seq<char>|
                        run2.after(rest) == (#[trigger] with_head(run2, h)).dispatch(state);
                    lemma_dispatch_from(run, run2, h, state);
                    assert(run.after(replies) == with_head(run, h).dispatch(state));
                }
                let later = run2.answered(rest);
                assert forall|i: int| 0 <= i < run.answered(replies).len() implies only_reads(
                    #[trigger] run.answered(replies)[i],
                ) by {
                    if i > 0 {
                        assert(run.answered(replies)[i] == later[i - 1]);
                    }
                }
            }
        },
        ClassifyStepView::Done(result) => {
            if let Ok(state) = result {
                if replies.len() == 1 {
                    assert(with_head(run, run.local_head) == run);
                } else {
                    assert(replies.drop_last().first() == first);
                    assert(false);
                }
            }
        },
    }
}

/// What the state leads to does not depend on the question it was found by.
proof fn lemma_dispatch_from(run: RunView, other: RunView, h: Seq<char>, state: RemoteState)
    requires
        other == (RunView { local_head: other.local_head, phase: other.phase, ..run }),
    ensures
        with_head(run, h).dispatch(state) == with_head(other, h).dispatch(state),
{
}

/// Aborting touches nothing: where the remote is found to have commits of its
/// own beside local ones and the strategy is to abort, the reconciliation ends
/// with the message that says how to recover, and every command up to there only
/// read.
pub proof fn aborting_touches_nothing(
    branch: Seq<char>,
    target_branch: Seq<char>,
    auto_open_pr_if_missing: bool,
    draft: bool,
    replies: Seq<ReplyView>,
    behind: u32,
    ahead: u32,
)
    requires
        behind > 0,
        replies.len() > 0,
        unclassified(branch).after(replies.drop_last()) is Next,
        unclassified(branch).after(replies) == ClassifyStepView::Done(
            Ok(RemoteState::Diverges { behind, ahead }),
        ),
    ensures
        ({
            let run = unreconciled(
                branch,
                target_branch,
                RemoteDivergenceStrategy::Abort,
                auto_open_pr_if_missing,
                draft,
            );
            &&& run.after(replies) == StepView::Done(Err(plain(abort_text(branch, target_branch))))
            &&& forall|i: int|
                0 <= i < run.answered(replies).len() ==> only_reads(
                    #[trigger] run.answered(replies)[i],
                )
        }),
{
    let run = unreconciled(
        branch,
        target_branch,
        RemoteDivergenceStrategy::Abort,
        auto_open_pr_if_missing,
        draft,
    );
    assert(run.classification(ClassifyPhase::Query) == unclassified(branch));
    lemma_begins_as_classification(run, ClassifyPhase::Query, replies);
}

/// The strategy matters for a collision alone: unless both sides have commits
/// that the other lacks, two reconciliations that differ only in the strategy go
/// on alike.
pub proof fn only_divergence_calls_for_the_strategy(
    run: RunView,
    state: RemoteState,
    strategy: RemoteDivergenceStrategy,
)
    requires
        state matches RemoteState::Diverges { behind, .. } ==> behind == 0,
    ensures
        match (run.dispatch(state), (RunView { strategy, ..run }).dispatch(state)) {
            (StepView::Next(a), StepView::Next(b)) => a.phase == b.phase && a.command()
                == b.command(),
            _ => false,
        },
{
}

/// Whether an outcome means that the remote branch was left as it was found.
pub open spec fn landed_as_found(outcome: OutcomeView) -> bool {
    outcome is AlreadyPushed || outcome is RemoteSquashed
}

/// The outcomes, apart from a draft, that a run can still end with.
spec fn may_end_with(run: RunView, outcome: OutcomeView) -> bool {
    match run.phase {
        Phase::Classify(_) => true,
        Phase::FirstPush => outcome is FirstPush,
        Phase::Rebase => outcome is RebasedAndPushed,
        Phase::PushRebased => outcome is RebasedAndPushed,
        Phase::PushAhead { .. } => outcome is FastForwarded,
        Phase::FindPr(state) => of_state(state, outcome),
        Phase::ReadTitle(state) => of_state(state, outcome),
        Phase::OpenPr(state) => of_state(state, outcome),
        Phase::ProbeLocal { .. } => outcome is Restacked,
        Phase::ProbeRemote { .. } => outcome is Restacked,
        Phase::CreateBranch { version } => of_version(run.branch, version, outcome),
        Phase::PushBranch { version } => of_version(run.branch, version, outcome),
        Phase::FindOldPr { version } => of_version(run.branch, version, outcome),
        Phase::CloseOldPr { version, old_pr } => of_version(run.branch, version, outcome)
            && outcome->closed_pr == Some(old_pr),
        Phase::ReadNewTitle { version, closed_pr } => of_version(run.branch, version, outcome)
            && outcome->closed_pr == closed_pr,
        Phase::OpenNewPr { version, closed_pr } => of_version(run.branch, version, outcome)
            && outcome->closed_pr == closed_pr,
        Phase::Merge { landing, pr } => outcome == landing.outcome(run.branch, pr),
        Phase::DeleteBranch { landing, pr } => outcome == landing.outcome(run.branch, pr),
        Phase::FetchTarget { landing, pr } => outcome == landing.outcome(run.branch, pr),
        Phase::AdvanceTarget { landing, pr } => outcome == landing.outcome(run.branch, pr),
    }
}

/// Whether an outcome belongs to the feature branch itself, found in a state.
spec fn of_state(state: RemoteState, outcome: OutcomeView) -> bool {
    reports(state, RemoteDivergenceStrategy::RemoteSquash, outcome)
}

/// Whether an outcome belongs to the replacement branch of a version.
spec fn of_version(branch: Seq<char>, version: u32, outcome: OutcomeView) -> bool {
    outcome is Restacked && outcome->new_branch == versioned(branch, version)
}

proof fn lemma_may_end_with(run: RunView, replies: Seq<ReplyView>, outcome: OutcomeView)
    requires
        run.after(replies) == StepView::Done(Ok(outcome)),
        !(outcome is OpenedDraftPr),
    ensures
        may_end_with(run, outcome),
    decreases replies.len(),
{
    if let StepView::Next(next) = run.step(replies.first()) {
        lemma_may_end_with(next, replies.drop_first(), outcome);
    }
}

/// Where the remote already matched, or GitHub collapses what the remote has,
/// nothing is pushed.
pub proof fn landing_as_found_pushes_nothing(
    run: RunView,
    replies: Seq<ReplyView>,
    outcome: OutcomeView,
)
    requires
        run.after(replies) == StepView::Done(Ok(outcome)),
        landed_as_found(outcome),
    ensures
        forall|i: int|
            0 <= i < run.answered(replies).len() ==> !pushes(
                #[trigger] run.answered(replies)[i],
            ),
    decreases replies.len(),
{
    lemma_may_end_with(run, replies, outcome);
    lemma_pushes(run);
    let rest = replies.drop_first();
    if let StepView::Next(next) = run.step(replies.first()) {
        landing_as_found_pushes_nothing(next, rest, outcome);
        assert forall|i: int| 0 <= i < run.answered(replies).len() implies !pushes(
            #[trigger] run.answered(replies)[i],
        ) by {
            if i > 0 {
                assert(run.answered(replies)[i] == next.answered(rest)[i - 1]);
            }
        }
    }
}

/// A first push pushes the branch.
pub proof fn a_first_push_pushes(run: RunView, replies: Seq<ReplyView>, outcome: OutcomeView)
    requires
        run.phase is Classify || run.phase is FirstPush,
        run.after(replies) == StepView::Done(Ok(outcome)),
        outcome is FirstPush,
    ensures
        run.answered(replies).contains(git(seq!["push"@, "-u"@, "origin"@, run.branch])),
    decreases replies.len(),
{
    let c = git(seq!["push"@, "-u"@, "origin"@, run.branch]);
    let rest = replies.drop_first();
    if let StepView::Next(next) = run.step(replies.first()) {
        lemma_may_end_with(next, rest, outcome);
        if run.phase is Classify {
            a_first_push_pushes(next, rest, outcome);
        }
        lemma_answered(run, replies, next, c);
    }
}

/// Where the remote was ahead, the branch is rebased onto it and pushed.
pub proof fn a_remote_that_is_ahead_is_rebased_onto(
    run: RunView,
    replies: Seq<ReplyView>,
    outcome: OutcomeView,
)
    requires
        run.phase is Classify || run.phase is Rebase,
        run.after(replies) == StepView::Done(Ok(outcome)),
        outcome is RebasedAndPushed,
    ensures
        run.answered(replies).contains(git(seq!["rebase"@, remote_ref(run.branch)])),
        run.answered(replies).contains(git(seq!["push"@, "origin"@, run.branch])),
    decreases replies.len(),
{
    let rebase = git(seq!["rebase"@, remote_ref(run.branch)]);
    let push = git(seq!["push"@, "origin"@, run.branch]);
    let rest = replies.drop_first();
    if let StepView::Next(next) = run.step(replies.first()) {
        lemma_may_end_with(next, rest, outcome);
        if run.phase is Classify {
            a_remote_that_is_ahead_is_rebased_onto(next, rest, outcome);
        } else {
            if let StepView::Next(after_push) = next.step(rest.first()) {
                lemma_answered(next, rest, after_push, push);
            }
        }
        lemma_answered(run, replies, next, rebase);
        lemma_answered(run, replies, next, push);
    }
}

/// A restack creates the replacement branch at HEAD, pushes it, and closes the
/// PR that it reports as closed.
pub proof fn a_restack_replaces_the_branch(
    run: RunView,
    replies: Seq<ReplyView>,
    outcome: OutcomeView,
)
    requires
        run.phase is Classify || run.phase is ProbeLocal || run.phase is ProbeRemote
            || run.phase is CreateBranch,
        run.after(replies) == StepView::Done(Ok(outcome)),
        outcome is Restacked,
    ensures
        run.answered(replies).contains(git(seq!["branch"@, outcome->new_branch, "HEAD"@])),
        run.answered(replies).contains(git(seq!["push"@, "-u"@, "origin"@, outcome->new_branch])),
        outcome->closed_pr matches Some(old_pr) ==> run.answered(replies).contains(
            close_command(old_pr, outcome->new_branch),
        ),
    decreases replies.len(),
{
    let create = git(seq!["branch"@, outcome->new_branch, "HEAD"@]);
    let push = git(seq!["push"@, "-u"@, "origin"@, outcome->new_branch]);
    let rest = replies.drop_first();
    if let StepView::Next(next) = run.step(replies.first()) {
        lemma_may_end_with(next, rest, outcome);
        if run.phase is CreateBranch {
            lemma_replacement_is_pushed(next, rest, outcome);
        } else {
            a_restack_replaces_the_branch(next, rest, outcome);
        }
        lemma_answered(run, replies, next, create);
        lemma_answered(run, replies, next, push);
        if let Some(old_pr) = outcome->closed_pr {
            lemma_answered(run, replies, next, close_command(old_pr, outcome->new_branch));
        }
    }
}

proof fn lemma_replacement_is_pushed(run: RunView, replies: Seq<ReplyView>, outcome: OutcomeView)
    requires
        run.phase is PushBranch || run.phase is FindOldPr || run.phase is CloseOldPr,
        run.after(replies) == StepView::Done(Ok(outcome)),
        outcome is Restacked,
    ensures
        run.phase is PushBranch ==> run.answered(replies).contains(
            git(seq!["push"@, "-u"@, "origin"@, outcome->new_branch]),
        ),
        outcome->closed_pr matches Some(old_pr) ==> run.answered(replies).contains(
            close_command(old_pr, outcome->new_branch),
        ),
    decreases replies.len(),
{
    let push = git(seq!["push"@, "-u"@, "origin"@, outcome->new_branch]);
    let rest = replies.drop_first();
    lemma_may_end_with(run, replies, outcome);
    if let StepView::Next(next) = run.step(replies.first()) {
        lemma_may_end_with(next, rest, outcome);
        if next.phase is FindOldPr || next.phase is CloseOldPr {
            lemma_replacement_is_pushed(next, rest, outcome);
        }
        lemma_answered(run, replies, next, push);
        if let Some(old_pr) = outcome->closed_pr {
            lemma_answered(run, replies, next, close_command(old_pr, outcome->new_branch));
        }
    }
}

/// The first command and the later ones are answered, and no others.
proof fn lemma_answered(run: RunView, replies: Seq<ReplyView>, next: RunView, c: CommandView)
    requires
        replies.len() > 0,
        run.step(replies.first()) == StepView::Next(next),
    ensures
        run.answered(replies).contains(c) <==> (c == run.command() || next.answered(
            replies.drop_first(),
        ).contains(c)),
{
    let all = run.answered(replies);
    let later = next.answered(replies.drop_first());
    assert(all =~= seq![run.command()] + later);
    assert(all[0] == run.command());
    if later.contains(c) {
        let i = choose|i: int| 0 <= i < later.len() && later[i] == c;
        assert(all[i + 1] == c);
    }
    if all.contains(c) && c != run.command() {
        let i = choose|i: int| 0 <= i < all.len() && all[i] == c;
        assert(later[i - 1] == c);
    }
}

/// Whether the replies say that a version is taken: the branch exists locally
/// or the remote lists it. There are two replies for each version, from the
/// second on.
pub open spec fn taken(replies: Seq<ReplyView>, version: int) -> bool {
    let local = replies[2 * (version - 2)];
    let remote = replies[2 * (version - 2) + 1];
    local is Output || (remote is Output && trimmed(remote->Output_0).len() > 0)
}

/// A restack takes the first version that exists neither locally nor on the
/// remote, from the second on.
pub proof fn restack_takes_the_first_free_version(
    run: RunView,
    replies: Seq<ReplyView>,
    version: u32,
)
    requires
        run.phase == (Phase::ProbeLocal { version: 2 }),
        2 <= version <= LAST_VERSION,
        replies.len() == 2 * (version - 1),
        forall|v: int| 2 <= v < version ==> #[trigger] taken(replies, v),
        !taken(replies, version as int),
    ensures
        run.after(replies) == StepView::Next(run.at(Phase::CreateBranch { version })),
{
    lemma_probes(run, replies, 2, version);
    assert(replies.skip(0) =~= replies);
    let last = replies.skip(2 * (version - 2));
    let here = run.at(Phase::ProbeLocal { version });
    let probe = run.at(
        Phase::ProbeRemote { version, local_exists: last.first() is Output },
    );
    assert(run.at(Phase::ProbeLocal { version: 2 }) == run);
    assert(here.step(last.first()) == StepView::Next(probe));
    assert(last.drop_first().first() == replies[2 * (version - 2) + 1]);
    assert(probe.step(last.drop_first().first()) == run.probed(version, false));
    assert(last.drop_first().drop_first() =~= Seq::<ReplyView>::empty());
    let created = run.at(Phase::CreateBranch { version });
    reveal_with_fuel(RunView::after, 3);
    assert(here.after(last) == StepView::Next(created));
}

/// A restack gives up where every version is taken.
pub proof fn restack_gives_up_when_all_are_taken(run: RunView, replies: Seq<ReplyView>)
    requires
        run.phase == (Phase::ProbeLocal { version: 2 }),
        replies.len() == 2 * (LAST_VERSION - 1),
        forall|v: int| 2 <= v <= LAST_VERSION ==> #[trigger] taken(replies, v),
    ensures
        run.after(replies) == StepView::Done(Err(plain(exhausted_text(run.branch)))),
{
    lemma_probes(run, replies, 2, LAST_VERSION);
    assert(replies.skip(0) =~= replies);
    let version = LAST_VERSION;
    let last = replies.skip(2 * (version - 2));
    let here = run.at(Phase::ProbeLocal { version });
    let probe = run.at(
        Phase::ProbeRemote { version, local_exists: last.first() is Output },
    );
    assert(run.at(Phase::ProbeLocal { version: 2 }) == run);
    assert(here.step(last.first()) == StepView::Next(probe));
    assert(last.drop_first().first() == replies[2 * (version - 2) + 1]);
    assert(taken(replies, version as int));
    assert(probe.step(last.drop_first().first()) == run.probed(version, true));
    reveal_with_fuel(RunView::after, 3);
}

/// Taken versions are passed over.
proof fn lemma_probes(run: RunView, replies: Seq<ReplyView>, from: u32, to: u32)
    requires
        2 <= from <= to <= LAST_VERSION,
        replies.len() >= 2 * (to - 1),
        forall|v: int| from <= v < to ==> #[trigger] taken(replies, v),
    ensures
        run.at(Phase::ProbeLocal { version: from }).after(replies.skip(2 * (from - 2))) == run.at(
            Phase::ProbeLocal { version: to },
        ).after(replies.skip(2 * (to - 2))),
    decreases to - from,
{
    if from < to {
        let next = (from + 1) as u32;
        lemma_probes(run, replies, next, to);
        assert(taken(replies, from as int));
        let here = replies.skip(2 * (from - 2));
        assert(here.first() == replies[2 * (from - 2)]);
        assert(here.drop_first().first() == replies[2 * (from - 2) + 1]);
        assert(here.drop_first().drop_first() =~= replies.skip(2 * (next - 2)));
        let start = run.at(Phase::ProbeLocal { version: from });
        let probe = run.at(
            Phase::ProbeRemote { version: from, local_exists: here.first() is Output },
        );
        assert(start.step(here.first()) == StepView::Next(probe));
        assert(probe.step(here.drop_first().first()) == StepView::Next(
            run.at(Phase::ProbeLocal { version: next }),
        ));
        assert(start.after(here) == probe.after(here.drop_first()));
        assert(probe.after(here.drop_first()) == run.at(
            Phase::ProbeLocal { version: next },
        ).after(here.drop_first().drop_first()));
    }
}

/// More replies go on from where the first ones led.
proof fn lemma_goes_on(run: RunView, first: Seq<ReplyView>, rest: Seq<ReplyView>)
    ensures
        run.after(first + rest) == match run.after(first) {
            StepView::Next(next) => next.after(rest),
            StepView::Done(result) => StepView::Done(result),
        },
    decreases first.len(),
{
    if first.len() == 0 {
        assert(first + rest =~= rest);
    } else {
        assert((first + rest).first() == first.first());
        assert((first + rest).drop_first() =~= first.drop_first() + rest);
        if let StepView::Next(next) = run.step(first.first()) {
            lemma_goes_on(next, first.drop_first(), rest);
        }
    }
}

/// Whether the first replies classify the remote, and no fewer do.
pub open spec fn classified_by(
    branch: Seq<char>,
    replies: Seq<ReplyView>,
    count: int,
    state: RemoteState,
) -> bool {
    &&& 0 < count <= replies.len()
    &&& unclassified(branch).after(replies.take(count - 1)) is Next
    &&& unclassified(branch).after(replies.take(count)) == ClassifyStepView::Done(Ok(state))
}

/// Once the remote is classified, the state decides.
proof fn lemma_classified(
    run: RunView,
    replies: Seq<ReplyView>,
    count: int,
    state: RemoteState,
) -> (h: Seq<char>)
    requires
        run == unreconciled(
            run.branch,
            run.target_branch,
            run.strategy,
            run.auto_open_pr_if_missing,
            run.draft,
        ),
        classified_by(run.branch, replies, count, state),
    ensures
        run.after(replies.take(count)) == with_head(run, h).dispatch(state),
        run.after(replies) == match with_head(run, h).dispatch(state) {
            StepView::Next(next) => next.after(replies.skip(count)),
            StepView::Done(result) => StepView::Done(result),
        },
{
    let first = replies.take(count);
    assert(first.drop_last() =~= replies.take(count - 1));
    assert(run.classification(ClassifyPhase::Query) == unclassified(run.branch));
    lemma_begins_as_classification(run, ClassifyPhase::Query, first);
    assert(first + replies.skip(count) =~= replies);
    lemma_goes_on(run, first, replies.skip(count));
    choose|h: Seq<char>| run.after(first) == (#[trigger] with_head(run, h)).dispatch(state)
}

/// Whether a merge that was found in a state, and went by a strategy, is
/// reported by an outcome.
pub open spec fn reports(
    state: RemoteState,
    strategy: RemoteDivergenceStrategy,
    outcome: OutcomeView,
) -> bool {
    match state {
        RemoteState::Absent => outcome is FirstPush,
        RemoteState::InSync => outcome is AlreadyPushed,
        RemoteState::Ahead => outcome is RebasedAndPushed,
        RemoteState::Diverges { behind, .. } => if behind == 0 {
            outcome is FastForwarded
        } else {
            match strategy {
                RemoteDivergenceStrategy::RemoteSquash => outcome is RemoteSquashed,
                RemoteDivergenceStrategy::Restack => outcome is Restacked,
                RemoteDivergenceStrategy::Abort => false,
            }
        },
    }
}

/// The state of the remote decides the outcome: each state has one, but for a
/// draft; in a collision it is the one of the strategy, and aborting has none.
pub proof fn the_remote_state_decides_the_outcome(
    branch: Seq<char>,
    target_branch: Seq<char>,
    strategy: RemoteDivergenceStrategy,
    auto_open_pr_if_missing: bool,
    draft: bool,
    replies: Seq<ReplyView>,
    count: int,
    state: RemoteState,
    outcome: OutcomeView,
)
    requires
        classified_by(branch, replies, count, state),
        unreconciled(branch, target_branch, strategy, auto_open_pr_if_missing, draft).after(replies)
            == StepView::Done(Ok(outcome)),
    ensures
        outcome is OpenedDraftPr || reports(state, strategy, outcome),
{
    let run = unreconciled(branch, target_branch, strategy, auto_open_pr_if_missing, draft);
    let h = lemma_classified(run, replies, count, state);
    if let StepView::Next(next) = with_head(run, h).dispatch(state) {
        if !(outcome is OpenedDraftPr) {
            lemma_may_end_with(next, replies.skip(count), outcome);
        }
    }
}

/// A fast-forward is a normal push: where the remote lacks local commits and has
/// none of its own, the branch is pushed next, whatever the strategy, and once
/// that has succeeded the PR is looked for.
pub proof fn a_fast_forward_is_pushed(
    branch: Seq<char>,
    target_branch: Seq<char>,
    strategy: RemoteDivergenceStrategy,
    auto_open_pr_if_missing: bool,
    draft: bool,
    replies: Seq<ReplyView>,
    count: int,
    ahead: u32,
)
    requires
        classified_by(branch, replies, count, RemoteState::Diverges { behind: 0, ahead }),
    ensures
        ({
            let run = unreconciled(branch, target_branch, strategy, auto_open_pr_if_missing, draft);
            &&& run.after(replies.take(count)) matches StepView::Next(pushing)
            &&& pushing.command() == git(seq!["push"@, "origin"@, branch])
            &&& forall|output: Seq<char>|
                (#[trigger] pushing.step(ReplyView::Output(output))) matches StepView::Next(looking)
                    && looking.command() == list_command(branch)
        }),
{
    let run = unreconciled(branch, target_branch, strategy, auto_open_pr_if_missing, draft);
    let h = lemma_classified(run, replies, count, RemoteState::Diverges { behind: 0, ahead });
}

/// Where local commits on top of the remote are reported as landed, they were
/// pushed.
pub proof fn a_reported_fast_forward_was_pushed(
    run: RunView,
    replies: Seq<ReplyView>,
    outcome: OutcomeView,
)
    requires
        run.phase is Classify || run.phase is PushAhead,
        run.after(replies) == StepView::Done(Ok(outcome)),
        outcome is FastForwarded,
    ensures
        run.answered(replies).contains(git(seq!["push"@, "origin"@, run.branch])),
    decreases replies.len(),
{
    let c = git(seq!["push"@, "origin"@, run.branch]);
    let rest = replies.drop_first();
    if let StepView::Next(next) = run.step(replies.first()) {
        lemma_may_end_with(next, rest, outcome);
        if run.phase is Classify {
            a_reported_fast_forward_was_pushed(next, rest, outcome);
        }
        lemma_answered(run, replies, next, c);
    }
}

/// Whether a command opens a PR.
pub open spec fn opens(c: CommandView) -> bool {
    c.program == Program::Gh && c.args[0] == "pr"@ && c.args[1] == "create"@
}

/// Which phases open a PR.
proof fn lemma_opens(run: RunView)
    ensures
        opens(run.command()) <==> (run.phase is OpenPr || run.phase is OpenNewPr),
{
    reveal_strlit("api");
    reveal_strlit("pr");
    reveal_strlit("list");
    reveal_strlit("close");
    reveal_strlit("create");
    assert("api"@.len() == 3);
    assert("pr"@.len() == 2);
    assert("list"@.len() == 4);
    assert("close"@.len() == 5);
    assert("create"@.len() == 6);
}

/// Whether some reply tells that a PR was opened.
pub open spec fn opened(run: RunView, replies: Seq<ReplyView>, pr: u32) -> bool {
    exists|i: int| #[trigger] opened_at(run, replies, pr, i)
}

/// Whether a reply tells that a PR was opened.
pub open spec fn opened_at(run: RunView, replies: Seq<ReplyView>, pr: u32, i: int) -> bool {
    &&& 0 <= i < run.answered(replies).len()
    &&& opens(run.answered(replies)[i])
    &&& replies[i] matches ReplyView::Output(output) && created_pr(output) == Ok::<u32, FaultView>(
        pr,
    )
}

/// A reconciliation reports a draft exactly if it was to open drafts and opened
/// this one.
pub proof fn a_draft_is_reported_exactly_if_it_was_opened(
    run: RunView,
    replies: Seq<ReplyView>,
    pr: u32,
)
    ensures
        run.after(replies) == StepView::Done(Ok(OutcomeView::OpenedDraftPr { pr_number: pr }))
            <==> run.draft && opened(run, replies, pr),
    decreases replies.len(),
{
    if replies.len() > 0 {
        lemma_opens(run);
        let rest = replies.drop_first();
        let all = run.answered(replies);
        assert(all[0] == run.command());
        match run.step(replies.first()) {
            StepView::Next(next) => {
                a_draft_is_reported_exactly_if_it_was_opened(next, rest, pr);
                let later = next.answered(rest);
                assert(all =~= seq![run.command()] + later);
                if opened(next, rest, pr) {
                    let i = choose|i: int| #[trigger] opened_at(next, rest, pr, i);
                    lemma_answers_fit(next, rest);
                    assert(all[i + 1] == later[i]);
                    assert(replies[i + 1] == rest[i]);
                    assert(opened_at(run, replies, pr, i + 1));
                }
                if run.draft && opened(run, replies, pr) {
                    let i = choose|i: int| #[trigger] opened_at(run, replies, pr, i);
                    if i > 0 {
                        lemma_answers_fit(next, rest);
                        assert(all[i] == later[i - 1]);
                        assert(replies[i] == rest[i - 1]);
                        assert(opened_at(next, rest, pr, i - 1));
                    }
                }
            },
            StepView::Done(_) => {
                assert(all =~= seq![run.command()]);
                if run.draft && opened(run, replies, pr) {
                    let i = choose|i: int| #[trigger] opened_at(run, replies, pr, i);
                    assert(i == 0);
                }
                if run.after(replies) == StepView::Done(
                    Ok::<OutcomeView, FaultView>(OutcomeView::OpenedDraftPr { pr_number: pr }),
                ) {
                    assert(opened_at(run, replies, pr, 0));
                }
            },
        }
    }
}

/// There are no more commands than replies.
proof fn lemma_answers_fit(run: RunView, replies: Seq<ReplyView>)
    ensures
        run.answered(replies).len() <= replies.len(),
    decreases replies.len(),
{
    if replies.len() > 0 {
        if let StepView::Next(next) = run.step(replies.first()) {
            lemma_answers_fit(next, replies.drop_first());
        }
    }
}

/// The phases of a restack.
pub open spec fn restacking(phase: Phase) -> bool {
    phase is ProbeLocal || phase is ProbeRemote || phase is CreateBranch || phase is PushBranch
        || phase is FindOldPr || phase is CloseOldPr || phase is ReadNewTitle || phase is OpenNewPr
        || landing_phase(phase)
}

/// A restack opens its PR in any case: whether missing PRs are opened makes no
/// difference to it, neither to its commands nor to its result.
pub proof fn a_restack_opens_its_pr_in_any_case(
    run: RunView,
    behind: u32,
    ahead: u32,
    auto_open_pr_if_missing: bool,
    replies: Seq<ReplyView>,
)
    requires
        run.strategy == RemoteDivergenceStrategy::Restack,
        behind > 0,
    ensures
        ({
            let state = RemoteState::Diverges { behind, ahead };
            let other = RunView { auto_open_pr_if_missing, ..run };
            match (run.dispatch(state), other.dispatch(state)) {
                (StepView::Next(a), StepView::Next(b)) => {
                    &&& a.answered(replies) == b.answered(replies)
                    &&& a.after(replies) is Done || b.after(replies) is Done ==> a.after(replies)
                        == b.after(replies)
                },
                _ => false,
            }
        }),
{
    let state = RemoteState::Diverges { behind, ahead };
    if let StepView::Next(a) = run.dispatch(state) {
        lemma_restacks_alike(a, auto_open_pr_if_missing, replies);
    }
}

proof fn lemma_restacks_alike(
    run: RunView,
    auto_open_pr_if_missing: bool,
    replies: Seq<ReplyView>,
)
    requires
        restacking(run.phase),
    ensures
        ({
            let other = RunView { auto_open_pr_if_missing, ..run };
            &&& run.answered(replies) == other.answered(replies)
            &&& match run.after(replies) {
                StepView::Next(a) => other.after(replies) == StepView::Next(
                    RunView { auto_open_pr_if_missing, ..a },
                ),
                StepView::Done(result) => other.after(replies) == StepView::Done(result),
            }
        }),
    decreases replies.len(),
{
    let other = RunView { auto_open_pr_if_missing, ..run };
    if replies.len() > 0 {
        assert(run.command() == other.command());
        if let StepView::Next(next) = run.step(replies.first()) {
            assert(restacking(next.phase));
            assert(other.step(replies.first()) == StepView::Next(
                RunView { auto_open_pr_if_missing, ..next },
            ));
            lemma_restacks_alike(next, auto_open_pr_if_missing, replies.drop_first());
        } else {
            assert(other.step(replies.first()) == run.step(replies.first()));
        }
    }
}

/// A deletion that `gh` refuses passes for one of a branch that was gone already
/// exactly if the complaint says so. What the branch is called makes no
/// difference.
pub proof fn a_refused_deletion_is_judged_by_its_complaint(
    run: RunView,
    fault: FaultView,
    complaint: Seq<char>,
)
    requires
        run.phase is DeleteBranch,
    ensures
        run.step(ReplyView::Failure { fault, complaint }) is Next <==> occurs_in("422"@, complaint)
            || occurs_in("Reference does not exist"@, complaint),
        run.step(ReplyView::Failure { fault, complaint }) matches StepView::Done(result)
            ==> result is Err,
{
}

/// The phases of a reconciliation that does not restack, as long as no PR is to
/// be opened.
spec fn opens_nothing(run: RunView) -> bool {
    &&& !run.auto_open_pr_if_missing
    &&& run.phase is Classify && run.strategy != RemoteDivergenceStrategy::Restack || run.phase
        is FirstPush || run.phase is Rebase || run.phase is PushRebased || run.phase is PushAhead
        || run.phase is FindPr || landing_phase(run.phase)
}

proof fn lemma_opens_nothing(run: RunView, replies: Seq<ReplyView>, i: int)
    requires
        opens_nothing(run),
        0 <= i < run.answered(replies).len(),
    ensures
        !opens(run.answered(replies)[i]),
    decreases replies.len(),
{
    lemma_opens(run);
    if i > 0 {
        if let StepView::Next(next) = run.step(replies.first()) {
            let rest = replies.drop_first();
            assert(run.answered(replies)[i] == next.answered(rest)[i - 1]);
            lemma_opens_nothing(next, rest, i - 1);
        }
    }
}

/// Where no PR is to be opened for want of one and the strategy is not to
/// restack, no command opens a PR, whatever state the remote is found in.
pub proof fn no_pr_is_opened_unasked(
    branch: Seq<char>,
    target_branch: Seq<char>,
    strategy: RemoteDivergenceStrategy,
    draft: bool,
    replies: Seq<ReplyView>,
    i: int,
)
    requires
        strategy != RemoteDivergenceStrategy::Restack,
        0 <= i < unreconciled(branch, target_branch, strategy, false, draft).answered(
            replies,
        ).len(),
    ensures
        !opens(unreconciled(branch, target_branch, strategy, false, draft).answered(replies)[i]),
{
    lemma_opens_nothing(
        unreconciled(branch, target_branch, strategy, false, draft),
        replies,
        i,
    );
}

/// A strategy of restacking makes no difference to that where there is no
/// collision.
pub proof fn no_pr_is_opened_unasked_without_a_collision(
    branch: Seq<char>,
    target_branch: Seq<char>,
    strategy: RemoteDivergenceStrategy,
    draft: bool,
    replies: Seq<ReplyView>,
    count: int,
    state: RemoteState,
    i: int,
)
    requires
        classified_by(branch, replies, count, state),
        state matches RemoteState::Diverges { behind, .. } ==> behind == 0,
        0 <= i < unreconciled(branch, target_branch, strategy, false, draft).answered(
            replies,
        ).len(),
    ensures
        !opens(unreconciled(branch, target_branch, strategy, false, draft).answered(replies)[i]),
{
    let run = unreconciled(branch, target_branch, strategy, false, draft);
    let h = lemma_classified(run, replies, count, state);
    let first = replies.take(count);
    let rest = replies.skip(count);
    assert(first + rest =~= replies);
    assert(first.drop_last() =~= replies.take(count - 1));
    assert(run.classification(ClassifyPhase::Query) == unclassified(branch));
    lemma_begins_as_classification(run, ClassifyPhase::Query, first);
    lemma_answered_on(run, first, rest);
    let asked = run.answered(first);
    if i < asked.len() {
        assert(only_reads(asked[i]));
        assert(run.answered(replies)[i] == asked[i]);
    } else if let StepView::Next(next) = run.after(first) {
        assert(run.answered(replies)[i] == next.answered(rest)[i - asked.len()]);
        lemma_opens_nothing(next, rest, i - asked.len());
    }
}

/// Later commands follow the first ones.
#[verifier::spinoff_prover]
#[verifier::rlimit(60)]
proof fn lemma_answered_on(run: RunView, first: Seq<ReplyView>, rest: Seq<ReplyView>)
    ensures
        run.answered(first + rest) == run.answered(first) + match run.after(first) {
            StepView::Next(next) => next.answered(rest),
            StepView::Done(_) => Seq::empty(),
        },
    decreases first.len(),
{
    if first.len() == 0 {
        assert(first + rest =~= rest);
        assert(run.answered(first + rest) =~= Seq::<CommandView>::empty() + run.answered(rest));
    } else {
        let all = first + rest;
        assert(all.first() == first.first());
        assert(all.drop_first() =~= first.drop_first() + rest);
        match run.step(first.first()) {
            StepView::Next(next) => {
                lemma_answered_on(next, first.drop_first(), rest);
                let later = next.answered(first.drop_first());
                let last = match next.after(first.drop_first()) {
                    StepView::Next(end) => end.answered(rest),
                    StepView::Done(_) => Seq::empty(),
                };
                assert(run.answered(all) =~= seq![run.command()] + (later + last));
                assert(run.answered(first) =~= seq![run.command()] + later);
                assert(seq![run.command()] + (later + last) =~= (seq![run.command()] + later)
                    + last);
            },
            StepView::Done(_) => {
                assert(run.answered(all) =~= seq![run.command()]);
                assert(run.answered(first) =~= seq![run.command()]);
                assert(run.answered(first) + Seq::<CommandView>::empty() =~= run.answered(first));
            },
        }
    }
}

/// Whether a command looks for a PR.
pub open spec fn looks_for_a_pr(c: CommandView) -> bool {
    c.program == Program::Gh && c.args[0] == "pr"@ && c.args[1] == "list"@
}

/// Where no PR is to be opened for want of one and the strategy is not to
/// restack, a look for the PR that finds none ends the reconciliation with the
/// error that names both branches.
pub proof fn a_missing_pr_is_an_error(
    branch: Seq<char>,
    target_branch: Seq<char>,
    strategy: RemoteDivergenceStrategy,
    draft: bool,
    replies: Seq<ReplyView>,
    i: int,
    listing: Seq<char>,
)
    requires
        strategy != RemoteDivergenceStrategy::Restack,
        0 <= i < unreconciled(branch, target_branch, strategy, false, draft).answered(
            replies,
        ).len(),
        looks_for_a_pr(
            unreconciled(branch, target_branch, strategy, false, draft).answered(replies)[i],
        ),
        replies[i] == ReplyView::Output(listing),
        trimmed(listing).len() == 0,
    ensures
        unreconciled(branch, target_branch, strategy, false, draft).after(replies)
            == StepView::Done(Err(plain(missing_pr_text(branch, target_branch)))),
{
    lemma_missing_pr(
        unreconciled(branch, target_branch, strategy, false, draft),
        replies,
        i,
        listing,
    );
}

proof fn lemma_missing_pr(run: RunView, replies: Seq<ReplyView>, i: int, listing: Seq<char>)
    requires
        opens_nothing(run),
        0 <= i < run.answered(replies).len(),
        looks_for_a_pr(run.answered(replies)[i]),
        replies[i] == ReplyView::Output(listing),
        trimmed(listing).len() == 0,
    ensures
        run.after(replies) == StepView::Done(
            Err(plain(missing_pr_text(run.branch, run.target_branch))),
        ),
    decreases replies.len(),
{
    lemma_looks(run);
    assert(run.answered(replies)[0] == run.command());
    if i > 0 {
        match run.step(replies.first()) {
            StepView::Next(next) => {
                let rest = replies.drop_first();
                lemma_answers_fit(next, rest);
                assert(run.answered(replies)[i] == next.answered(rest)[i - 1]);
                assert(replies[i] == rest[i - 1]);
                lemma_missing_pr(next, rest, i - 1, listing);
            },
            StepView::Done(_) => {
                assert(run.answered(replies) =~= seq![run.command()]);
            },
        }
    }
}

/// Which phases look for a PR.
proof fn lemma_looks(run: RunView)
    ensures
        looks_for_a_pr(run.command()) <==> (run.phase is FindPr || run.phase is FindOldPr),
{
    reveal_strlit("api");
    reveal_strlit("pr");
    reveal_strlit("list");
    reveal_strlit("close");
    reveal_strlit("create");
    assert("api"@.len() == 3);
    assert("pr"@.len() == 2);
    assert("list"@.len() == 4);
    assert("close"@.len() == 5);
    assert("create"@.len() == 6);
}

/// Whether what one failure tells is at the bottom of what another tells.
pub open spec fn goes_back_to(fault: FaultView, root: FaultView) -> bool {
    &&& fault.told().len() >= root.told().len()
    &&& fault.told().skip(fault.told().len() - root.told().len()) == root.told()
}

/// A command that fails ends the reconciliation with an error that goes back to
/// that failure. The exceptions are the probes of a restack, where a failure
/// tells that there is no such branch, and the deletion of a branch that was
/// gone already.
pub proof fn a_failed_command_is_reported(run: RunView, fault: FaultView, complaint: Seq<char>)
    requires
        !(run.phase is ProbeLocal || run.phase is ProbeRemote),
        run.phase is DeleteBranch ==> !occurs_in("422"@, complaint) && !occurs_in(
            "Reference does not exist"@,
            complaint,
        ),
    ensures
        run.step(ReplyView::Failure { fault, complaint }) matches StepView::Done(Err(reported))
            && goes_back_to(reported, fault),
{
    if let StepView::Done(Err(reported)) = run.step(ReplyView::Failure { fault, complaint }) {
        let extra = reported.told().len() - fault.told().len();
        assert(0 <= extra <= 2);
        if extra == 0 {
            assert(reported == fault);
            assert(fault.told().skip(0) =~= fault.told());
        } else {
            assert(reported.told().skip(extra) =~= fault.told());
        }
    }
}

/// A number that cannot be read is an error: that of a count, that of a listed
/// PR, and that of a PR which was just opened.
pub proof fn what_cannot_be_read_is_an_error(run: RunView, output: Seq<char>)
    ensures
        (run.phase == Phase::Classify(ClassifyPhase::CountBehind) || (run.phase matches
            Phase::Classify(ClassifyPhase::CountAhead { .. }))) && number(trimmed(output)) is Err
            ==> (run.step(ReplyView::Output(output)) matches StepView::Done(result)
            && result is Err),
        (run.phase is FindPr || run.phase is FindOldPr) && trimmed(output).len() > 0 && number(
            trimmed(output),
        ) is Err ==> (run.step(ReplyView::Output(output)) matches StepView::Done(result)
            && result is Err),
        (run.phase is OpenPr || run.phase is OpenNewPr) && pr_number_in(output) is None ==> (
        run.step(ReplyView::Output(output)) matches StepView::Done(result) && result is Err),
{
}

/// While the remote is being found out about, a reconciliation asks what a
/// classification of the branch asks, and goes on as long as that does.
pub proof fn a_reconciliation_begins_by_classifying(
    run: RunView,
    phase: ClassifyPhase,
    reply: ReplyView,
)
    requires
        run.phase == Phase::Classify(phase),
    ensures
        ({
            let asking = ClassifyView { branch: run.branch, local_head: run.local_head, phase };
            &&& run.command() == asking.command()
            &&& match asking.step(reply) {
                ClassifyStepView::Next(next) => run.step(reply) == StepView::Next(
                    RunView {
                        local_head: next.local_head,
                        phase: Phase::Classify(next.phase),
                        ..run
                    },
                ) && next.branch == run.branch,
                ClassifyStepView::Done(Err(fault)) => run.step(reply) == StepView::Done(Err(fault)),
                ClassifyStepView::Done(Ok(_)) => !(run.step(reply) matches StepView::Next(next)
                    && next.phase is Classify),
            }
        }),
{
}

/// What a failure is reported as, on top of what the command itself tells.
pub open spec fn reported_as(run: RunView) -> Seq<Seq<char>> {
    match run.phase {
        Phase::Classify(ClassifyPhase::Query) => seq!["failed to query origin for branch state"@],
        Phase::Classify(ClassifyPhase::Fetch) => seq!["failed to fetch origin/<branch>"@],
        Phase::FirstPush => seq!["initial push to origin failed"@],
        Phase::Rebase => seq!["rebase onto origin/<branch> failed"@],
        Phase::PushRebased => seq!["push after rebase failed"@],
        Phase::PushAhead { .. } => seq!["push to origin failed"@],
        Phase::CreateBranch { .. } => seq!["failed to create -vN branch"@],
        Phase::PushBranch { .. } => seq!["failed to push -vN branch"@],
        Phase::CloseOldPr { .. } => seq!["failed to close superseded PR"@],
        Phase::OpenNewPr { .. } => seq!["failed to create replacement PR"@],
        Phase::Merge { landing: Landing::Feature(_), .. } => seq![
            "squash-merge via GitHub REST API failed"@,
            "squash-merge PUT returned non-success"@,
        ],
        Phase::Merge { landing: Landing::Replacement { .. }, .. } => seq![
            "failed to squash-merge replacement PR"@,
            "squash-merge PUT returned non-success"@,
        ],
        Phase::DeleteBranch { landing: Landing::Feature(_), .. } => seq![
            "squash-merge via GitHub REST API failed"@,
            "delete remote branch via gh api failed"@,
        ],
        Phase::DeleteBranch { landing: Landing::Replacement { .. }, .. } => seq![
            "failed to squash-merge replacement PR"@,
            "delete remote branch via gh api failed"@,
        ],
        Phase::AdvanceTarget { .. } => seq![
            "failed to advance local "@ + run.target_branch + " to origin/"@ + run.target_branch,
        ],
        _ => Seq::empty(),
    }
}

/// A failure is reported by the step that failed, on top of all that the command
/// itself tells.
pub proof fn a_failure_says_what_failed(run: RunView, fault: FaultView, complaint: Seq<char>)
    requires
        run.step(ReplyView::Failure { fault, complaint }) is Done,
        !(run.phase is ProbeRemote),
    ensures
        run.step(ReplyView::Failure { fault, complaint }) matches StepView::Done(Err(reported))
            && reported.told() == reported_as(run) + fault.told(),
{
    if let StepView::Done(Err(reported)) = run.step(ReplyView::Failure { fault, complaint }) {
        assert(reported.told() =~= reported_as(run) + fault.told());
    }
}

/// A count that cannot be read is reported with the commits that were counted.
pub proof fn an_unread_count_names_its_commits(
    branch: Seq<char>,
    local_head: Seq<char>,
    behind: u32,
    output: Seq<char>,
)
    requires
        number(trimmed(output)) is Err,
    ensures
        (ClassifyView { branch, local_head, phase: ClassifyPhase::CountBehind }).step(
            ReplyView::Output(output),
        ) matches ClassifyStepView::Done(Err(fault)) && fault.told().len() == 2 && fault.message
            == "failed to parse commit count for range "@ + ("HEAD.."@ + ("origin/"@ + branch)),
        (ClassifyView { branch, local_head, phase: ClassifyPhase::CountAhead { behind } }).step(
            ReplyView::Output(output),
        ) matches ClassifyStepView::Done(Err(fault)) && fault.told().len() == 2 && fault.message
            == "failed to parse commit count for range "@ + (("origin/"@ + branch) + "..HEAD"@),
{
}

/// Where `gh` refuses to delete a branch, what it wrote of its failure decides
/// whether the branch counts as gone.
pub proof fn what_gh_wrote_decides_a_deletion(
    run: RunView,
    args: Seq<Seq<char>>,
    stdout: Seq<char>,
    stderr: Seq<char>,
)
    requires
        run.phase is DeleteBranch,
    ensures
        run.step(gh_outcome(args, false, stdout, stderr)) is Next <==> occurs_in(
            "422"@,
            trimmed(stderr),
        ) || occurs_in("Reference does not exist"@, trimmed(stderr)),
        run.step(gh_outcome(args, true, stdout, stderr)) is Next,
{
}

/// What comes once a state is given: a branch that the remote lacks is pushed
/// with its upstream, one that is in sync goes on to its PR, one that is behind
/// is rebased onto the remote, and one that the remote lacks commits of is
/// pushed. Where the remote has commits beside local ones the strategy decides:
/// the PR of what the remote has, a replacement branch, or the end.
pub proof fn the_state_decides_what_comes_next(run: RunView, state: RemoteState)
    ensures
        ({
            let way = run.dispatch(state);
            let collision = state matches RemoteState::Diverges { behind, .. } && behind > 0;
            &&& state is Absent ==> runs_next(
                way,
                git(seq!["push"@, "-u"@, "origin"@, run.branch]),
            )
            &&& state is InSync ==> (way matches StepView::Next(next) && looks_for_a_pr(
                next.command(),
            ))
            &&& state is Ahead ==> runs_next(way, git(seq!["rebase"@, "origin/"@ + run.branch]))
            &&& state is Diverges && !collision ==> runs_next(
                way,
                git(seq!["push"@, "origin"@, run.branch]),
            )
            &&& collision ==> match run.strategy {
                RemoteDivergenceStrategy::RemoteSquash => (way matches StepView::Next(next)
                    && looks_for_a_pr(next.command())),
                RemoteDivergenceStrategy::Restack => runs_next(
                    way,
                    git(
                        seq![
                            "show-ref"@,
                            "--verify"@,
                            "--quiet"@,
                            "refs/heads/"@ + (run.branch + "-v"@ + decimal(2)),
                        ],
                    ),
                ),
                RemoteDivergenceStrategy::Abort => way == StepView::Done(
                    Err(plain(abort_text(run.branch, run.target_branch))),
                ),
            }
        }),
{
}

/// Whether this command comes next.
pub open spec fn runs_next(way: StepView, command: CommandView) -> bool {
    way matches StepView::Next(next) && next.command() == command
}

/// Where all versions are taken the branch is named.
pub proof fn an_exhausted_branch_is_named(branch: Seq<char>)
    ensures
        occurs_in("for branch '"@ + branch + "';"@, exhausted_text(branch)),
{
    let none = Seq::<char>::empty();
    let l1 = "exhausted -v2..-v99 candidates for branch '"@;
    let l2 = "'; clean up old restacks"@;
    assert(l1.len() >= 12 && l1.skip(l1.len() - 12) =~= "for branch '"@) by {
        reveal_strlit("for branch '");
        reveal_strlit("exhausted -v2..-v99 candidates for branch '");
    }
    assert(l2.len() >= 2 && l2.take(2) =~= "';"@) by {
        reveal_strlit("';");
        reveal_strlit("'; clean up old restacks");
    }
    assert(exhausted_text(branch) =~= none + l1 + branch + l2 + none);
    lemma_spans(none, l1, branch, l2, none, 12, 2);
}

} // verus!
