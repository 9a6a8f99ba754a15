//! The course of a merge in which nothing fails: what is asked for, in which
//! order and with which arguments, and what the merge comes to.

use vstd::prelude::*;
use crate::answer::AnswerView;
use crate::command::{CommandView, Program};
use crate::merge::{MergePhase, MergeView, MergeWayView, Progress, starting};
use crate::merge_action::{Destination, MergeActionView};
use crate::merge_end::{EndView, Note, ReportView};
use crate::merge_options::{HookType, MergePlan, StageMode};
use crate::reconcile::OutcomeView;
use crate::removal::BranchDeletionMode;
use crate::text::{shortened, shortens, trimmed};

verus! {

/// Something that is asked for, its answer, and what the user is told of it.
#[verifier::ext_equal]
pub struct Exchange {
    pub ask: MergeActionView,
    pub answer: AnswerView,
    pub note: Option<Note>,
}

/// An exchange of which the user is told nothing.
pub open spec fn quietly(ask: MergeActionView, answer: AnswerView) -> Exchange {
    Exchange { ask, answer, note: None }
}

/// Whether a merge asks for these things in this order, is content with each
/// answer, tells the user these things, and comes to this end.
pub open spec fn follows(run: MergeView, course: Seq<Exchange>, end: MergeWayView) -> bool
    decreases course.len(),
{
    if course.len() == 0 {
        end == MergeWayView::Next(run)
    } else {
        let exchange = course.first();
        let step = run.step(exchange.answer);
        &&& run.action() == exchange.ask
        &&& run.expects(exchange.answer)
        &&& step.note == exchange.note
        &&& match step.to {
            MergeWayView::Next(next) => follows(next, course.drop_first(), end),
            MergeWayView::Done(_) => course.len() == 1 && step.to == end,
        }
    }
}

/// Who merges what from where.
#[verifier::ext_equal]
pub struct Place {
    pub requested: Option<Seq<char>>,
    pub branch: Seq<char>,
    pub worktree_path: Seq<char>,
    pub worktree_name: Option<Seq<char>>,
}

/// What is found out on the way.
#[verifier::ext_equal]
pub struct Findings {
    /// The target branch.
    pub target: Seq<char>,
    /// Where it is checked out, if it is.
    pub target_worktree: Option<Seq<char>>,
    /// Whether the project has a configuration.
    pub configured: bool,
    /// Whether there are uncommitted changes before the hooks are approved.
    pub dirty: bool,
    /// Whether the user approves.
    pub approved: bool,
    /// Whether there are changes when it comes to the commit.
    pub dirty_for_commit: bool,
    /// Whether there are changes when it comes to the guard.
    pub dirty_for_guard: bool,
    /// Whether there was something to squash.
    pub squashed: bool,
    /// Whether the rebase moved anything.
    pub rebased: bool,
    /// What the reconciliation came to.
    pub outcome: OutcomeView,
    /// The PR that the provider merged.
    pub pr_number: u32,
    /// How the summary went.
    pub summarized: AnswerView,
    /// How the target's worktree was brought up to date.
    pub resynced: AnswerView,
    /// The commit of the branch as it was read, or why it was not.
    pub commit: AnswerView,
    /// Whether this is the primary worktree.
    pub primary: bool,
}

impl Findings {
    /// Whether each finding is one that can be made: the outcome is no draft and
    /// names the PR that was merged; what is only shown or tidied up may fail.
    pub open spec fn sound(self) -> bool {
        &&& match self.outcome {
            OutcomeView::FirstPush { pr_number } => pr_number == self.pr_number,
            OutcomeView::AlreadyPushed { pr_number } => pr_number == self.pr_number,
            OutcomeView::RebasedAndPushed { pr_number } => pr_number == self.pr_number,
            OutcomeView::FastForwarded { pr_number } => pr_number == self.pr_number,
            OutcomeView::RemoteSquashed { pr_number } => pr_number == self.pr_number,
            OutcomeView::Restacked { new_pr, .. } => new_pr == self.pr_number,
            OutcomeView::OpenedDraftPr { .. } => false,
        }
        &&& self.summarized is Yes || self.summarized is Failed
        &&& self.resynced is Yes || self.resynced is Failed
        &&& match self.commit {
            AnswerView::Text(text) => shortens(trimmed(text)),
            AnswerView::Failed(_) => true,
            _ => false,
        }
    }

    /// The commit of the branch, where it was read.
    pub open spec fn commit_id(self) -> Option<Seq<char>> {
        match self.commit {
            AnswerView::Text(text) => Some(trimmed(text)),
            _ => None,
        }
    }

    /// Where the user ends up.
    pub open spec fn destination(self) -> Destination {
        match self.target_worktree {
            Some(_) => Destination::TargetWorktree,
            None => Destination::Home,
        }
    }

    /// What hooks are told of the target.
    pub open spec fn of_the_target(self) -> Seq<(Seq<char>, Seq<char>)> {
        match self.target_worktree {
            Some(path) => seq![("target"@, self.target), ("target_worktree_path"@, path)],
            None => seq![("target"@, self.target)],
        }
    }

    /// What hooks are told of the commit.
    pub open spec fn of_the_commit(self) -> Seq<(Seq<char>, Seq<char>)> {
        match self.commit_id() {
            Some(id) => seq![("commit"@, id)] + match shortened(id) {
                Some(short) => seq![("short_commit"@, short)],
                None => Seq::empty(),
            },
            None => Seq::empty(),
        }
    }
}

/// The answer to a question.
pub open spec fn said(holds: bool) -> AnswerView {
    if holds {
        AnswerView::Yes
    } else {
        AnswerView::No
    }
}

/// What was asked for, if it was.
pub open spec fn only_if(asked: bool, exchanges: Seq<Exchange>) -> Seq<Exchange> {
    if asked {
        exchanges
    } else {
        Seq::empty()
    }
}

/// The checks and the lookup of the target. Without a commit the tree is to be
/// clean.
pub open spec fn lookup(plan: MergePlan, place: Place, found: Findings) -> Seq<Exchange> {
    only_if(!plan.commit, seq![quietly(MergeActionView::IsDirty, AnswerView::No)]) + seq![
        quietly(
            MergeActionView::RequireTarget { target: place.requested },
            AnswerView::Text(found.target),
        ),
        quietly(
            MergeActionView::WorktreeFor { branch: found.target },
            match found.target_worktree {
                Some(path) => AnswerView::Text(path),
                None => AnswerView::No,
            },
        ),
        quietly(MergeActionView::LoadProjectConfig, said(found.configured)),
    ]
}

/// The approval of every hook that can come to run. Where the project has no
/// configuration there is none.
pub open spec fn approval(plan: MergePlan, place: Place, found: Findings) -> Seq<Exchange> {
    let hooked = found.configured && plan.verify;
    let commits = plan.commit && (found.dirty || plan.squash);
    let removes = plan.remove && place.branch != found.target;
    only_if(found.configured, seq![quietly(MergeActionView::IsDirty, said(found.dirty))]) + seq![
        Exchange {
            ask: MergeActionView::Approve {
                hooks: (if hooked && commits {
                    seq![HookType::PreCommit, HookType::PostCommit]
                } else {
                    Seq::empty()
                }) + (if hooked {
                    seq![HookType::PreMerge, HookType::PostMerge]
                } else {
                    Seq::empty()
                }) + (if hooked && removes {
                    seq![HookType::PreRemove, HookType::PostRemove, HookType::PostSwitch]
                } else {
                    Seq::empty()
                }),
                yes: plan.yes,
            },
            answer: said(found.approved),
            note: if found.approved {
                None
            } else {
                Some(Note::CommandsDeclined)
            },
        },
    ]
}

/// The commit of what is there, unless a squash takes it along.
pub open spec fn commit(plan: MergePlan, found: Findings) -> Seq<Exchange> {
    only_if(
        plan.commit,
        seq![quietly(MergeActionView::IsDirty, said(found.dirty_for_commit))],
    ) + only_if(
        plan.commit && !plan.squash && found.dirty_for_commit,
        seq![
            quietly(
                MergeActionView::Commit {
                    target_branch: found.target,
                    verify: plan.verify && found.approved,
                    stage: plan.stage,
                    warn_about_untracked: plan.stage == StageMode::All,
                    show_no_squash_note: true,
                },
                AnswerView::Yes,
            ),
        ],
    )
}

/// The guard of local commits, where the branch lands through the remote.
pub open spec fn securing(plan: MergePlan, place: Place, found: Findings) -> Seq<Exchange> {
    only_if(
        plan.push_to_origin,
        seq![
            quietly(MergeActionView::IsDirty, said(found.dirty_for_guard)),
            quietly(
                MergeActionView::EnsurePrBranch {
                    branch: place.branch,
                    dirty: found.dirty_for_guard,
                },
                AnswerView::Yes,
            ),
        ],
    )
}

/// The squash, the rebase onto the target or the check that it was done, and
/// the pre-merge hooks.
pub open spec fn preparation(plan: MergePlan, found: Findings) -> Seq<Exchange> {
    only_if(
        plan.squash,
        seq![
            quietly(
                MergeActionView::Squash {
                    target_branch: found.target,
                    yes: plan.yes,
                    verify: plan.verify && found.approved,
                    stage: plan.stage,
                    no_fetch: plan.no_fetch,
                },
                said(found.squashed),
            ),
        ],
    ) + seq![
        if plan.rebase {
            quietly(MergeActionView::Rebase { target_branch: found.target }, said(found.rebased))
        } else {
            quietly(
                MergeActionView::IsRebasedOnto { target_branch: found.target },
                AnswerView::Yes,
            )
        },
    ] + only_if(
        plan.verify && found.approved,
        seq![
            quietly(
                MergeActionView::RunPreMergeHooks { variables: found.of_the_target() },
                AnswerView::Yes,
            ),
        ],
    )
}

/// The landing, through the remote or locally.
pub open spec fn landing(plan: MergePlan, place: Place, found: Findings) -> Seq<Exchange> {
    if plan.push_to_origin {
        seq![
            Exchange {
                ask: MergeActionView::Reconcile {
                    branch: place.branch,
                    target_branch: found.target,
                    strategy: plan.on_diverged_remote,
                    auto_open_pr_if_missing: plan.auto_open_pr_if_missing,
                    draft: plan.draft,
                },
                answer: AnswerView::Reconciled(found.outcome),
                note: Some(Note::ProviderMerged),
            },
            quietly(
                MergeActionView::Summarize {
                    target_branch: found.target,
                    pr_number: found.pr_number,
                },
                found.summarized,
            ),
        ] + only_if(
            found.target_worktree is Some,
            seq![
                quietly(
                    MergeActionView::ResyncTarget {
                        command: CommandView {
                            program: Program::Git,
                            args: seq![
                                "read-tree"@,
                                "-m"@,
                                "-u"@,
                                "refs/heads/"@ + found.target + "@{1}"@,
                                "refs/heads/"@ + found.target,
                            ],
                        },
                    },
                    found.resynced,
                ),
            ],
        )
    } else {
        seq![
            quietly(
                MergeActionView::MergeLocally {
                    ff: plan.ff,
                    target_branch: found.target,
                    branch: place.branch,
                    committed: plan.commit && !plan.squash && found.dirty_for_commit,
                    squashed: plan.squash && found.squashed,
                    rebased: plan.rebase && found.rebased,
                },
                AnswerView::Yes,
            ),
        ]
    }
}

/// The way to the destination, and the commit of the branch.
pub open spec fn arrival(plan: MergePlan, place: Place, found: Findings) -> Seq<Exchange> {
    only_if(
        found.target_worktree is None,
        seq![quietly(MergeActionView::FindHome, AnswerView::Yes)],
    ) + seq![
        Exchange {
            ask: MergeActionView::ReadCommit,
            answer: found.commit,
            note: if !plan.remove {
                Some(Note::PreservedOnRequest)
            } else if place.branch == found.target {
                Some(Note::PreservedOnTarget)
            } else {
                None
            },
        },
    ]
}

/// Whether the worktree goes.
pub open spec fn goes(plan: MergePlan, place: Place, found: Findings) -> bool {
    plan.remove && place.branch != found.target && !found.primary
}

/// The removal of the worktree, unless it is to stay.
pub open spec fn removal(plan: MergePlan, place: Place, found: Findings) -> Seq<Exchange> {
    only_if(
        plan.remove && place.branch != found.target,
        seq![
            Exchange {
                ask: MergeActionView::IsPrimaryWorktree,
                answer: said(found.primary),
                note: if found.primary {
                    Some(Note::PreservedPrimary)
                } else {
                    None
                },
            },
        ],
    ) + only_if(
        goes(plan, place, found),
        seq![
            quietly(
                MergeActionView::CheckNotDefaultBranch {
                    branch: place.branch,
                    mode: BranchDeletionMode::SafeDelete,
                },
                AnswerView::Yes,
            ),
            quietly(
                MergeActionView::EnsureClean {
                    action: "remove worktree after merge"@,
                    branch: place.branch,
                    force_hint: false,
                },
                AnswerView::Yes,
            ),
            quietly(
                MergeActionView::RemoveWorktree {
                    destination: found.destination(),
                    branch: place.branch,
                    mode: BranchDeletionMode::SafeDelete,
                    force_worktree: false,
                    target_branch: found.target,
                    commit: found.commit_id(),
                    verify: plan.verify && found.approved,
                },
                AnswerView::Yes,
            ),
        ],
    )
}

/// The post-merge hooks.
pub open spec fn closing(plan: MergePlan, place: Place, found: Findings) -> Seq<Exchange> {
    only_if(
        plan.verify && found.approved,
        seq![
            quietly(
                MergeActionView::RunPostMergeHooks {
                    destination: found.destination(),
                    removed: goes(plan, place, found),
                    variables: found.of_the_target() + seq![
                        ("worktree_path"@, place.worktree_path),
                        ("worktree"@, place.worktree_path),
                        (
                            "worktree_name"@,
                            match place.worktree_name {
                                Some(name) => name,
                                None => "unknown"@,
                            },
                        ),
                    ] + found.of_the_commit(),
                },
                AnswerView::Yes,
            ),
        ],
    )
}

/// The whole course of a merge in which nothing fails.
pub open spec fn whole(plan: MergePlan, place: Place, found: Findings) -> Seq<Exchange> {
    lookup(plan, place, found) + approval(plan, place, found) + commit(plan, found) + securing(
        plan,
        place,
        found,
    ) + preparation(plan, found) + landing(plan, place, found) + arrival(plan, place, found)
        + removal(plan, place, found) + closing(plan, place, found)
}

/// A merge at its start.
pub open spec fn at_the_start(plan: MergePlan, place: Place) -> MergeView {
    starting(
        plan,
        place.requested,
        place.branch,
        place.worktree_path,
        place.worktree_name,
    )
}

/// One course after another is a course.
proof fn lemma_joined(
    run: MergeView,
    first: Seq<Exchange>,
    between: MergeView,
    second: Seq<Exchange>,
    end: MergeWayView,
)
    requires
        follows(run, first, MergeWayView::Next(between)),
        follows(between, second, end),
    ensures
        follows(run, first + second, end),
    decreases first.len(),
{
    if first.len() == 0 {
        assert(first + second =~= second);
    } else {
        let answer = first.first().answer;
        assert((first + second).first() == first.first());
        assert((first + second).drop_first() =~= first.drop_first() + second);
        match run.step(answer).to {
            MergeWayView::Next(next) => {
                lemma_joined(next, first.drop_first(), between, second, end);
            },
            MergeWayView::Done(_) => {},
        }
    }
}

/// A single exchange is a course.
proof fn lemma_one(run: MergeView, exchange: Exchange)
    requires
        run.action() == exchange.ask,
        run.expects(exchange.answer),
        run.step(exchange.answer).note == exchange.note,
    ensures
        follows(run, seq![exchange], run.step(exchange.answer).to),
{
    reveal_with_fuel(follows, 2);
    assert(seq![exchange].drop_first() =~= Seq::<Exchange>::empty());
}

/// The merge at a point, with what is known there.
spec fn point(
    plan: MergePlan,
    place: Place,
    found: Findings,
    progress: Progress,
    commit: Option<Seq<char>>,
    phase: MergePhase,
) -> MergeView {
    MergeView {
        plan,
        progress,
        current_branch: place.branch,
        requested_target: place.requested,
        target_branch: found.target,
        target_worktree: found.target_worktree,
        worktree_path: place.worktree_path,
        worktree_name: match place.worktree_name {
            Some(name) => name,
            None => "unknown"@,
        },
        commit,
        phase,
    }
}

/// What has happened before anything is done.
spec fn nothing_done(verify: bool) -> Progress {
    Progress { verify, committed: false, squashed: false, rebased: false, removed: false }
}

/// What has happened once the branch is prepared.
spec fn prepared(plan: MergePlan, found: Findings) -> Progress {
    Progress {
        verify: plan.verify && found.approved,
        committed: plan.commit && !plan.squash && found.dirty_for_commit,
        squashed: plan.squash && found.squashed,
        rebased: plan.rebase && found.rebased,
        removed: false,
    }
}

proof fn lemma_lookup(plan: MergePlan, place: Place, found: Findings)
    ensures
        follows(
            at_the_start(plan, place),
            lookup(plan, place, found),
            MergeWayView::Next(
                point(
                    plan,
                    place,
                    found,
                    nothing_done(plan.verify),
                    None,
                    if found.configured {
                        MergePhase::CheckDirtyForHooks
                    } else {
                        MergePhase::Approve { changes: None }
                    },
                ),
            ),
        ),
{
    let start = at_the_start(plan, place);
    let asking = MergeView { phase: MergePhase::RequireTarget, ..start };
    let checks = only_if(!plan.commit, seq![quietly(MergeActionView::IsDirty, AnswerView::No)]);
    if !plan.commit {
        lemma_one(start, quietly(MergeActionView::IsDirty, AnswerView::No));
    }
    let target = quietly(
        MergeActionView::RequireTarget { target: place.requested },
        AnswerView::Text(found.target),
    );
    lemma_one(asking, target);
    lemma_joined(start, checks, asking, seq![target], asking.step(target.answer).to);
    let finding = asking.step(target.answer).to->Next_0;
    let worktree = quietly(
        MergeActionView::WorktreeFor { branch: found.target },
        match found.target_worktree {
            Some(path) => AnswerView::Text(path),
            None => AnswerView::No,
        },
    );
    lemma_one(finding, worktree);
    lemma_joined(
        start,
        checks + seq![target],
        finding,
        seq![worktree],
        finding.step(worktree.answer).to,
    );
    let loading = finding.step(worktree.answer).to->Next_0;
    let config = quietly(MergeActionView::LoadProjectConfig, said(found.configured));
    lemma_one(loading, config);
    lemma_joined(
        start,
        checks + seq![target] + seq![worktree],
        loading,
        seq![config],
        loading.step(config.answer).to,
    );
    assert(checks + seq![target] + seq![worktree] + seq![config] =~= lookup(plan, place, found));
}

proof fn lemma_approval(plan: MergePlan, place: Place, found: Findings)
    ensures
        follows(
            point(
                plan,
                place,
                found,
                nothing_done(plan.verify),
                None,
                if found.configured {
                    MergePhase::CheckDirtyForHooks
                } else {
                    MergePhase::Approve { changes: None }
                },
            ),
            approval(plan, place, found),
            MergeWayView::Next(
                point(
                    plan,
                    place,
                    found,
                    nothing_done(plan.verify && found.approved),
                    None,
                    plan.committing(),
                ),
            ),
        ),
{
    let known = nothing_done(plan.verify);
    let checked = only_if(
        found.configured,
        seq![quietly(MergeActionView::IsDirty, said(found.dirty))],
    );
    let exchange = approval(plan, place, found).last();
    let checking = point(plan, place, found, known, None, MergePhase::CheckDirtyForHooks);
    let changes = if found.configured {
        Some(found.dirty)
    } else {
        None
    };
    let asking = point(plan, place, found, known, None, MergePhase::Approve { changes });
    if found.configured {
        lemma_one(checking, quietly(MergeActionView::IsDirty, said(found.dirty)));
        assert(checking.step(said(found.dirty)).to == MergeWayView::Next(asking));
    }
    assert(asking.action()->hooks =~= exchange.ask->hooks);
    lemma_one(asking, exchange);
    let start = if found.configured {
        checking
    } else {
        asking
    };
    lemma_joined(start, checked, asking, seq![exchange], asking.step(exchange.answer).to);
    assert(checked + seq![exchange] =~= approval(plan, place, found));
}

proof fn lemma_commit(plan: MergePlan, place: Place, found: Findings)
    ensures
        follows(
            point(
                plan,
                place,
                found,
                nothing_done(plan.verify && found.approved),
                None,
                plan.committing(),
            ),
            commit(plan, found),
            MergeWayView::Next(
                point(
                    plan,
                    place,
                    found,
                    Progress {
                        committed: plan.commit && !plan.squash && found.dirty_for_commit,
                        ..nothing_done(plan.verify && found.approved)
                    },
                    None,
                    plan.guarding(),
                ),
            ),
        ),
{
    let known = nothing_done(plan.verify && found.approved);
    let start = point(plan, place, found, known, None, plan.committing());
    if plan.commit {
        let look = quietly(MergeActionView::IsDirty, said(found.dirty_for_commit));
        lemma_one(start, look);
        if !plan.squash && found.dirty_for_commit {
            let before = point(plan, place, found, known, None, MergePhase::Commit);
            let exchange = commit(plan, found)[1];
            lemma_one(before, exchange);
            lemma_joined(
                start,
                seq![look],
                before,
                seq![exchange],
                before.step(exchange.answer).to,
            );
            assert(seq![look] + seq![exchange] =~= commit(plan, found));
        } else {
            assert(seq![look] =~= commit(plan, found));
        }
    } else {
        assert(commit(plan, found) =~= Seq::empty());
    }
}

proof fn lemma_securing(plan: MergePlan, place: Place, found: Findings, progress: Progress)
    ensures
        follows(
            point(plan, place, found, progress, None, plan.guarding()),
            securing(plan, place, found),
            MergeWayView::Next(point(plan, place, found, progress, None, plan.squashing())),
        ),
{
    if plan.push_to_origin {
        let start = point(plan, place, found, progress, None, plan.guarding());
        let look = securing(plan, place, found)[0];
        lemma_one(start, look);
        let before = start.step(look.answer).to->Next_0;
        let exchange = securing(plan, place, found)[1];
        lemma_one(before, exchange);
        lemma_joined(start, seq![look], before, seq![exchange], before.step(exchange.answer).to);
        assert(seq![look] + seq![exchange] =~= securing(plan, place, found));
    }
}

proof fn lemma_preparation(plan: MergePlan, place: Place, found: Findings, progress: Progress)
    requires
        progress.verify == (plan.verify && found.approved),
        !progress.squashed,
        !progress.rebased,
    ensures
        follows(
            point(plan, place, found, progress, None, plan.squashing()),
            preparation(plan, found),
            MergeWayView::Next(
                point(
                    plan,
                    place,
                    found,
                    Progress {
                        squashed: plan.squash && found.squashed,
                        rebased: plan.rebase && found.rebased,
                        ..progress
                    },
                    None,
                    plan.landing(),
                ),
            ),
        ),
{
    let start = point(plan, place, found, progress, None, plan.squashing());
    let squash = quietly(
        MergeActionView::Squash {
            target_branch: found.target,
            yes: plan.yes,
            verify: plan.verify && found.approved,
            stage: plan.stage,
            no_fetch: plan.no_fetch,
        },
        said(found.squashed),
    );
    let squashes = only_if(plan.squash, seq![squash]);
    let squashed = Progress { squashed: plan.squash && found.squashed, ..progress };
    let before = point(plan, place, found, squashed, None, plan.rebasing());
    if plan.squash {
        lemma_one(start, squash);
    }
    let rebase = if plan.rebase {
        quietly(MergeActionView::Rebase { target_branch: found.target }, said(found.rebased))
    } else {
        quietly(MergeActionView::IsRebasedOnto { target_branch: found.target }, AnswerView::Yes)
    };
    let rebased = Progress { rebased: plan.rebase && found.rebased, ..squashed };
    let verify = progress.verify;
    let gate = point(plan, place, found, rebased, None, plan.gating(verify));
    lemma_one(before, rebase);
    assert(before.step(rebase.answer).to == MergeWayView::Next(gate));
    lemma_joined(start, squashes, before, seq![rebase], MergeWayView::Next(gate));
    let hooks = quietly(
        MergeActionView::RunPreMergeHooks { variables: found.of_the_target() },
        AnswerView::Yes,
    );
    let landing = MergeWayView::Next(point(plan, place, found, rebased, None, plan.landing()));
    if verify {
        lemma_one(gate, hooks);
        lemma_joined(start, squashes + seq![rebase], gate, seq![hooks], landing);
    } else {
        assert(squashes + seq![rebase] =~= preparation(plan, found));
    }
}

proof fn lemma_landing(plan: MergePlan, place: Place, found: Findings)
    requires
        found.sound(),
    ensures
        follows(
            point(plan, place, found, prepared(plan, found), None, plan.landing()),
            landing(plan, place, found),
            MergeWayView::Next(
                point(
                    plan,
                    place,
                    found,
                    prepared(plan, found),
                    None,
                    if found.target_worktree is Some {
                        MergePhase::ReadCommit
                    } else {
                        MergePhase::FindHome
                    },
                ),
            ),
        ),
{
    let done = prepared(plan, found);
    let start = point(plan, place, found, done, None, plan.landing());
    let exchange = landing(plan, place, found)[0];
    lemma_one(start, exchange);
    if plan.push_to_origin {
        let pr_number = found.pr_number;
        let telling = point(plan, place, found, done, None, MergePhase::Summarize { pr_number });
        assert(start.step(exchange.answer).to == MergeWayView::Next(telling));
        let summary = landing(plan, place, found)[1];
        lemma_one(telling, summary);
        let way = telling.step(summary.answer).to;
        lemma_joined(start, seq![exchange], telling, seq![summary], way);
        if found.target_worktree is Some {
            let syncing = point(plan, place, found, done, None, MergePhase::Resync);
            let sync = landing(plan, place, found)[2];
            lemma_one(syncing, sync);
            lemma_joined(
                start,
                seq![exchange] + seq![summary],
                syncing,
                seq![sync],
                syncing.step(sync.answer).to,
            );
            assert(seq![exchange] + seq![summary] + seq![sync] =~= landing(plan, place, found));
        } else {
            assert(seq![exchange] + seq![summary] =~= landing(plan, place, found));
        }
    } else {
        assert(seq![exchange] =~= landing(plan, place, found));
    }
}

/// The end of a merge whose worktree has gone or has stayed.
spec fn ended(plan: MergePlan, place: Place, found: Findings) -> MergeWayView {
    MergeWayView::Done(
        Ok(
            EndView::Merged(
                ReportView {
                    json: plan.json,
                    branch: place.branch,
                    target: found.target,
                    committed: plan.commit && !plan.squash && found.dirty_for_commit,
                    squashed: plan.squash && found.squashed,
                    rebased: plan.rebase && found.rebased,
                    removed: goes(plan, place, found),
                },
            ),
        ),
    )
}

/// Where the merge stands once the worktree has gone or has stayed.
spec fn finishing(plan: MergePlan, place: Place, found: Findings) -> MergeWayView {
    if plan.verify && found.approved {
        MergeWayView::Next(
            point(
                plan,
                place,
                found,
                Progress { removed: goes(plan, place, found), ..prepared(plan, found) },
                found.commit_id(),
                MergePhase::PostMerge,
            ),
        )
    } else {
        ended(plan, place, found)
    }
}

proof fn lemma_arrival(plan: MergePlan, place: Place, found: Findings)
    requires
        found.sound(),
    ensures
        follows(
            point(
                plan,
                place,
                found,
                prepared(plan, found),
                None,
                if found.target_worktree is Some {
                    MergePhase::ReadCommit
                } else {
                    MergePhase::FindHome
                },
            ),
            arrival(plan, place, found),
            if plan.remove && place.branch != found.target {
                MergeWayView::Next(
                    point(
                        plan,
                        place,
                        found,
                        prepared(plan, found),
                        found.commit_id(),
                        MergePhase::CheckPrimary,
                    ),
                )
            } else {
                finishing(plan, place, found)
            },
        ),
{
    let done = prepared(plan, found);
    let reading = point(plan, place, found, done, None, MergePhase::ReadCommit);
    let read = arrival(plan, place, found).last();
    lemma_one(reading, read);
    if found.target_worktree is None {
        let start = point(plan, place, found, done, None, MergePhase::FindHome);
        let home = quietly(MergeActionView::FindHome, AnswerView::Yes);
        lemma_one(start, home);
        lemma_joined(start, seq![home], reading, seq![read], reading.step(read.answer).to);
        assert(seq![home] + seq![read] =~= arrival(plan, place, found));
    } else {
        assert(seq![read] =~= arrival(plan, place, found));
    }
}

proof fn lemma_removal(plan: MergePlan, place: Place, found: Findings)
    requires
        found.sound(),
        plan.remove && place.branch != found.target,
    ensures
        follows(
            point(
                plan,
                place,
                found,
                prepared(plan, found),
                found.commit_id(),
                MergePhase::CheckPrimary,
            ),
            removal(plan, place, found),
            finishing(plan, place, found),
        ),
{
    let done = prepared(plan, found);
    let id = found.commit_id();
    let start = point(plan, place, found, done, id, MergePhase::CheckPrimary);
    let primary = removal(plan, place, found)[0];
    lemma_one(start, primary);
    if found.primary {
        assert(seq![primary] =~= removal(plan, place, found));
    } else {
        let checking = point(plan, place, found, done, id, MergePhase::CheckNotDefault);
        let default = removal(plan, place, found)[1];
        lemma_one(checking, default);
        lemma_joined(
            start,
            seq![primary],
            checking,
            seq![default],
            checking.step(default.answer).to,
        );
        let cleaning = point(plan, place, found, done, id, MergePhase::EnsureClean);
        let clean = removal(plan, place, found)[2];
        lemma_one(cleaning, clean);
        lemma_joined(
            start,
            seq![primary] + seq![default],
            cleaning,
            seq![clean],
            cleaning.step(clean.answer).to,
        );
        let removing = point(plan, place, found, done, id, MergePhase::Remove);
        let remove = removal(plan, place, found)[3];
        lemma_one(removing, remove);
        lemma_joined(
            start,
            seq![primary] + seq![default] + seq![clean],
            removing,
            seq![remove],
            removing.step(remove.answer).to,
        );
        assert(seq![primary] + seq![default] + seq![clean] + seq![remove] =~= removal(
            plan,
            place,
            found,
        ));
    }
}

proof fn lemma_end(plan: MergePlan, place: Place, found: Findings)
    requires
        found.sound(),
    ensures
        follows(
            point(
                plan,
                place,
                found,
                prepared(plan, found),
                None,
                if found.target_worktree is Some {
                    MergePhase::ReadCommit
                } else {
                    MergePhase::FindHome
                },
            ),
            arrival(plan, place, found) + removal(plan, place, found) + closing(
                plan,
                place,
                found,
            ),
            ended(plan, place, found),
        ),
{
    let start = point(
        plan,
        place,
        found,
        prepared(plan, found),
        None,
        if found.target_worktree is Some {
            MergePhase::ReadCommit
        } else {
            MergePhase::FindHome
        },
    );
    lemma_arrival(plan, place, found);
    let first = arrival(plan, place, found);
    let second = removal(plan, place, found);
    let third = closing(plan, place, found);
    let way = finishing(plan, place, found);
    if plan.remove && place.branch != found.target {
        lemma_removal(plan, place, found);
        let between = point(
            plan,
            place,
            found,
            prepared(plan, found),
            found.commit_id(),
            MergePhase::CheckPrimary,
        );
        lemma_joined(start, first, between, second, way);
    } else {
        assert(first + second =~= first);
    }
    if plan.verify && found.approved {
        let last = way->Next_0;
        let hooks = third[0];
        assert(last.action()->RunPostMergeHooks_variables
            =~= hooks.ask->RunPostMergeHooks_variables);
        lemma_one(last, hooks);
        assert(third =~= seq![hooks]);
        lemma_joined(start, first + second, last, third, ended(plan, place, found));
    } else {
        assert(first + second + third =~= first + second);
    }
}

/// Three courses after a fourth, in either grouping.
proof fn lemma_regrouped(a: Seq<Exchange>, b: Seq<Exchange>, c: Seq<Exchange>, d: Seq<Exchange>)
    ensures
        a + (b + c + d) == a + b + c + d,
{
    assert(a + (b + c + d) =~= a + b + c + d);
}

/// Up to the commit.
proof fn lemma_beginning(plan: MergePlan, place: Place, found: Findings)
    ensures
        follows(
            at_the_start(plan, place),
            lookup(plan, place, found) + approval(plan, place, found) + commit(plan, found),
            MergeWayView::Next(
                point(
                    plan,
                    place,
                    found,
                    Progress {
                        committed: plan.commit && !plan.squash && found.dirty_for_commit,
                        ..nothing_done(plan.verify && found.approved)
                    },
                    None,
                    plan.guarding(),
                ),
            ),
        ),
{
    let start = at_the_start(plan, place);
    let begun = nothing_done(plan.verify);
    let known = nothing_done(plan.verify && found.approved);
    let committed = Progress {
        committed: plan.commit && !plan.squash && found.dirty_for_commit,
        ..known
    };
    let approving = if found.configured {
        MergePhase::CheckDirtyForHooks
    } else {
        MergePhase::Approve { changes: None }
    };
    lemma_lookup(plan, place, found);
    lemma_approval(plan, place, found);
    lemma_commit(plan, place, found);
    let a = point(plan, place, found, begun, None, approving);
    let b = point(plan, place, found, known, None, plan.committing());
    let c = point(plan, place, found, committed, None, plan.guarding());
    let first = lookup(plan, place, found);
    let second = approval(plan, place, found);
    lemma_joined(start, first, a, second, MergeWayView::Next(b));
    lemma_joined(start, first + second, b, commit(plan, found), MergeWayView::Next(c));
}

/// From there to the landing.
proof fn lemma_middle(plan: MergePlan, place: Place, found: Findings)
    requires
        found.sound(),
    ensures
        follows(
            point(
                plan,
                place,
                found,
                Progress {
                    committed: plan.commit && !plan.squash && found.dirty_for_commit,
                    ..nothing_done(plan.verify && found.approved)
                },
                None,
                plan.guarding(),
            ),
            securing(plan, place, found) + preparation(plan, found) + landing(plan, place, found),
            MergeWayView::Next(
                point(
                    plan,
                    place,
                    found,
                    prepared(plan, found),
                    None,
                    if found.target_worktree is Some {
                        MergePhase::ReadCommit
                    } else {
                        MergePhase::FindHome
                    },
                ),
            ),
        ),
{
    let committed = Progress {
        committed: plan.commit && !plan.squash && found.dirty_for_commit,
        ..nothing_done(plan.verify && found.approved)
    };
    lemma_securing(plan, place, found, committed);
    lemma_preparation(plan, place, found, committed);
    lemma_landing(plan, place, found);
    let c = point(plan, place, found, committed, None, plan.guarding());
    let d = point(plan, place, found, committed, None, plan.squashing());
    let e = point(plan, place, found, prepared(plan, found), None, plan.landing());
    let f = point(
        plan,
        place,
        found,
        prepared(plan, found),
        None,
        if found.target_worktree is Some {
            MergePhase::ReadCommit
        } else {
            MergePhase::FindHome
        },
    );
    let first = securing(plan, place, found);
    let second = preparation(plan, found);
    lemma_joined(c, first, d, second, MergeWayView::Next(e));
    lemma_joined(c, first + second, e, landing(plan, place, found), MergeWayView::Next(f));
}

/// A merge in which nothing fails asks for these things and no others, in this
/// order: the target, the approval of the project's commands, the commit, the
/// guard of the remote branch, the squash, the rebase onto the target, the
/// pre-merge hooks, the landing on the target, the removal of the worktree and
/// the post-merge hooks. Each is asked for if the plan asks for it, and names
/// the branch that was given and the target that was found. The report says
/// what was done.
pub proof fn a_merge_takes_its_course(plan: MergePlan, place: Place, found: Findings)
    requires
        plan.squash ==> plan.commit,
        found.sound(),
    ensures
        follows(
            at_the_start(plan, place),
            whole(plan, place, found),
            MergeWayView::Done(
                Ok(
                    EndView::Merged(
                        ReportView {
                            json: plan.json,
                            branch: place.branch,
                            target: found.target,
                            committed: plan.commit && !plan.squash && found.dirty_for_commit,
                            squashed: plan.squash && found.squashed,
                            rebased: plan.rebase && found.rebased,
                            removed: plan.remove && place.branch != found.target
                                && !found.primary,
                        },
                    ),
                ),
            ),
        ),
{
    let start = at_the_start(plan, place);
    let committed = Progress {
        committed: plan.commit && !plan.squash && found.dirty_for_commit,
        ..nothing_done(plan.verify && found.approved)
    };
    let c = point(plan, place, found, committed, None, plan.guarding());
    let f = point(
        plan,
        place,
        found,
        prepared(plan, found),
        None,
        if found.target_worktree is Some {
            MergePhase::ReadCommit
        } else {
            MergePhase::FindHome
        },
    );
    let beginning = lookup(plan, place, found) + approval(plan, place, found) + commit(plan, found);
    let securing = securing(plan, place, found);
    let preparation = preparation(plan, found);
    let landing = landing(plan, place, found);
    let arrival = arrival(plan, place, found);
    let removal = removal(plan, place, found);
    let closing = closing(plan, place, found);
    lemma_beginning(plan, place, found);
    lemma_middle(plan, place, found);
    lemma_end(plan, place, found);
    let middle = securing + preparation + landing;
    lemma_joined(start, beginning, c, middle, MergeWayView::Next(f));
    lemma_joined(
        start,
        beginning + middle,
        f,
        arrival + removal + closing,
        ended(plan, place, found),
    );
    lemma_regrouped(beginning, securing, preparation, landing);
    lemma_regrouped(beginning + middle, arrival, removal, closing);
}

} // verus!
