//! The course of a reconciliation in which no command fails: which commands are
//! run, in which order and with which arguments, and what it comes to.

use vstd::prelude::*;
use crate::command::{CommandView, Program, ReplyView};
use crate::fault::{FaultView, plain};
use crate::pull_request::{
    abort_text, closing_text, created_pr, missing_pr_text, opening_text, supersession_text,
};
use crate::reconcile::{
    Landing, OutcomeView, Phase, RemoteDivergenceStrategy, RunView, StepView, exhausted_text,
    unreconciled,
};
use crate::remote_state::{ClassifyPhase, RemoteState};
use crate::text::{NumberError, decimal, number, occurs_in, trimmed};

verus! {

/// A command, and what it came to.
#[verifier::ext_equal]
pub struct Told {
    pub command: CommandView,
    pub reply: ReplyView,
}

/// A `git` command that printed something.
pub open spec fn by_git(args: Seq<Seq<char>>, output: Seq<char>) -> Told {
    Told {
        command: CommandView { program: Program::Git, args },
        reply: ReplyView::Output(output),
    }
}

/// A `gh` command that printed something.
pub open spec fn by_gh(args: Seq<Seq<char>>, output: Seq<char>) -> Told {
    Told { command: CommandView { program: Program::Gh, args }, reply: ReplyView::Output(output) }
}

/// Whether a reconciliation runs these commands in this order and, told what
/// they came to, comes to this end.
pub open spec fn follows(run: RunView, course: Seq<Told>, end: StepView) -> bool
    decreases course.len(),
{
    if course.len() == 0 {
        end == StepView::Next(run)
    } else {
        &&& run.command() == course.first().command
        &&& match run.step(course.first().reply) {
            StepView::Next(next) => follows(next, course.drop_first(), end),
            StepView::Done(result) => course.len() == 1 && end == StepView::Done(result),
        }
    }
}

/// What a reconciliation is asked for.
#[verifier::ext_equal]
pub struct Request {
    pub branch: Seq<char>,
    pub target: Seq<char>,
    pub strategy: RemoteDivergenceStrategy,
    pub auto_open_pr_if_missing: bool,
    pub draft: bool,
}

impl Request {
    /// The reconciliation at its start.
    pub open spec fn begun(self) -> RunView {
        unreconciled(
            self.branch,
            self.target,
            self.strategy,
            self.auto_open_pr_if_missing,
            self.draft,
        )
    }
}

/// How the remote branch is found, and what the commands print that tell it.
#[verifier::ext_equal]
pub enum Standing {
    /// The remote has no such branch.
    Absent { listing: Seq<char> },
    /// The remote branch and local HEAD are the same commit.
    Same { listing: Seq<char>, fetched: Seq<char>, local: Seq<char>, remote: Seq<char> },
    /// They are not. The remote has `behind` commits that local HEAD lacks, and
    /// local HEAD `ahead` commits that the remote lacks.
    Apart {
        listing: Seq<char>,
        fetched: Seq<char>,
        local: Seq<char>,
        remote: Seq<char>,
        behind_shown: Seq<char>,
        ahead_shown: Seq<char>,
        behind: u32,
        ahead: u32,
    },
}

impl Standing {
    /// Whether the commands tell what they are said to tell.
    pub open spec fn sound(self) -> bool {
        match self {
            Standing::Absent { listing } => trimmed(listing).len() == 0,
            Standing::Same { listing, local, remote, .. } => trimmed(listing).len() > 0 && trimmed(
                local,
            ) == trimmed(remote),
            Standing::Apart {
                listing,
                local,
                remote,
                behind_shown,
                ahead_shown,
                behind,
                ahead,
                ..
            } => {
                &&& trimmed(listing).len() > 0
                &&& trimmed(local) != trimmed(remote)
                &&& number(trimmed(behind_shown)) == Ok::<u32, NumberError>(behind)
                &&& number(trimmed(ahead_shown)) == Ok::<u32, NumberError>(ahead)
            },
        }
    }

    /// Whether each side has commits that the other lacks.
    pub open spec fn collides(self) -> bool {
        match self {
            Standing::Apart { behind, ahead, .. } => behind > 0 && ahead > 0,
            _ => false,
        }
    }

    /// How a merge from here is reported, where the branch itself is merged.
    pub open spec fn reported(self, pr_number: u32) -> OutcomeView {
        match self {
            Standing::Absent { .. } => OutcomeView::FirstPush { pr_number },
            Standing::Same { .. } => OutcomeView::AlreadyPushed { pr_number },
            Standing::Apart { behind, ahead, .. } => if behind == 0 {
                OutcomeView::FastForwarded { pr_number }
            } else if ahead == 0 {
                OutcomeView::RebasedAndPushed { pr_number }
            } else {
                OutcomeView::RemoteSquashed { pr_number }
            },
        }
    }
}

/// How the remote branch is found out about.
pub open spec fn questions(branch: Seq<char>, standing: Standing) -> Seq<Told> {
    let mirror = "origin/"@ + branch;
    match standing {
        Standing::Absent { listing } => seq![
            by_git(seq!["ls-remote"@, "--heads"@, "origin"@, branch], listing),
        ],
        Standing::Same { listing, fetched, local, remote } => seq![
            by_git(seq!["ls-remote"@, "--heads"@, "origin"@, branch], listing),
            by_git(seq!["fetch"@, "origin"@, branch], fetched),
            by_git(seq!["rev-parse"@, "HEAD"@], local),
            by_git(seq!["rev-parse"@, mirror], remote),
        ],
        Standing::Apart {
            listing,
            fetched,
            local,
            remote,
            behind_shown,
            ahead_shown,
            ..
        } => seq![
            by_git(seq!["ls-remote"@, "--heads"@, "origin"@, branch], listing),
            by_git(seq!["fetch"@, "origin"@, branch], fetched),
            by_git(seq!["rev-parse"@, "HEAD"@], local),
            by_git(seq!["rev-parse"@, mirror], remote),
            by_git(seq!["rev-list"@, "--count"@, "HEAD.."@ + mirror], behind_shown),
            by_git(seq!["rev-list"@, "--count"@, mirror + "..HEAD"@], ahead_shown),
        ],
    }
}

/// How the remote branch is brought up to local HEAD, where that takes no force.
pub open spec fn publishing(
    branch: Seq<char>,
    standing: Standing,
    rebased: Seq<char>,
    pushed: Seq<char>,
) -> Seq<Told> {
    match standing {
        Standing::Absent { .. } => seq![
            by_git(seq!["push"@, "-u"@, "origin"@, branch], pushed),
        ],
        Standing::Same { .. } => Seq::empty(),
        Standing::Apart { behind, ahead, .. } => if behind == 0 {
            seq![by_git(seq!["push"@, "origin"@, branch], pushed)]
        } else if ahead == 0 {
            seq![
                by_git(seq!["rebase"@, "origin/"@ + branch], rebased),
                by_git(seq!["push"@, "origin"@, branch], pushed),
            ]
        } else {
            Seq::empty()
        },
    }
}

/// The look for the open PR of a branch.
pub open spec fn look(branch: Seq<char>, listing: Seq<char>) -> Told {
    by_gh(
        seq![
            "pr"@,
            "list"@,
            "--head"@,
            branch,
            "--state"@,
            "open"@,
            "--json"@,
            "number"@,
            "--jq"@,
            ".[0].number"@,
        ],
        listing,
    )
}

/// The opening of a PR, with the subject of HEAD as its title.
pub open spec fn opening(
    draft: bool,
    base: Seq<char>,
    head: Seq<char>,
    subject: Seq<char>,
    body: Seq<char>,
    created: Seq<char>,
) -> Seq<Told> {
    seq![
        by_git(seq!["log"@, "-1"@, "--format=%s"@, "HEAD"@], subject),
        by_gh(
            seq!["pr"@, "create"@] + (if draft {
                seq!["--draft"@]
            } else {
                Seq::empty()
            }) + seq![
                "--base"@,
                base,
                "--head"@,
                head,
                "--title"@,
                trimmed(subject),
                "--body"@,
                body,
            ],
            created,
        ),
    ]
}

/// Whether a deletion leaves the branch gone: it succeeds, or GitHub complains
/// that there is nothing to delete.
pub open spec fn leaves_it_gone(deleted: ReplyView) -> bool {
    match deleted {
        ReplyView::Output(_) => true,
        ReplyView::Failure { complaint, .. } => occurs_in("422"@, complaint) || occurs_in(
            "Reference does not exist"@,
            complaint,
        ),
    }
}

/// The squash-merge of a PR, the deletion of its branch, and the move of the
/// local target to where the remote's is.
pub open spec fn landing(
    head: Seq<char>,
    target: Seq<char>,
    pr: u32,
    merged: Seq<char>,
    deleted: ReplyView,
    fetched: Seq<char>,
    advanced: Seq<char>,
) -> Seq<Told> {
    seq![
        by_gh(
            seq![
                "api"@,
                "-X"@,
                "PUT"@,
                "repos/:owner/:repo/pulls/"@ + decimal(pr as nat) + "/merge"@,
                "-f"@,
                "merge_method=squash"@,
            ],
            merged,
        ),
        Told {
            command: CommandView {
                program: Program::Gh,
                args: seq!["api"@, "-X"@, "DELETE"@, "repos/:owner/:repo/git/refs/heads/"@ + head],
            },
            reply: deleted,
        },
        by_git(seq!["fetch"@, "origin"@, target], fetched),
        by_git(
            seq!["update-ref"@, "refs/heads/"@ + target, "refs/remotes/origin/"@ + target],
            advanced,
        ),
    ]
}

/// One course after another is a course.
proof fn lemma_joined(
    run: RunView,
    first: Seq<Told>,
    between: RunView,
    second: Seq<Told>,
    end: StepView,
)
    requires
        follows(run, first, StepView::Next(between)),
        follows(between, second, end),
    ensures
        follows(run, first + second, end),
    decreases first.len(),
{
    if first.len() == 0 {
        assert(first + second =~= second);
    } else {
        assert((first + second).first() == first.first());
        assert((first + second).drop_first() =~= first.drop_first() + second);
        if let StepView::Next(next) = run.step(first.first().reply) {
            lemma_joined(next, first.drop_first(), between, second, end);
        }
    }
}

/// A single command is a course.
proof fn lemma_one(run: RunView, told: Told)
    requires
        run.command() == told.command,
    ensures
        follows(run, seq![told], run.step(told.reply)),
{
    reveal_with_fuel(follows, 2);
    assert(seq![told].drop_first() =~= Seq::<Told>::empty());
}

/// One more command.
proof fn lemma_then(run: RunView, first: Seq<Told>, between: RunView, told: Told)
    requires
        follows(run, first, StepView::Next(between)),
        between.command() == told.command,
    ensures
        follows(run, first.push(told), between.step(told.reply)),
{
    lemma_one(between, told);
    lemma_joined(run, first, between, seq![told], between.step(told.reply));
    assert(first + seq![told] =~= first.push(told));
}

/// The head that is known once the remote is found out about.
spec fn head_known(standing: Standing) -> Seq<char> {
    match standing {
        Standing::Absent { .. } => Seq::empty(),
        Standing::Same { local, .. } => trimmed(local),
        Standing::Apart { local, .. } => trimmed(local),
    }
}

/// The reconciliation at a point.
spec fn point(request: Request, head: Seq<char>, title: Seq<char>, phase: Phase) -> RunView {
    RunView { local_head: head, title, phase, ..request.begun() }
}

/// The state that is found.
spec fn state(standing: Standing) -> RemoteState {
    match standing {
        Standing::Absent { .. } => RemoteState::Absent,
        Standing::Same { .. } => RemoteState::InSync,
        Standing::Apart { behind, ahead, .. } => if ahead == 0 && behind > 0 {
            RemoteState::Ahead
        } else {
            RemoteState::Diverges { behind, ahead }
        },
    }
}

proof fn lemma_questions(request: Request, standing: Standing)
    requires
        standing.sound(),
    ensures
        follows(
            request.begun(),
            questions(request.branch, standing),
            point(request, head_known(standing), Seq::empty(), request.begun().phase).dispatch(
                state(standing),
            ),
        ),
{
    let start = request.begun();
    let q = questions(request.branch, standing);
    let blank = Seq::<char>::empty();
    lemma_one(start, q[0]);
    if standing is Absent {
        assert(q =~= seq![q[0]]);
        assert(start =~= point(request, blank, blank, start.phase));
    } else {
        let head = head_known(standing);
        let at = |head: Seq<char>, phase: ClassifyPhase|
            point(request, head, blank, Phase::Classify(phase));
        let fetching = at(blank, ClassifyPhase::Fetch);
        lemma_then(start, seq![q[0]], fetching, q[1]);
        let local = at(blank, ClassifyPhase::LocalHead);
        lemma_then(start, seq![q[0]].push(q[1]), local, q[2]);
        let remote = at(head, ClassifyPhase::RemoteHead);
        lemma_then(start, seq![q[0]].push(q[1]).push(q[2]), remote, q[3]);
        let four = seq![q[0]].push(q[1]).push(q[2]).push(q[3]);
        if standing is Same {
            assert(four =~= q);
        } else {
            let counting = at(head, ClassifyPhase::CountBehind);
            lemma_then(start, four, counting, q[4]);
            let behind = standing->behind;
            let last = at(head, ClassifyPhase::CountAhead { behind });
            lemma_then(start, four.push(q[4]), last, q[5]);
            assert(four.push(q[4]).push(q[5]) =~= q);
        }
    }
}

proof fn lemma_publishing(
    request: Request,
    standing: Standing,
    rebased: Seq<char>,
    pushed: Seq<char>,
)
    requires
        standing.sound(),
        standing.collides() ==> request.strategy == RemoteDivergenceStrategy::RemoteSquash,
    ensures
        follows(
            request.begun(),
            questions(request.branch, standing) + publishing(
                request.branch,
                standing,
                rebased,
                pushed,
            ),
            StepView::Next(
                point(
                    request,
                    head_known(standing),
                    Seq::empty(),
                    Phase::FindPr(state(standing)),
                ),
            ),
        ),
{
    lemma_questions(request, standing);
    let start = request.begun();
    let head = head_known(standing);
    let blank = Seq::<char>::empty();
    let q = questions(request.branch, standing);
    let p = publishing(request.branch, standing, rebased, pushed);
    let found = point(request, head, blank, start.phase).dispatch(state(standing))->Next_0;
    if p.len() == 0 {
        assert(q + p =~= q);
    } else if p.len() == 1 {
        lemma_then(start, q, found, p[0]);
        assert(q.push(p[0]) =~= q + p);
    } else {
        lemma_then(start, q, found, p[0]);
        let pushing = point(request, head, blank, Phase::PushRebased);
        lemma_then(start, q.push(p[0]), pushing, p[1]);
        assert(q.push(p[0]).push(p[1]) =~= q + p);
    }
}

proof fn lemma_landing(
    request: Request,
    head: Seq<char>,
    title: Seq<char>,
    lands: Landing,
    pr: u32,
    merged: Seq<char>,
    deleted: ReplyView,
    fetched: Seq<char>,
    advanced: Seq<char>,
)
    requires
        leaves_it_gone(deleted),
    ensures
        follows(
            point(request, head, title, Phase::Merge { landing: lands, pr }),
            landing(
                lands.head(request.branch),
                request.target,
                pr,
                merged,
                deleted,
                fetched,
                advanced,
            ),
            StepView::Done(Ok(lands.outcome(request.branch, pr))),
        ),
{
    let l = landing(
        lands.head(request.branch),
        request.target,
        pr,
        merged,
        deleted,
        fetched,
        advanced,
    );
    let start = point(request, head, title, Phase::Merge { landing: lands, pr });
    lemma_one(start, l[0]);
    let deleting = point(request, head, title, Phase::DeleteBranch { landing: lands, pr });
    lemma_then(start, seq![l[0]], deleting, l[1]);
    let fetching = point(request, head, title, Phase::FetchTarget { landing: lands, pr });
    lemma_then(start, seq![l[0]].push(l[1]), fetching, l[2]);
    let advancing = point(request, head, title, Phase::AdvanceTarget { landing: lands, pr });
    lemma_then(start, seq![l[0]].push(l[1]).push(l[2]), advancing, l[3]);
    assert(seq![l[0]].push(l[1]).push(l[2]).push(l[3]) =~= l);
}

/// Where the branch itself is merged and has an open PR: the remote is found
/// out about, the branch is published where that takes no force, and the PR that
/// the listing names is squash-merged into the target.
pub proof fn a_branch_lands_through_its_open_pr(
    request: Request,
    standing: Standing,
    rebased: Seq<char>,
    pushed: Seq<char>,
    listing: Seq<char>,
    pr: u32,
    merged: Seq<char>,
    deleted: ReplyView,
    fetched: Seq<char>,
    advanced: Seq<char>,
)
    requires
        standing.sound(),
        standing.collides() ==> request.strategy == RemoteDivergenceStrategy::RemoteSquash,
        trimmed(listing).len() > 0,
        number(trimmed(listing)) == Ok::<u32, NumberError>(pr),
        leaves_it_gone(deleted),
    ensures
        follows(
            request.begun(),
            questions(request.branch, standing) + publishing(
                request.branch,
                standing,
                rebased,
                pushed,
            ) + seq![look(request.branch, listing)] + landing(
                request.branch,
                request.target,
                pr,
                merged,
                deleted,
                fetched,
                advanced,
            ),
            StepView::Done(Ok(standing.reported(pr))),
        ),
{
    let head = head_known(standing);
    let blank = Seq::<char>::empty();
    let lands = Landing::Feature(state(standing));
    lemma_publishing(request, standing, rebased, pushed);
    lemma_landing(request, head, blank, lands, pr, merged, deleted, fetched, advanced);
    let first = questions(request.branch, standing) + publishing(
        request.branch,
        standing,
        rebased,
        pushed,
    );
    let looking = point(request, head, blank, Phase::FindPr(state(standing)));
    let told = look(request.branch, listing);
    lemma_then(request.begun(), first, looking, told);
    assert(first.push(told) =~= first + seq![told]);
    lemma_joined(
        request.begun(),
        first + seq![told],
        point(request, head, blank, Phase::Merge { landing: lands, pr }),
        landing(request.branch, request.target, pr, merged, deleted, fetched, advanced),
        StepView::Done(Ok(lands.outcome(request.branch, pr))),
    );
}

/// Where the branch itself is merged, has no open PR and may get one: a PR is
/// opened for the branch on the target, and that PR is squash-merged, unless it
/// is a draft, which ends the matter.
pub proof fn a_branch_lands_through_a_pr_of_its_own(
    request: Request,
    standing: Standing,
    rebased: Seq<char>,
    pushed: Seq<char>,
    listing: Seq<char>,
    subject: Seq<char>,
    created: Seq<char>,
    pr: u32,
    merged: Seq<char>,
    deleted: ReplyView,
    fetched: Seq<char>,
    advanced: Seq<char>,
)
    requires
        standing.sound(),
        standing.collides() ==> request.strategy == RemoteDivergenceStrategy::RemoteSquash,
        request.auto_open_pr_if_missing,
        trimmed(listing).len() == 0,
        created_pr(created) == Ok::<u32, FaultView>(pr),
        leaves_it_gone(deleted),
    ensures
        ({
            let opened = questions(request.branch, standing) + publishing(
                request.branch,
                standing,
                rebased,
                pushed,
            ) + seq![look(request.branch, listing)] + opening(
                request.draft,
                request.target,
                request.branch,
                subject,
                opening_text(request.branch, request.target),
                created,
            );
            &&& request.draft ==> follows(
                request.begun(),
                opened,
                StepView::Done(Ok(OutcomeView::OpenedDraftPr { pr_number: pr })),
            )
            &&& !request.draft ==> follows(
                request.begun(),
                opened + landing(
                    request.branch,
                    request.target,
                    pr,
                    merged,
                    deleted,
                    fetched,
                    advanced,
                ),
                StepView::Done(Ok(standing.reported(pr))),
            )
        }),
{
    let head = head_known(standing);
    let blank = Seq::<char>::empty();
    let title = trimmed(subject);
    let lands = Landing::Feature(state(standing));
    lemma_publishing(request, standing, rebased, pushed);
    let first = questions(request.branch, standing) + publishing(
        request.branch,
        standing,
        rebased,
        pushed,
    );
    let looking = point(request, head, blank, Phase::FindPr(state(standing)));
    let told = look(request.branch, listing);
    lemma_then(request.begun(), first, looking, told);
    let o = opening(
        request.draft,
        request.target,
        request.branch,
        subject,
        opening_text(request.branch, request.target),
        created,
    );
    let reading = point(request, head, blank, Phase::ReadTitle(state(standing)));
    lemma_then(request.begun(), first.push(told), reading, o[0]);
    let opens = point(request, head, title, Phase::OpenPr(state(standing)));
    assert(opens.command().args =~= o[1].command.args);
    lemma_then(request.begun(), first.push(told).push(o[0]), opens, o[1]);
    assert(first.push(told).push(o[0]).push(o[1]) =~= first + seq![told] + o);
    if !request.draft {
        lemma_landing(request, head, title, lands, pr, merged, deleted, fetched, advanced);
        lemma_joined(
            request.begun(),
            first + seq![told] + o,
            point(request, head, title, Phase::Merge { landing: lands, pr }),
            landing(request.branch, request.target, pr, merged, deleted, fetched, advanced),
            StepView::Done(Ok(lands.outcome(request.branch, pr))),
        );
    }
}

/// Where the branch itself is to be merged, has no open PR and may not get one:
/// the reconciliation ends with the error that says so, whatever the remote was
/// found to be.
pub proof fn a_branch_without_a_pr_is_refused(
    request: Request,
    standing: Standing,
    rebased: Seq<char>,
    pushed: Seq<char>,
    listing: Seq<char>,
)
    requires
        standing.sound(),
        standing.collides() ==> request.strategy == RemoteDivergenceStrategy::RemoteSquash,
        !request.auto_open_pr_if_missing,
        trimmed(listing).len() == 0,
    ensures
        follows(
            request.begun(),
            questions(request.branch, standing) + publishing(
                request.branch,
                standing,
                rebased,
                pushed,
            ) + seq![look(request.branch, listing)],
            StepView::Done(Err(plain(missing_pr_text(request.branch, request.target)))),
        ),
{
    lemma_publishing(request, standing, rebased, pushed);
    let first = questions(request.branch, standing) + publishing(
        request.branch,
        standing,
        rebased,
        pushed,
    );
    let looking = point(
        request,
        head_known(standing),
        Seq::empty(),
        Phase::FindPr(state(standing)),
    );
    let told = look(request.branch, listing);
    lemma_then(request.begun(), first, looking, told);
    assert(first.push(told) =~= first + seq![told]);
}

/// Where each side has commits that the other lacks and the strategy is to
/// abort, the reconciliation ends once that is found out.
pub proof fn a_collision_can_abort(request: Request, standing: Standing)
    requires
        standing.sound(),
        standing.collides(),
        request.strategy == RemoteDivergenceStrategy::Abort,
    ensures
        follows(
            request.begun(),
            questions(request.branch, standing),
            StepView::Done(Err(plain(abort_text(request.branch, request.target)))),
        ),
{
    lemma_questions(request, standing);
}

/// The name of a replacement branch.
pub open spec fn replacement(branch: Seq<char>, version: nat) -> Seq<char> {
    branch + "-v"@ + decimal(version)
}

/// Whether a version is taken: the branch exists locally, or the remote lists
/// it.
pub open spec fn is_taken(local: ReplyView, remote: ReplyView) -> bool {
    local is Output || (remote matches ReplyView::Output(listing) && trimmed(listing).len() > 0)
}

/// The probes of successive versions, each first locally and then on the
/// remote.
pub open spec fn probes(
    branch: Seq<char>,
    version: nat,
    replies: Seq<(ReplyView, ReplyView)>,
) -> Seq<Told>
    decreases replies.len(),
{
    if replies.len() == 0 {
        Seq::empty()
    } else {
        let name = replacement(branch, version);
        seq![
            Told {
                command: CommandView {
                    program: Program::Git,
                    args: seq!["show-ref"@, "--verify"@, "--quiet"@, "refs/heads/"@ + name],
                },
                reply: replies.first().0,
            },
            Told {
                command: CommandView {
                    program: Program::Git,
                    args: seq!["ls-remote"@, "--heads"@, "origin"@, name],
                },
                reply: replies.first().1,
            },
        ] + probes(branch, version + 1, replies.drop_first())
    }
}

/// Whether the last version alone is free.
pub open spec fn last_is_free(replies: Seq<(ReplyView, ReplyView)>) -> bool {
    &&& replies.len() > 0
    &&& !is_taken(replies.last().0, replies.last().1)
    &&& forall|i: int|
        0 <= i < replies.len() - 1 ==> is_taken((#[trigger] replies[i]).0, replies[i].1)
}

proof fn lemma_probes(
    request: Request,
    head: Seq<char>,
    version: u32,
    replies: Seq<(ReplyView, ReplyView)>,
)
    requires
        2 <= version,
        version + replies.len() <= 100,
        last_is_free(replies),
    ensures
        follows(
            point(request, head, Seq::empty(), Phase::ProbeLocal { version }),
            probes(request.branch, version as nat, replies),
            StepView::Next(
                point(
                    request,
                    head,
                    Seq::empty(),
                    Phase::CreateBranch { version: (version + replies.len() - 1) as u32 },
                ),
            ),
        ),
    decreases replies.len(),
{
    let blank = Seq::<char>::empty();
    let start = point(request, head, blank, Phase::ProbeLocal { version });
    let p = probes(request.branch, version as nat, replies);
    let rest = replies.drop_first();
    let later = probes(request.branch, version as nat + 1, rest);
    assert(p =~= seq![p[0], p[1]] + later);
    lemma_one(start, p[0]);
    let local_exists = replies.first().0 is Output;
    let second = point(request, head, blank, Phase::ProbeRemote { version, local_exists });
    lemma_then(start, seq![p[0]], second, p[1]);
    assert(seq![p[0]].push(p[1]) =~= seq![p[0], p[1]]);
    if replies.len() == 1 {
        assert(p =~= seq![p[0], p[1]]);
    } else {
        assert(is_taken(replies[0].0, replies[0].1));
        assert forall|i: int| 0 <= i < rest.len() - 1 implies is_taken(
            (#[trigger] rest[i]).0,
            rest[i].1,
        ) by {
            assert(rest[i] == replies[i + 1]);
        }
        let next = (version + 1) as u32;
        lemma_probes(request, head, next, rest);
        lemma_joined(
            start,
            seq![p[0], p[1]],
            point(request, head, blank, Phase::ProbeLocal { version: next }),
            later,
            StepView::Next(
                point(
                    request,
                    head,
                    blank,
                    Phase::CreateBranch { version: (next + rest.len() - 1) as u32 },
                ),
            ),
        );
    }
}

/// The replacement branch is created at HEAD and pushed, and the open PR of the
/// old branch is looked for and, where there is one, closed.
pub open spec fn replacing(
    branch: Seq<char>,
    name: Seq<char>,
    created: Seq<char>,
    pushed: Seq<char>,
    listing: Seq<char>,
    old_pr: Option<u32>,
    closed: Seq<char>,
) -> Seq<Told> {
    seq![
        by_git(seq!["branch"@, name, "HEAD"@], created),
        by_git(seq!["push"@, "-u"@, "origin"@, name], pushed),
        look(branch, listing),
    ] + match old_pr {
        Some(pr) => seq![
            by_gh(
                seq!["pr"@, "close"@, decimal(pr as nat), "--comment"@, closing_text(name)],
                closed,
            ),
        ],
        None => Seq::empty(),
    }
}

/// What a listing says of the open PR.
pub open spec fn lists(listing: Seq<char>, pr: Option<u32>) -> bool {
    match pr {
        Some(n) => trimmed(listing).len() > 0 && number(trimmed(listing)) == Ok::<
            u32,
            NumberError,
        >(n),
        None => trimmed(listing).len() == 0,
    }
}

proof fn lemma_replacing(
    request: Request,
    head: Seq<char>,
    version: u32,
    created: Seq<char>,
    pushed: Seq<char>,
    listing: Seq<char>,
    old_pr: Option<u32>,
    closed: Seq<char>,
)
    requires
        lists(listing, old_pr),
    ensures
        follows(
            point(request, head, Seq::empty(), Phase::CreateBranch { version }),
            replacing(
                request.branch,
                replacement(request.branch, version as nat),
                created,
                pushed,
                listing,
                old_pr,
                closed,
            ),
            StepView::Next(
                point(
                    request,
                    head,
                    Seq::empty(),
                    Phase::ReadNewTitle { version, closed_pr: old_pr },
                ),
            ),
        ),
{
    let blank = Seq::<char>::empty();
    let r = replacing(
        request.branch,
        replacement(request.branch, version as nat),
        created,
        pushed,
        listing,
        old_pr,
        closed,
    );
    let start = point(request, head, blank, Phase::CreateBranch { version });
    lemma_one(start, r[0]);
    let pushing = point(request, head, blank, Phase::PushBranch { version });
    lemma_then(start, seq![r[0]], pushing, r[1]);
    let looking = point(request, head, blank, Phase::FindOldPr { version });
    lemma_then(start, seq![r[0]].push(r[1]), looking, r[2]);
    let three = seq![r[0]].push(r[1]).push(r[2]);
    if let Some(pr) = old_pr {
        let closing = point(request, head, blank, Phase::CloseOldPr { version, old_pr: pr });
        lemma_then(start, three, closing, r[3]);
        assert(three.push(r[3]) =~= r);
    } else {
        assert(three =~= r);
    }
}

/// The beginning of a restack, up to where the replacement is pushed and the
/// old PR is closed.
pub open spec fn replaced(
    request: Request,
    standing: Standing,
    versions: Seq<(ReplyView, ReplyView)>,
    created: Seq<char>,
    pushed: Seq<char>,
    listing: Seq<char>,
    old_pr: Option<u32>,
    closed: Seq<char>,
) -> Seq<Told> {
    questions(request.branch, standing) + probes(request.branch, 2, versions) + replacing(
        request.branch,
        replacement(request.branch, versions.len() + 1),
        created,
        pushed,
        listing,
        old_pr,
        closed,
    )
}

proof fn lemma_replaced(
    request: Request,
    standing: Standing,
    versions: Seq<(ReplyView, ReplyView)>,
    created: Seq<char>,
    pushed: Seq<char>,
    listing: Seq<char>,
    old_pr: Option<u32>,
    closed: Seq<char>,
)
    requires
        standing.sound(),
        standing.collides(),
        request.strategy == RemoteDivergenceStrategy::Restack,
        last_is_free(versions),
        versions.len() <= 98,
        lists(listing, old_pr),
    ensures
        follows(
            request.begun(),
            replaced(request, standing, versions, created, pushed, listing, old_pr, closed),
            StepView::Next(
                point(
                    request,
                    head_known(standing),
                    Seq::empty(),
                    Phase::ReadNewTitle {
                        version: (versions.len() + 1) as u32,
                        closed_pr: old_pr,
                    },
                ),
            ),
        ),
{
    let start = request.begun();
    let head = head_known(standing);
    let blank = Seq::<char>::empty();
    let version = (versions.len() + 1) as u32;
    lemma_questions(request, standing);
    lemma_probes(request, head, 2, versions);
    lemma_replacing(request, head, version, created, pushed, listing, old_pr, closed);
    let q = questions(request.branch, standing);
    let p = probes(request.branch, 2, versions);
    let probing = point(request, head, blank, Phase::ProbeLocal { version: 2 });
    let creating = point(request, head, blank, Phase::CreateBranch { version });
    lemma_joined(start, q, probing, p, StepView::Next(creating));
    let r = replacing(
        request.branch,
        replacement(request.branch, versions.len() + 1),
        created,
        pushed,
        listing,
        old_pr,
        closed,
    );
    let reading = point(
        request,
        head,
        blank,
        Phase::ReadNewTitle { version, closed_pr: old_pr },
    );
    lemma_joined(start, q + p, creating, r, StepView::Next(reading));
}

/// The PR of a replacement is opened, after whatever came before.
proof fn lemma_reopened(
    request: Request,
    first: Seq<Told>,
    head: Seq<char>,
    version: u32,
    old_pr: Option<u32>,
    subject: Seq<char>,
    created: Seq<char>,
    pr: u32,
)
    requires
        follows(
            request.begun(),
            first,
            StepView::Next(
                point(
                    request,
                    head,
                    Seq::empty(),
                    Phase::ReadNewTitle { version, closed_pr: old_pr },
                ),
            ),
        ),
        created_pr(created) == Ok::<u32, FaultView>(pr),
    ensures
        follows(
            request.begun(),
            first + opening(
                request.draft,
                request.target,
                replacement(request.branch, version as nat),
                subject,
                supersession_text(request.branch, old_pr),
                created,
            ),
            if request.draft {
                StepView::Done(Ok(OutcomeView::OpenedDraftPr { pr_number: pr }))
            } else {
                StepView::Next(
                    point(
                        request,
                        head,
                        trimmed(subject),
                        Phase::Merge {
                            landing: Landing::Replacement { version, closed_pr: old_pr },
                            pr,
                        },
                    ),
                )
            },
        ),
{
    let start = request.begun();
    let o = opening(
        request.draft,
        request.target,
        replacement(request.branch, version as nat),
        subject,
        supersession_text(request.branch, old_pr),
        created,
    );
    let reading = point(
        request,
        head,
        Seq::empty(),
        Phase::ReadNewTitle { version, closed_pr: old_pr },
    );
    lemma_then(start, first, reading, o[0]);
    let opens = point(
        request,
        head,
        trimmed(subject),
        Phase::OpenNewPr { version, closed_pr: old_pr },
    );
    assert(opens.command().args =~= o[1].command.args);
    lemma_then(start, first.push(o[0]), opens, o[1]);
    assert(first.push(o[0]).push(o[1]) =~= first + o);
}

/// Where each side has commits that the other lacks and the strategy is to
/// restack: the first free version of the branch is created and pushed, the
/// open PR of the branch, if it has one, is closed, and a new one is opened for
/// the replacement and squash-merged, unless it is a draft.
pub proof fn a_restack_takes_its_course(
    request: Request,
    standing: Standing,
    versions: Seq<(ReplyView, ReplyView)>,
    made: Seq<char>,
    pushed: Seq<char>,
    listing: Seq<char>,
    old_pr: Option<u32>,
    closed: Seq<char>,
    subject: Seq<char>,
    created: Seq<char>,
    pr: u32,
    merged: Seq<char>,
    deleted: ReplyView,
    fetched: Seq<char>,
    advanced: Seq<char>,
)
    requires
        standing.sound(),
        standing.collides(),
        request.strategy == RemoteDivergenceStrategy::Restack,
        last_is_free(versions),
        versions.len() <= 98,
        lists(listing, old_pr),
        created_pr(created) == Ok::<u32, FaultView>(pr),
        leaves_it_gone(deleted),
    ensures
        ({
            let name = replacement(request.branch, versions.len() + 1);
            let opened = replaced(
                request,
                standing,
                versions,
                made,
                pushed,
                listing,
                old_pr,
                closed,
            ) + opening(
                request.draft,
                request.target,
                name,
                subject,
                supersession_text(request.branch, old_pr),
                created,
            );
            &&& request.draft ==> follows(
                request.begun(),
                opened,
                StepView::Done(Ok(OutcomeView::OpenedDraftPr { pr_number: pr })),
            )
            &&& !request.draft ==> follows(
                request.begun(),
                opened + landing(name, request.target, pr, merged, deleted, fetched, advanced),
                StepView::Done(
                    Ok(
                        OutcomeView::Restacked {
                            new_branch: name,
                            closed_pr: old_pr,
                            new_pr: pr,
                        },
                    ),
                ),
            )
        }),
{
    let start = request.begun();
    let head = head_known(standing);
    let title = trimmed(subject);
    let version = (versions.len() + 1) as u32;
    let name = replacement(request.branch, versions.len() + 1);
    lemma_replaced(request, standing, versions, made, pushed, listing, old_pr, closed);
    let first = replaced(request, standing, versions, made, pushed, listing, old_pr, closed);
    lemma_reopened(request, first, head, version, old_pr, subject, created, pr);
    if !request.draft {
        let lands = Landing::Replacement { version, closed_pr: old_pr };
        let o = opening(
            request.draft,
            request.target,
            name,
            subject,
            supersession_text(request.branch, old_pr),
            created,
        );
        lemma_landing(request, head, title, lands, pr, merged, deleted, fetched, advanced);
        lemma_joined(
            start,
            first + o,
            point(request, head, title, Phase::Merge { landing: lands, pr }),
            landing(name, request.target, pr, merged, deleted, fetched, advanced),
            StepView::Done(Ok(lands.outcome(request.branch, pr))),
        );
    }
}

proof fn lemma_exhausted(
    request: Request,
    head: Seq<char>,
    version: u32,
    replies: Seq<(ReplyView, ReplyView)>,
)
    requires
        2 <= version <= 99,
        version + replies.len() == 100,
        forall|i: int|
            0 <= i < replies.len() ==> is_taken((#[trigger] replies[i]).0, replies[i].1),
    ensures
        follows(
            point(request, head, Seq::empty(), Phase::ProbeLocal { version }),
            probes(request.branch, version as nat, replies),
            StepView::Done(Err(plain(exhausted_text(request.branch)))),
        ),
    decreases replies.len(),
{
    let blank = Seq::<char>::empty();
    let start = point(request, head, blank, Phase::ProbeLocal { version });
    let p = probes(request.branch, version as nat, replies);
    let rest = replies.drop_first();
    let later = probes(request.branch, version as nat + 1, rest);
    assert(p =~= seq![p[0], p[1]] + later);
    lemma_one(start, p[0]);
    let local_exists = replies.first().0 is Output;
    let second = point(request, head, blank, Phase::ProbeRemote { version, local_exists });
    lemma_then(start, seq![p[0]], second, p[1]);
    assert(seq![p[0]].push(p[1]) =~= seq![p[0], p[1]]);
    assert(is_taken(replies[0].0, replies[0].1));
    if replies.len() == 1 {
        assert(p =~= seq![p[0], p[1]]);
    } else {
        assert forall|i: int| 0 <= i < rest.len() implies is_taken(
            (#[trigger] rest[i]).0,
            rest[i].1,
        ) by {
            assert(rest[i] == replies[i + 1]);
        }
        let next = (version + 1) as u32;
        lemma_exhausted(request, head, next, rest);
        lemma_joined(
            start,
            seq![p[0], p[1]],
            point(request, head, blank, Phase::ProbeLocal { version: next }),
            later,
            StepView::Done(Err(plain(exhausted_text(request.branch)))),
        );
    }
}

/// A restack gives up where all versions from the second to the ninety-ninth
/// are taken.
pub proof fn a_restack_gives_up_in_the_end(
    request: Request,
    standing: Standing,
    versions: Seq<(ReplyView, ReplyView)>,
)
    requires
        standing.sound(),
        standing.collides(),
        request.strategy == RemoteDivergenceStrategy::Restack,
        versions.len() == 98,
        forall|i: int|
            0 <= i < versions.len() ==> is_taken((#[trigger] versions[i]).0, versions[i].1),
    ensures
        follows(
            request.begun(),
            questions(request.branch, standing) + probes(request.branch, 2, versions),
            StepView::Done(Err(plain(exhausted_text(request.branch)))),
        ),
{
    let head = head_known(standing);
    lemma_questions(request, standing);
    lemma_exhausted(request, head, 2, versions);
    lemma_joined(
        request.begun(),
        questions(request.branch, standing),
        point(request, head, Seq::empty(), Phase::ProbeLocal { version: 2 }),
        probes(request.branch, 2, versions),
        StepView::Done(Err(plain(exhausted_text(request.branch)))),
    );
}

} // verus!
