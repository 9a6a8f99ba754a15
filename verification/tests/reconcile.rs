use worktrunk::command::{gh_not_started, gh_reply, Program, Reply};
use worktrunk::fault::Fault;
use worktrunk::pull_request::{
    closing_comment, missing_pr_message, opening_body, read_created_pr, read_listed_pr,
    supersession_body,
};
use worktrunk::reconcile::{
    is_already_gone, reconcile_and_push, squash_pr_number, ReconcileOutcome, ReconcileRun, ReconcileStep,
    RemoteDivergenceStrategy,
};
use worktrunk::remote_state::RemoteState;

fn out(text: &str) -> Reply {
    Reply::Output(text.to_string())
}

fn fault(message: &str, causes: &[&str]) -> Fault {
    Fault {
        message: message.to_string(),
        causes: causes.iter().map(|c| c.to_string()).collect(),
    }
}

fn failure(message: &str) -> Reply {
    Reply::Failure { fault: fault(message, &[]), complaint: String::new() }
}

fn shown(run: &ReconcileRun) -> String {
    let command = run.command();
    let program = match command.program {
        Program::Git => "git",
        Program::Gh => "gh",
    };
    format!("{program} {}", command.args.join(" "))
}

/// Plays a script of commands and replies to the end.
fn play(
    mut run: ReconcileRun,
    script: Vec<(&str, Reply)>,
) -> Result<ReconcileOutcome, Fault> {
    let total = script.len();
    for (i, (expected, reply)) in script.into_iter().enumerate() {
        assert_eq!(shown(&run), expected);
        match run.resume(reply) {
            ReconcileStep::Next(next) => run = next,
            ReconcileStep::Done(result) => {
                assert_eq!(i + 1, total, "ended early");
                return result;
            }
        }
    }
    panic!("not over before {}", shown(&run));
}

fn start(branch: &str, strategy: RemoteDivergenceStrategy, draft: bool) -> ReconcileRun {
    reconcile_and_push(branch, "main", strategy, true, draft)
}

fn diverged<'a>() -> Vec<(&'a str, Reply)> {
    vec![
        ("git ls-remote --heads origin feat/x", out("aaa refs/heads/feat/x")),
        ("git fetch origin feat/x", out("")),
        ("git rev-parse HEAD", out("bbb\n")),
        ("git rev-parse origin/feat/x", out("aaa\n")),
        ("git rev-list --count HEAD..origin/feat/x", out("2\n")),
        ("git rev-list --count origin/feat/x..HEAD", out("1\n")),
    ]
}

fn in_sync<'a>() -> Vec<(&'a str, Reply)> {
    vec![
        ("git ls-remote --heads origin feat/x", out("aaa refs/heads/feat/x")),
        ("git fetch origin feat/x", out("")),
        ("git rev-parse HEAD", out("aaa\n")),
        ("git rev-parse origin/feat/x", out("aaa\n")),
    ]
}

const FIND: &str = "gh pr list --head feat/x --state open --json number --jq .[0].number";

fn landed<'a>() -> Vec<(&'a str, Reply)> {
    vec![
        ("gh api -X PUT repos/:owner/:repo/pulls/7/merge -f merge_method=squash", out("{}")),
        ("gh api -X DELETE repos/:owner/:repo/git/refs/heads/feat/x", out("")),
        ("git fetch origin main", out("")),
        ("git update-ref refs/heads/main refs/remotes/origin/main", out("")),
    ]
}

#[test]
fn an_absent_remote_is_pushed_first() {
    let body = opening_body("feat/x", "main");
    let create =
        format!("gh pr create --base main --head feat/x --title feat: add --body {body}");
    let mut script = vec![
        ("git ls-remote --heads origin feat/x", out("")),
        ("git push -u origin feat/x", out("")),
        (FIND, out("\n")),
        ("git log -1 --format=%s HEAD", out("feat: add\n")),
        (create.as_str(), out("https://github.com/o/r/pull/7\n")),
    ];
    script.extend(landed());
    let outcome = play(start("feat/x", RemoteDivergenceStrategy::RemoteSquash, false), script);
    assert_eq!(outcome, Ok(ReconcileOutcome::FirstPush { pr_number: 7 }));
}

#[test]
fn a_remote_in_sync_is_not_pushed() {
    let mut script = in_sync();
    script.push((FIND, out("7\n")));
    script.extend(landed());
    let outcome = play(start("feat/x", RemoteDivergenceStrategy::Abort, false), script);
    assert_eq!(outcome, Ok(ReconcileOutcome::AlreadyPushed { pr_number: 7 }));
}

#[test]
fn a_remote_that_is_ahead_is_rebased_onto_and_pushed() {
    let mut script = vec![
        ("git ls-remote --heads origin feat/x", out("aaa refs/heads/feat/x")),
        ("git fetch origin feat/x", out("")),
        ("git rev-parse HEAD", out("bbb\n")),
        ("git rev-parse origin/feat/x", out("aaa\n")),
        ("git rev-list --count HEAD..origin/feat/x", out("1\n")),
        ("git rev-list --count origin/feat/x..HEAD", out("0\n")),
        ("git rebase origin/feat/x", out("")),
        ("git push origin feat/x", out("")),
        (FIND, out("7")),
    ];
    script.extend(landed());
    let outcome = play(start("feat/x", RemoteDivergenceStrategy::RemoteSquash, false), script);
    assert_eq!(outcome, Ok(ReconcileOutcome::RebasedAndPushed { pr_number: 7 }));
}

#[test]
fn a_diverged_remote_is_squashed_where_it_is() {
    let mut script = diverged();
    script.push((FIND, out("7")));
    script.extend(landed());
    let outcome = play(start("feat/x", RemoteDivergenceStrategy::RemoteSquash, false), script);
    assert_eq!(outcome, Ok(ReconcileOutcome::RemoteSquashed { pr_number: 7 }));
}

#[test]
fn a_fast_forward_is_pushed_whatever_the_strategy() {
    for strategy in [
        RemoteDivergenceStrategy::RemoteSquash,
        RemoteDivergenceStrategy::Restack,
        RemoteDivergenceStrategy::Abort,
    ] {
        let mut script = diverged();
        script[4].1 = out("0\n");
        script[5].1 = out("3\n");
        script.push(("git push origin feat/x", out("")));
        script.push((FIND, out("7")));
        script.extend(landed());
        assert_eq!(
            play(start("feat/x", strategy, false), script),
            Ok(ReconcileOutcome::FastForwarded { pr_number: 7 })
        );
        let mut script = diverged();
        script[4].1 = out("0\n");
        script.push(("git push origin feat/x", failure("denied")));
        assert_eq!(
            play(start("feat/x", strategy, false), script),
            Err(fault("push to origin failed", &["denied"]))
        );
    }
}

#[test]
fn a_restack_opens_its_pull_request_in_any_case() {
    let body = supersession_body("feat/x", None);
    let create = format!("gh pr create --base main --head feat/x-v2 --title t --body {body}");
    for auto_open_pr_if_missing in [false, true] {
        let mut script = diverged();
        script.extend(vec![
            ("git show-ref --verify --quiet refs/heads/feat/x-v2", failure("no")),
            ("git ls-remote --heads origin feat/x-v2", out("")),
            ("git branch feat/x-v2 HEAD", out("")),
            ("git push -u origin feat/x-v2", out("")),
            (FIND, out("")),
            ("git log -1 --format=%s HEAD", out("t")),
            (create.as_str(), failure("denied")),
        ]);
        let run = reconcile_and_push(
            "feat/x",
            "main",
            RemoteDivergenceStrategy::Restack,
            auto_open_pr_if_missing,
            false,
        );
        assert_eq!(
            play(run, script),
            Err(fault("failed to create replacement PR", &["denied"]))
        );
    }
}

#[test]
fn a_diverged_remote_is_restacked_on_the_first_free_version() {
    let comment = closing_comment("feat/x-v3");
    let close = format!("gh pr close 5 --comment {comment}");
    let body = supersession_body("feat/x", Some(5));
    let create =
        format!("gh pr create --base main --head feat/x-v3 --title feat: s --body {body}");
    let mut script = diverged();
    script.extend(vec![
        ("git show-ref --verify --quiet refs/heads/feat/x-v2", failure("no")),
        ("git ls-remote --heads origin feat/x-v2", out("ccc refs/heads/feat/x-v2")),
        ("git show-ref --verify --quiet refs/heads/feat/x-v3", failure("no")),
        ("git ls-remote --heads origin feat/x-v3", failure("offline")),
        ("git branch feat/x-v3 HEAD", out("")),
        ("git push -u origin feat/x-v3", out("")),
        (FIND, out("5\n")),
        (close.as_str(), out("")),
        ("git log -1 --format=%s HEAD", out(" feat: s\n")),
        (create.as_str(), out("https://github.com/o/r/pull/8\n")),
        ("gh api -X PUT repos/:owner/:repo/pulls/8/merge -f merge_method=squash", out("{}")),
        (
            "gh api -X DELETE repos/:owner/:repo/git/refs/heads/feat/x-v3",
            Reply::Failure {
                fault: fault("gh failed", &[]),
                complaint: "gh: Reference does not exist (HTTP 422)".to_string(),
            },
        ),
        ("git fetch origin main", out("")),
        ("git update-ref refs/heads/main refs/remotes/origin/main", out("")),
    ]);
    let outcome = play(start("feat/x", RemoteDivergenceStrategy::Restack, false), script);
    assert_eq!(
        outcome,
        Ok(ReconcileOutcome::Restacked {
            new_branch: "feat/x-v3".to_string(),
            closed_pr: Some(5),
            new_pr: 8,
        })
    );
}

#[test]
fn a_diverged_remote_can_abort_the_merge() {
    let outcome = play(start("feat/x", RemoteDivergenceStrategy::Abort, false), diverged());
    assert_eq!(
        outcome,
        Err(fault(
            "remote branch 'origin/feat/x' has commits not in the local squash; merge aborted. \
             To recover manually:\n\
             git branch feat/x-v2 HEAD\n\
             git push -u origin feat/x-v2\n\
             gh pr close <old-pr-number> --comment 'Superseded by feat/x-v2'\n\
             gh pr create --base main --head feat/x-v2 --title ... --body ...\n\
             Or re-run with `[merge] on_diverged_remote = \"remote-squash\"` or `\"restack\"`.",
            &[]
        ))
    );
}

#[test]
fn restacking_gives_up_after_the_last_version() {
    let mut run = start("feat/x", RemoteDivergenceStrategy::Restack, false);
    for (_, reply) in diverged() {
        run = match run.resume(reply) {
            ReconcileStep::Next(next) => next,
            done => panic!("{done:?}"),
        };
    }
    for version in 2..=99 {
        assert_eq!(
            shown(&run),
            format!("git show-ref --verify --quiet refs/heads/feat/x-v{version}")
        );
        run = match run.resume(out("")) {
            ReconcileStep::Next(next) => next,
            done => panic!("{done:?}"),
        };
        match run.resume(out("")) {
            ReconcileStep::Next(next) => run = next,
            done => {
                assert_eq!(version, 99);
                assert_eq!(
                    done,
                    ReconcileStep::Done(Err(fault(
                        "exhausted -v2..-v99 candidates for branch 'feat/x'; clean up old restacks",
                        &[]
                    )))
                );
                return;
            }
        }
    }
    panic!("not over");
}

#[test]
fn a_draft_is_opened_and_not_merged() {
    let body = opening_body("feat/x", "main");
    let create =
        format!("gh pr create --draft --base main --head feat/x --title t --body {body}");
    let mut script = in_sync();
    script.extend(vec![
        (FIND, out("")),
        ("git log -1 --format=%s HEAD", out("t")),
        (create.as_str(), out("https://github.com/o/r/pull/7")),
    ]);
    let outcome = play(start("feat/x", RemoteDivergenceStrategy::RemoteSquash, true), script);
    assert_eq!(outcome, Ok(ReconcileOutcome::OpenedDraftPr { pr_number: 7 }));
}

#[test]
fn a_pull_request_that_is_open_already_is_merged_though_drafts_are_asked_for() {
    let mut script = in_sync();
    script.push((FIND, out("7")));
    script.extend(landed());
    let outcome = play(start("feat/x", RemoteDivergenceStrategy::RemoteSquash, true), script);
    assert_eq!(outcome, Ok(ReconcileOutcome::AlreadyPushed { pr_number: 7 }));
}

#[test]
fn a_restacked_draft_stays_open() {
    let body = supersession_body("feat/x", None);
    let create =
        format!("gh pr create --draft --base main --head feat/x-v2 --title t --body {body}");
    let mut script = diverged();
    script.extend(vec![
        ("git show-ref --verify --quiet refs/heads/feat/x-v2", failure("no")),
        ("git ls-remote --heads origin feat/x-v2", out("")),
        ("git branch feat/x-v2 HEAD", out("")),
        ("git push -u origin feat/x-v2", out("")),
        (FIND, out("")),
        ("git log -1 --format=%s HEAD", out("t")),
        (create.as_str(), out("https://github.com/o/r/pull/9")),
    ]);
    let outcome = play(start("feat/x", RemoteDivergenceStrategy::Restack, true), script);
    assert_eq!(outcome, Ok(ReconcileOutcome::OpenedDraftPr { pr_number: 9 }));
}

#[test]
fn a_missing_pull_request_is_refused_where_none_may_be_opened() {
    let mut script = in_sync();
    script.push((FIND, out("")));
    let run =
        reconcile_and_push("feat/x", "main", RemoteDivergenceStrategy::RemoteSquash, false, false);
    assert_eq!(play(run, script), Err(fault(&missing_pr_message("feat/x", "main"), &[])));
    assert_eq!(
        missing_pr_message("feat/x", "main"),
        "wt merge expected an open PR for branch 'feat/x' targeting 'main', and \
         `auto_open_pr_if_missing` is disabled. Either open one manually (`gh pr create --head \
         feat/x --base main`) or set `[merge] auto_open_pr_if_missing = true` in wt config."
    );
}

#[test]
fn a_failed_merge_is_reported_with_its_context() {
    let mut script = in_sync();
    script.push((FIND, out("7")));
    script.push((
        "gh api -X PUT repos/:owner/:repo/pulls/7/merge -f merge_method=squash",
        failure("HTTP 405"),
    ));
    assert_eq!(
        play(start("feat/x", RemoteDivergenceStrategy::RemoteSquash, false), script),
        Err(fault(
            "squash-merge via GitHub REST API failed",
            &["squash-merge PUT returned non-success", "HTTP 405"]
        ))
    );
}

/// A reconciliation of a branch that stands before the deletion of it.
fn before_deletion(branch: &str) -> ReconcileRun {
    let mut run = start(branch, RemoteDivergenceStrategy::RemoteSquash, false);
    for reply in [
        out("aaa refs/heads/branch"),
        out(""),
        out("aaa"),
        out("aaa"),
        out("7"),
        out("{}"),
    ] {
        run = match run.resume(reply) {
            ReconcileStep::Next(next) => next,
            done => panic!("{done:?}"),
        };
    }
    run
}

#[test]
fn a_branch_that_is_gone_already_is_tolerated_and_other_failures_are_not() {
    for branch in ["feat/x", "fix-422", "Reference does not exist"] {
        for (stderr, tolerated) in [
            ("gh: Reference does not exist (HTTP 422)\n", true),
            ("HTTP 422", true),
            ("Reference does not exist", true),
            ("HTTP 403: Forbidden", false),
            ("", false),
        ] {
            let run = before_deletion(branch);
            let command = run.command();
            assert_eq!(
                command.args,
                vec![
                    "api".to_string(),
                    "-X".to_string(),
                    "DELETE".to_string(),
                    format!("repos/:owner/:repo/git/refs/heads/{branch}"),
                ]
            );
            let reply = gh_reply(&command.args, false, String::new(), stderr);
            let step = run.resume(reply);
            if tolerated {
                match step {
                    ReconcileStep::Next(next) => {
                        assert_eq!(shown(&next), "git fetch origin main")
                    }
                    done => panic!("{branch}: {stderr}: {done:?}"),
                }
            } else {
                let message =
                    format!("gh {:?} failed: {}", command.args, stderr.trim());
                assert_eq!(
                    step,
                    ReconcileStep::Done(Err(fault(
                        "squash-merge via GitHub REST API failed",
                        &["delete remote branch via gh api failed", &message]
                    )))
                );
            }
        }
    }
}

#[test]
fn a_deletion_that_could_not_be_tried_is_not_tolerated() {
    let reply = gh_not_started(fault("errno 422", &[]));
    assert_eq!(
        before_deletion("feat/x").resume(reply),
        ReconcileStep::Done(Err(fault(
            "squash-merge via GitHub REST API failed",
            &[
                "delete remote branch via gh api failed",
                "failed to spawn gh; is the GitHub CLI installed?",
                "errno 422",
            ]
        )))
    );
    assert!(is_already_gone("HTTP 422"));
    assert!(!is_already_gone("HTTP 403"));
}

#[test]
fn a_target_that_cannot_be_advanced_is_reported() {
    let mut script = in_sync();
    script.push((FIND, out("7")));
    let mut rest = landed();
    rest[3].1 = failure("locked");
    script.extend(rest);
    assert_eq!(
        play(start("feat/x", RemoteDivergenceStrategy::RemoteSquash, false), script),
        Err(fault("failed to advance local main to origin/main", &["locked"]))
    );
}

#[test]
fn failed_pushes_are_reported_with_their_context() {
    let script = vec![
        ("git ls-remote --heads origin feat/x", out("")),
        ("git push -u origin feat/x", failure("denied")),
    ];
    assert_eq!(
        play(start("feat/x", RemoteDivergenceStrategy::RemoteSquash, false), script),
        Err(fault("initial push to origin failed", &["denied"]))
    );
    let run = start("feat/x", RemoteDivergenceStrategy::RemoteSquash, false);
    let run = match run.dispatch(RemoteState::Ahead) {
        ReconcileStep::Next(run) => run,
        done => panic!("{done:?}"),
    };
    assert_eq!(
        play(run, vec![("git rebase origin/feat/x", failure("conflict"))]),
        Err(fault("rebase onto origin/<branch> failed", &["conflict"]))
    );
}

#[test]
fn listings_and_new_pull_requests_are_read() {
    assert_eq!(read_listed_pr(out(" 12\n")), Ok(Some(12)));
    assert_eq!(read_listed_pr(out("\n")), Ok(None));
    assert_eq!(
        read_listed_pr(out("null\n")),
        Err(fault(
            "failed to parse PR number: \"null\"",
            &["invalid digit found in string"]
        ))
    );
    assert_eq!(read_listed_pr(failure("x")), Err(fault("x", &[])));
    assert_eq!(read_created_pr("https://github.com/o/r/pull/3\n"), Ok(3));
    assert_eq!(
        read_created_pr("no \"url\"\n"),
        Err(fault("failed to parse PR number from gh output: \"no \\\"url\\\"\\n\"", &[]))
    );
}

#[test]
fn bodies_and_comments_read_as_written() {
    assert_eq!(
        supersession_body("feat/x", Some(709)),
        "Supersedes #709.\n\nOriginal branch: `feat/x`. Tree unchanged; squashed into a single \
         commit for clean main history. Opened automatically by `wt merge` after detecting a \
         non-fast-forward remote state."
    );
    assert_eq!(
        closing_comment("feat/x-v2"),
        "Superseded by replacement branch after wt merge local-squash / remote-history \
         collision. Tree unchanged; recreated on `feat/x-v2` with a single squash commit."
    );
    assert_eq!(
        opening_body("feat/x", "main"),
        "Auto-opened by `wt merge` for remote-squash reconciliation. Feature branch `feat/x` has \
         pre-squash commits on origin; server-side squash-merge will collapse them into one \
         commit on `main`."
    );
}

#[test]
fn the_squashed_pull_request_of_an_outcome() {
    assert_eq!(squash_pr_number(&ReconcileOutcome::FirstPush { pr_number: 1 }), Some(1));
    assert_eq!(squash_pr_number(&ReconcileOutcome::AlreadyPushed { pr_number: 2 }), Some(2));
    assert_eq!(squash_pr_number(&ReconcileOutcome::RebasedAndPushed { pr_number: 3 }), Some(3));
    assert_eq!(squash_pr_number(&ReconcileOutcome::FastForwarded { pr_number: 8 }), Some(8));
    assert_eq!(squash_pr_number(&ReconcileOutcome::RemoteSquashed { pr_number: 4 }), Some(4));
    assert_eq!(
        squash_pr_number(&ReconcileOutcome::Restacked {
            new_branch: "b-v2".to_string(),
            closed_pr: Some(1),
            new_pr: 5,
        }),
        Some(5)
    );
    assert_eq!(squash_pr_number(&ReconcileOutcome::OpenedDraftPr { pr_number: 6 }), None);
}
