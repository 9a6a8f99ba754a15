use worktrunk::answer::Answer;
use worktrunk::command::Program;
use worktrunk::fault::Fault;
use worktrunk::guard::{ensure_pr_branch_has_local_commits, GuardAction, GuardStep};

/// A repository as far as the guard sees it: the commits of local HEAD and of
/// `origin/feature`, oldest first.
struct Histories {
    head: Vec<&'static str>,
    remote: Option<Vec<&'static str>>,
}

impl Histories {
    fn of(&self, name: &str) -> Option<&Vec<&'static str>> {
        match name {
            "HEAD" => Some(&self.head),
            "origin/feature" => self.remote.as_ref(),
            other => panic!("unknown name {other}"),
        }
    }

    fn answer(&mut self, action: &GuardAction) -> Answer {
        match action {
            GuardAction::Run(command) => {
                assert_eq!(command.program, Program::Git);
                let args: Vec<&str> = command.args.iter().map(|a| a.as_str()).collect();
                match args.as_slice() {
                    ["rev-parse", "--verify", "--quiet", name] => match self.of(name) {
                        Some(history) => Answer::Text(history[history.len() - 1].to_string()),
                        None => Answer::Failed(fault("no such ref")),
                    },
                    ["push", "origin", "HEAD:feature"] => {
                        self.remote = Some(self.head.clone());
                        Answer::Yes
                    }
                    other => panic!("unexpected command {other:?}"),
                }
            }
            GuardAction::IsAncestor { ancestor, descendant } => {
                let tip = *self.of(ancestor).unwrap().last().unwrap();
                if self.of(descendant).unwrap().contains(&tip) {
                    Answer::Yes
                } else {
                    Answer::No
                }
            }
        }
    }

    fn guard(&mut self, dirty: bool) -> Result<(), Fault> {
        let mut run = ensure_pr_branch_has_local_commits("feature", dirty);
        loop {
            let answer = self.answer(&run.action());
            match run.resume(answer) {
                GuardStep::Next(next) => run = next,
                GuardStep::Done(result) => return result,
            }
        }
    }
}

fn fault(message: &str) -> Fault {
    Fault { message: message.to_string(), causes: vec![] }
}

#[test]
fn noop_when_pr_branch_absent() {
    let mut repo = Histories { head: vec!["base", "A"], remote: None };
    assert!(matches!(
        repo.answer(&ensure_pr_branch_has_local_commits("feature", false).action()),
        Answer::Failed(_)
    ));
    repo.guard(false).unwrap();
    assert_eq!(repo.remote, None);
}

#[test]
fn auto_pushes_local_commits_not_on_pr_branch() {
    let mut repo = Histories {
        head: vec!["base", "A", "commit B"],
        remote: Some(vec!["base", "A"]),
    };
    assert_ne!(repo.of("origin/feature"), repo.of("HEAD"));
    repo.guard(false).unwrap();
    assert_eq!(repo.of("origin/feature"), repo.of("HEAD"));
}

#[test]
fn noop_when_already_pushed_and_clean() {
    let mut repo = Histories { head: vec!["base", "A"], remote: Some(vec!["base", "A"]) };
    let before = repo.remote.clone();
    repo.guard(false).unwrap();
    assert_eq!(repo.remote, before);
}

#[test]
fn fails_loud_when_diverged() {
    let mut repo = Histories {
        head: vec!["base", "commit C"],
        remote: Some(vec!["base", "A"]),
    };
    let err = repo.guard(false).unwrap_err();
    assert!(err.message.contains("diverged"), "got: {}", err.message);
    assert_eq!(
        err.message,
        "Local branch and origin/feature have diverged — the remote has commits not in your \
         history, so a squash-merge would drop your local commits. Rebase onto origin/feature \
         (or reconcile manually) before merging."
    );
    assert_eq!(repo.remote, Some(vec!["base", "A"]));
}

#[test]
fn fails_loud_on_dirty_over_pushed_branch() {
    let mut repo = Histories { head: vec!["base", "A"], remote: Some(vec!["base", "A"]) };
    let err = repo.guard(true).unwrap_err();
    assert!(err.message.contains("Uncommitted"), "got: {}", err.message);
    assert_eq!(
        err.message,
        "Uncommitted changes won't reach origin/feature: a push_to_origin merge squashes the \
         pushed PR branch, so they would be silently dropped. Commit them (wt will push) before \
         merging."
    );
}

#[test]
fn a_remote_that_is_ahead_passes_the_guard() {
    let mut repo = Histories {
        head: vec!["base", "A"],
        remote: Some(vec!["base", "A", "theirs"]),
    };
    repo.guard(false).unwrap();
    assert_eq!(repo.remote, Some(vec!["base", "A", "theirs"]));
}

#[test]
fn the_guard_refuses_exactly_what_would_be_lost() {
    let here = vec!["base", "A"];
    for (remote, dirty, passes) in [
        (None, false, true),
        (None, true, true),
        (Some(vec!["base", "A"]), false, true),
        (Some(vec!["base", "A"]), true, false),
        (Some(vec!["base"]), false, true),
        (Some(vec!["base"]), true, false),
        (Some(vec!["base", "A", "B"]), false, true),
        (Some(vec!["base", "A", "B"]), true, false),
        (Some(vec!["base", "C"]), false, false),
        (Some(vec!["base", "C"]), true, false),
    ] {
        let mut repo = Histories { head: here.clone(), remote: remote.clone() };
        assert_eq!(repo.guard(dirty).is_ok(), passes, "{remote:?} {dirty}");
    }
}

#[test]
fn a_failed_push_refuses_the_merge() {
    let run = ensure_pr_branch_has_local_commits("feature", false);
    let run = match run.resume(Answer::Text("abc".to_string())) {
        GuardStep::Next(run) => run,
        done => panic!("{done:?}"),
    };
    let run = match run.resume(Answer::No) {
        GuardStep::Next(run) => run,
        done => panic!("{done:?}"),
    };
    let run = match run.resume(Answer::Yes) {
        GuardStep::Next(run) => run,
        done => panic!("{done:?}"),
    };
    assert_eq!(
        run.resume(Answer::Failed(fault("rejected"))),
        GuardStep::Done(Err(fault("rejected")))
    );
}

#[test]
fn a_question_that_cannot_be_answered_refuses_the_merge() {
    let run = ensure_pr_branch_has_local_commits("feature", false);
    let run = match run.resume(Answer::Yes) {
        GuardStep::Next(run) => run,
        done => panic!("{done:?}"),
    };
    assert_eq!(
        run.resume(Answer::Failed(fault("no HEAD"))),
        GuardStep::Done(Err(fault("no HEAD")))
    );
}
