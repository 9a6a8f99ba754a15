use worktrunk::command::{Program, Reply};
use worktrunk::fault::Fault;
use worktrunk::remote_state::{classify_remote_state, ClassifyStep, RemoteState};

fn out(text: &str) -> Reply {
    Reply::Output(text.to_string())
}

fn failure(message: &str) -> Reply {
    Reply::Failure {
        fault: Fault { message: message.to_string(), causes: vec![] },
        complaint: String::new(),
    }
}

/// Classifies `feature` and notes the commands.
fn classify(replies: Vec<Reply>) -> (Result<RemoteState, Fault>, Vec<String>) {
    let mut run = classify_remote_state("feature");
    let mut commands = vec![];
    for reply in replies {
        let command = run.command();
        assert_eq!(command.program, Program::Git);
        commands.push(command.args.join(" "));
        match run.resume(reply) {
            ClassifyStep::Next(next) => run = next,
            ClassifyStep::Done(result) => return (result, commands),
        }
    }
    panic!("not enough replies");
}

#[test]
fn a_branch_that_origin_does_not_list_is_absent() {
    let (state, commands) = classify(vec![out(" \n")]);
    assert_eq!(state, Ok(RemoteState::Absent));
    assert_eq!(commands, vec!["ls-remote --heads origin feature"]);
}

#[test]
fn equal_heads_are_in_sync() {
    let (state, commands) =
        classify(vec![out("abc refs/heads/feature\n"), out(""), out("abc\n"), out(" abc\n")]);
    assert_eq!(state, Ok(RemoteState::InSync));
    assert_eq!(
        commands,
        vec![
            "ls-remote --heads origin feature",
            "fetch origin feature",
            "rev-parse HEAD",
            "rev-parse origin/feature",
        ]
    );
}

fn counted(behind: &str, ahead: &str) -> (Result<RemoteState, Fault>, Vec<String>) {
    classify(vec![out("x"), out(""), out("a"), out("b"), out(behind), out(ahead)])
}

#[test]
fn a_remote_with_more_commits_is_ahead() {
    let (state, commands) = counted("3\n", "0\n");
    assert_eq!(state, Ok(RemoteState::Ahead));
    assert_eq!(commands[4], "rev-list --count HEAD..origin/feature");
    assert_eq!(commands[5], "rev-list --count origin/feature..HEAD");
}

#[test]
fn both_with_more_commits_diverge() {
    assert_eq!(counted("2", "1").0, Ok(RemoteState::Diverges { behind: 2, ahead: 1 }));
    assert_eq!(counted("0", "4").0, Ok(RemoteState::Diverges { behind: 0, ahead: 4 }));
    assert_eq!(counted("0", "0").0, Ok(RemoteState::Diverges { behind: 0, ahead: 0 }));
}

#[test]
fn a_count_that_is_no_number_is_reported_with_its_range() {
    assert_eq!(
        counted("many", "1").0,
        Err(Fault {
            message: "failed to parse commit count for range HEAD..origin/feature".to_string(),
            causes: vec!["invalid digit found in string".to_string()],
        })
    );
    assert_eq!(
        counted("1", "").0,
        Err(Fault {
            message: "failed to parse commit count for range origin/feature..HEAD".to_string(),
            causes: vec!["cannot parse integer from empty string".to_string()],
        })
    );
    assert_eq!(
        counted("4294967296", "1").0,
        Err(Fault {
            message: "failed to parse commit count for range HEAD..origin/feature".to_string(),
            causes: vec!["number too large to fit in target type".to_string()],
        })
    );
}

#[test]
fn failures_of_the_classification_are_reported() {
    assert_eq!(
        classify(vec![failure("offline")]).0,
        Err(Fault {
            message: "failed to query origin for branch state".to_string(),
            causes: vec!["offline".to_string()],
        })
    );
    assert_eq!(
        classify(vec![out("x"), failure("gone")]).0,
        Err(Fault {
            message: "failed to fetch origin/<branch>".to_string(),
            causes: vec!["gone".to_string()],
        })
    );
    assert_eq!(
        classify(vec![out("x"), out(""), failure("no HEAD")]).0,
        Err(Fault { message: "no HEAD".to_string(), causes: vec![] })
    );
}
