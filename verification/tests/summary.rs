use worktrunk::command::{Program, Reply};
use worktrunk::fault::Fault;
use worktrunk::summary::{head_command, post_merge_summary, pr_view_url, url_command};

fn out(text: &str) -> Reply {
    Reply::Output(text.to_string())
}

fn failure() -> Reply {
    Reply::Failure {
        fault: Fault { message: "offline".to_string(), causes: vec![] },
        complaint: String::new(),
    }
}

#[test]
fn the_lookups_of_the_summary() {
    let head = head_command("main");
    assert_eq!(head.program, Program::Git);
    assert_eq!(head.args, vec!["rev-parse", "--short", "refs/heads/main"]);
    let url = url_command(704);
    assert_eq!(url.program, Program::Gh);
    assert_eq!(url.args, vec!["pr", "view", "704", "--json", "url", "--jq", ".url"]);
}

#[test]
fn the_summary_names_what_could_be_found_out() {
    let url = "https://github.com/o/r/pull/7";
    assert_eq!(
        post_merge_summary("main", 7, &out("abc1234\n"), &out(&format!("{url}\n"))),
        "main advanced to abc1234 (PR #7 — https://github.com/o/r/pull/7)"
    );
    assert_eq!(
        post_merge_summary("main", 7, &failure(), &out(url)),
        "main advanced (PR #7 — https://github.com/o/r/pull/7)"
    );
    assert_eq!(
        post_merge_summary("main", 7, &out("abc1234"), &failure()),
        "main advanced to abc1234 (PR #7)"
    );
    assert_eq!(
        post_merge_summary("main", 7, &failure(), &out(" \n")),
        "main advanced (PR #7)"
    );
}

#[test]
fn an_empty_address_is_none() {
    assert_eq!(pr_view_url(&out("\n")), None);
    assert_eq!(pr_view_url(&failure()), None);
    assert_eq!(pr_view_url(&out(" u \n")), Some("u".to_string()));
}
