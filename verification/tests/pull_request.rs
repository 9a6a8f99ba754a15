use worktrunk::pull_request::{
    abort_message, branch_ref_api_path, parse_pr_number_from_url, pr_merge_api_path,
    supersession_body,
};

#[test]
fn parse_pr_number_from_numeric_input() {
    assert_eq!(parse_pr_number_from_url("704"), Some(704));
}

#[test]
fn parse_pr_number_from_full_url() {
    assert_eq!(
        parse_pr_number_from_url("https://github.com/Grokr-Labs/pwm-os/pull/704"),
        Some(704)
    );
}

#[test]
fn parse_pr_number_tolerates_trailing_newline() {
    assert_eq!(
        parse_pr_number_from_url("https://github.com/Grokr-Labs/pwm-os/pull/709\n"),
        Some(709)
    );
}

#[test]
fn parse_pr_number_returns_none_for_non_numeric() {
    assert_eq!(parse_pr_number_from_url("not-a-url"), None);
}

#[test]
fn supersession_body_with_prior_pr_references_number() {
    let body = supersession_body("feat/x", Some(709));
    assert!(body.contains("Supersedes #709"));
    assert!(body.contains("feat/x"));
}

#[test]
fn supersession_body_without_prior_pr_notes_absence() {
    let body = supersession_body("feat/x", None);
    assert!(body.contains("No prior PR found"));
}

#[test]
fn abort_message_names_branches_and_fallback_strategies() {
    let msg = abort_message("feat/x", "main");
    assert!(msg.contains("feat/x"));
    assert!(msg.contains("main"));
    assert!(msg.contains("remote-squash"));
    assert!(msg.contains("restack"));
}

#[test]
fn pr_merge_api_path_uses_gh_owner_repo_placeholders() {
    assert_eq!(pr_merge_api_path(722), "repos/:owner/:repo/pulls/722/merge");
}

#[test]
fn branch_ref_api_path_escapes_nothing_and_keeps_slashes() {
    assert_eq!(
        branch_ref_api_path("feat/some-branch"),
        "repos/:owner/:repo/git/refs/heads/feat/some-branch"
    );
}

#[test]
fn branch_ref_api_path_handles_plain_branch_name() {
    assert_eq!(
        branch_ref_api_path("main"),
        "repos/:owner/:repo/git/refs/heads/main"
    );
}
