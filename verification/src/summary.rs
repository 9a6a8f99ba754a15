//! What the user is told once the provider has merged a branch.
//!
//! The line names the target, its new commit and the pull request. Both lookups
//! may fail: what could not be found out is left out of the line.

use vstd::prelude::*;
use crate::command::{
    Command, CommandView, Program, Reply, ReplyView, gh, gh_command, git, git_command,
};
use crate::text::{decimal, decimal_text, trim, trimmed};

verus! {

/// The command that prints the short name of a branch's commit.
pub open spec fn head_lookup(target_branch: Seq<char>) -> CommandView {
    git(seq!["rev-parse"@, "--short"@, "refs/heads/"@ + target_branch])
}

/// The command that prints a short name of the commit of a local branch.
pub fn head_command(target_branch: &str) -> (r: Command)
    ensures
        r@ == head_lookup(target_branch@),
{
    let name = "refs/heads/".to_owned().concat(target_branch);
    git_command(&["rev-parse", "--short", name.as_str()])
}

/// The command that prints the address of a pull request.
pub open spec fn url_lookup(pr_number: u32) -> CommandView {
    gh(
        seq![
            "pr"@,
            "view"@,
            decimal(pr_number as nat),
            "--json"@,
            "url"@,
            "--jq"@,
            ".url"@,
        ],
    )
}

/// The command that prints the address of a pull request.
pub fn url_command(pr_number: u32) -> (r: Command)
    ensures
        r@ == url_lookup(pr_number),
{
    let number = decimal_text(pr_number as u64);
    gh_command(&["pr", "view", number.as_str(), "--json", "url", "--jq", ".url"])
}

/// The commit that a reply names.
pub open spec fn commit_in(reply: ReplyView) -> Option<Seq<char>> {
    match reply {
        ReplyView::Output(text) => Some(trimmed(text)),
        ReplyView::Failure { .. } => None,
    }
}

/// The address that a reply holds; there is none in an empty one.
pub open spec fn url_in(reply: ReplyView) -> Option<Seq<char>> {
    match reply {
        ReplyView::Output(text) => if trimmed(text).len() == 0 {
            None
        } else {
            Some(trimmed(text))
        },
        ReplyView::Failure { .. } => None,
    }
}

/// How the line names the pull request.
pub open spec fn pr_part(pr_number: u32, url: Option<Seq<char>>) -> Seq<char> {
    match url {
        Some(url) => "PR #"@ + decimal(pr_number as nat) + " — "@ + url,
        None => "PR #"@ + decimal(pr_number as nat),
    }
}

/// The line that tells of the merge.
pub open spec fn summary_text(
    target_branch: Seq<char>,
    pr_number: u32,
    commit: Option<Seq<char>>,
    url: Option<Seq<char>>,
) -> Seq<char> {
    match commit {
        Some(commit) => target_branch + " advanced to "@ + commit + " ("@ + pr_part(
            pr_number,
            url,
        ) + ")"@,
        None => target_branch + " advanced ("@ + pr_part(pr_number, url) + ")"@,
    }
}

/// The address of a pull request, from what the lookup came to. `None` if it
/// failed or printed nothing.
pub fn pr_view_url(reply: &Reply) -> (r: Option<String>)
    ensures
        match r {
            Some(url) => url_in(reply@) == Some(url@),
            None => url_in(reply@) is None,
        },
{
    match reply {
        Reply::Output(text) => {
            let url = trim(text.as_str());
            if url.is_empty() {
                None
            } else {
                Some(url.to_owned())
            }
        },
        Reply::Failure { .. } => None,
    }
}

/// The line that tells of a merge, from what the lookups of the target's commit
/// and of the pull request's address came to.
pub fn post_merge_summary(
    target_branch: &str,
    pr_number: u32,
    commit_reply: &Reply,
    url_reply: &Reply,
) -> (r: String)
    ensures
        r@ == summary_text(target_branch@, pr_number, commit_in(commit_reply@), url_in(url_reply@)),
{
    let number = decimal_text(pr_number as u64);
    let pr = match pr_view_url(url_reply) {
        Some(url) => "PR #".to_owned().concat(number.as_str()).concat(" — ").concat(
            url.as_str(),
        ),
        None => "PR #".to_owned().concat(number.as_str()),
    };
    match commit_reply {
        Reply::Output(text) => target_branch.to_owned().concat(" advanced to ").concat(
            trim(text.as_str()),
        ).concat(" (").concat(pr.as_str()).concat(")"),
        Reply::Failure { .. } => target_branch.to_owned().concat(" advanced (").concat(
            pr.as_str(),
        ).concat(")"),
    }
}

/// The line tells the target, the commit where it was found out, the number of
/// the pull request, and its address where there is one: what a lookup did not
/// come to is left out, and so is an address that is blank.
pub proof fn the_summary_tells_what_is_known(
    target_branch: Seq<char>,
    pr_number: u32,
    commit: ReplyView,
    url: ReplyView,
)
    ensures
        summary_text(target_branch, pr_number, commit_in(commit), url_in(url)) == target_branch
            + " advanced"@ + (match commit {
            ReplyView::Output(text) => " to "@ + trimmed(text),
            ReplyView::Failure { .. } => Seq::empty(),
        }) + " (PR #"@ + decimal(pr_number as nat) + (match url {
            ReplyView::Output(text) => if trimmed(text).len() > 0 {
                " — "@ + trimmed(text)
            } else {
                Seq::empty()
            },
            ReplyView::Failure { .. } => Seq::empty(),
        }) + ")"@,
{
    reveal_strlit(" advanced to ");
    reveal_strlit(" advanced (");
    reveal_strlit(" advanced");
    reveal_strlit(" to ");
    reveal_strlit(" (");
    reveal_strlit(" (PR #");
    reveal_strlit("PR #");
    let told = summary_text(target_branch, pr_number, commit_in(commit), url_in(url));
    assert(" advanced to "@ =~= " advanced"@ + " to "@);
    assert(" advanced ("@ =~= " advanced"@ + " ("@);
    assert(" (PR #"@ =~= " ("@ + "PR #"@);
    assert(told =~= target_branch + " advanced"@ + (match commit {
        ReplyView::Output(text) => " to "@ + trimmed(text),
        ReplyView::Failure { .. } => Seq::empty(),
    }) + " (PR #"@ + decimal(pr_number as nat) + (match url {
        ReplyView::Output(text) => if trimmed(text).len() > 0 {
            " — "@ + trimmed(text)
        } else {
            Seq::empty()
        },
        ReplyView::Failure { .. } => Seq::empty(),
    }) + ")"@);
}

/// The commit is looked up at the local target branch, and the address under the
/// number of the pull request.
pub proof fn the_lookups_are_about_the_merge(target_branch: Seq<char>, pr_number: u32)
    ensures
        head_lookup(target_branch).program == Program::Git,
        head_lookup(target_branch).args.len() == 3,
        head_lookup(target_branch).args[0] == "rev-parse"@,
        head_lookup(target_branch).args[2] == "refs/heads/"@ + target_branch,
        url_lookup(pr_number).program == Program::Gh,
        url_lookup(pr_number).args.len() == 7,
        url_lookup(pr_number).args[1] == "view"@,
        url_lookup(pr_number).args[2] == decimal(pr_number as nat),
{
}

} // verus!
