//! The words that go to and come from GitHub about a pull request.

use vstd::prelude::*;
use crate::command::{Reply, ReplyView};
use crate::fault::{Fault, FaultView, number_fault, plain, result_view};
use crate::text::{
    NumberError, decimal, decimal_text, find_last_number, is_white, last_number, lemma_continues,
    lemma_ends_with, lemma_spans, number, occurs_in, parse_number, quoted, quoted_text,
    the_number_at_the_end_is_read, trim, trimmed,
};

verus! {

/// Where a pull request is squash-merged.
pub open spec fn merge_path(pr_number: nat) -> Seq<char> {
    "repos/:owner/:repo/pulls/"@ + decimal(pr_number) + "/merge"@
}

/// GitHub REST API path for squash-merging a PR via `gh api`. `:owner` / `:repo`
/// are gh placeholders resolved from the current repo's primary remote.
pub fn pr_merge_api_path(pr_number: u32) -> (r: String)
    ensures
        r@ == merge_path(pr_number as nat),
{
    let n = decimal_text(pr_number as u64);
    "repos/:owner/:repo/pulls/".to_owned().concat(n.as_str()).concat("/merge")
}

/// Where the git ref of a remote branch stands.
pub open spec fn ref_path(branch: Seq<char>) -> Seq<char> {
    "repos/:owner/:repo/git/refs/heads/"@ + branch
}

/// GitHub REST API path for the git ref of a remote branch.
pub fn branch_ref_api_path(branch: &str) -> (r: String)
    ensures
        r@ == ref_path(branch@),
{
    "repos/:owner/:repo/git/refs/heads/".to_owned().concat(branch)
}

/// What the user is told when a diverged remote stops the merge.
pub open spec fn abort_text(branch: Seq<char>, target_branch: Seq<char>) -> Seq<char> {
    "remote branch 'origin/"@ + branch
        + "' has commits not in the local squash; merge aborted. To recover manually:\ngit branch "@
        + branch + "-v2 HEAD\ngit push -u origin "@ + branch
        + "-v2\ngh pr close <old-pr-number> --comment 'Superseded by "@ + branch
        + "-v2'\ngh pr create --base "@ + target_branch + " --head "@ + branch
        + "-v2 --title ... --body ...\nOr re-run with `[merge] on_diverged_remote = \"remote-squash\"` or `\"restack\"`."@
}

/// What the user is told when a diverged remote stops the merge.
pub fn abort_message(branch: &str, target_branch: &str) -> (r: String)
    ensures
        r@ == abort_text(branch@, target_branch@),
{
    "remote branch 'origin/".to_owned().concat(branch).concat(
        "' has commits not in the local squash; merge aborted. To recover manually:\ngit branch ",
    ).concat(branch).concat("-v2 HEAD\ngit push -u origin ").concat(branch).concat(
        "-v2\ngh pr close <old-pr-number> --comment 'Superseded by ",
    ).concat(branch).concat("-v2'\ngh pr create --base ").concat(target_branch).concat(
        " --head ",
    ).concat(branch).concat(
        "-v2 --title ... --body ...\nOr re-run with `[merge] on_diverged_remote = \"remote-squash\"` or `\"restack\"`.",
    )
}

/// How the body of a replacement PR begins.
pub open spec fn supersession_note(closed_pr: Option<u32>) -> Seq<char> {
    match closed_pr {
        Some(n) => "Supersedes #"@ + decimal(n as nat) + "."@,
        None => "No prior PR found; this PR replaces the local-squash attempt."@,
    }
}

/// The body of a replacement PR.
pub open spec fn supersession_text(
    original_branch: Seq<char>,
    closed_pr: Option<u32>,
) -> Seq<char> {
    supersession_note(closed_pr) + "\n\nOriginal branch: `"@ + original_branch
        + "`. Tree unchanged; squashed into a single commit for clean main history. Opened automatically by `wt merge` after detecting a non-fast-forward remote state."@
}

/// The body of a replacement PR.
pub fn supersession_body(original_branch: &str, closed_pr: Option<u32>) -> (r: String)
    ensures
        r@ == supersession_text(original_branch@, closed_pr),
{
    let note = match closed_pr {
        Some(n) => {
            let shown = decimal_text(n as u64);
            "Supersedes #".to_owned().concat(shown.as_str()).concat(".")
        },
        None => "No prior PR found; this PR replaces the local-squash attempt.".to_owned(),
    };
    note.concat("\n\nOriginal branch: `").concat(original_branch).concat(
        "`. Tree unchanged; squashed into a single commit for clean main history. Opened automatically by `wt merge` after detecting a non-fast-forward remote state.",
    )
}

/// The comment under which a superseded PR is closed.
pub open spec fn closing_text(new_branch: Seq<char>) -> Seq<char> {
    "Superseded by replacement branch after wt merge local-squash / remote-history collision. Tree unchanged; recreated on `"@
        + new_branch + "` with a single squash commit."@
}

/// The comment under which a superseded PR is closed.
pub fn closing_comment(new_branch: &str) -> (r: String)
    ensures
        r@ == closing_text(new_branch@),
{
    "Superseded by replacement branch after wt merge local-squash / remote-history collision. Tree unchanged; recreated on `".to_owned().concat(
        new_branch,
    ).concat("` with a single squash commit.")
}

/// The body of a PR that is opened for want of one.
pub open spec fn opening_text(branch: Seq<char>, target_branch: Seq<char>) -> Seq<char> {
    "Auto-opened by `wt merge` for remote-squash reconciliation. Feature branch `"@ + branch
        + "` has pre-squash commits on origin; server-side squash-merge will collapse them into one commit on `"@
        + target_branch + "`."@
}

/// The body of a PR that is opened for want of one.
pub fn opening_body(branch: &str, target_branch: &str) -> (r: String)
    ensures
        r@ == opening_text(branch@, target_branch@),
{
    "Auto-opened by `wt merge` for remote-squash reconciliation. Feature branch `".to_owned().concat(
        branch,
    ).concat(
        "` has pre-squash commits on origin; server-side squash-merge will collapse them into one commit on `",
    ).concat(target_branch).concat("`.")
}

/// What the user is told when there is no PR and none may be opened.
pub open spec fn missing_pr_text(branch: Seq<char>, target_branch: Seq<char>) -> Seq<char> {
    "wt merge expected an open PR for branch '"@ + branch + "' targeting '"@ + target_branch
        + "', and `auto_open_pr_if_missing` is disabled. Either open one manually (`gh pr create --head "@
        + branch + " --base "@ + target_branch
        + "`) or set `[merge] auto_open_pr_if_missing = true` in wt config."@
}

/// What the user is told when there is no PR and none may be opened.
pub fn missing_pr_message(branch: &str, target_branch: &str) -> (r: String)
    ensures
        r@ == missing_pr_text(branch@, target_branch@),
{
    "wt merge expected an open PR for branch '".to_owned().concat(branch).concat(
        "' targeting '",
    ).concat(target_branch).concat(
        "', and `auto_open_pr_if_missing` is disabled. Either open one manually (`gh pr create --head ",
    ).concat(branch).concat(" --base ").concat(target_branch).concat(
        "`) or set `[merge] auto_open_pr_if_missing = true` in wt config.",
    )
}

/// The PR number in `s`, which is the number itself or a URL that holds it:
/// the last slash-separated part, white space at the ends aside, that is a
/// number.
pub open spec fn pr_number_in(s: Seq<char>) -> Option<u32> {
    last_number(trimmed(s))
}

/// Reads a PR number from the number itself or from the URL that `gh pr create`
/// prints, such as `https://github.com/owner/repo/pull/704`.
pub fn parse_pr_number_from_url(url_or_number: &str) -> (r: Option<u32>)
    ensures
        r == pr_number_in(url_or_number@),
{
    find_last_number(trim(url_or_number))
}

/// What is reported when a new PR's number cannot be read, given how the
/// output is shown.
pub open spec fn unread_url(shown_output: Seq<char>) -> FaultView {
    plain("failed to parse PR number from gh output: "@ + shown_output)
}

/// The number of a new PR, read from what `gh pr create` printed.
pub open spec fn created_pr(output: Seq<char>) -> Result<u32, FaultView> {
    match pr_number_in(output) {
        Some(n) => Ok(n),
        None => Err(unread_url(quoted_text(output))),
    }
}

/// What is reported when a new PR's number cannot be read.
pub fn unread_url_fault(shown_output: &str) -> (r: Fault)
    ensures
        r@ == unread_url(shown_output@),
{
    Fault::new("failed to parse PR number from gh output: ".to_owned().concat(shown_output))
}

/// The number of a new PR, read from what `gh pr create` printed.
pub fn read_created_pr(output: &str) -> (r: Result<u32, Fault>)
    ensures
        result_view(r) == created_pr(output@),
{
    match parse_pr_number_from_url(output) {
        Some(n) => Ok(n),
        None => {
            let shown = quoted(output);
            Err(unread_url_fault(shown.as_str()))
        },
    }
}

/// What is reported when a listed PR number cannot be read, given how it is
/// shown.
pub open spec fn unread_number(shown_number: Seq<char>, e: NumberError) -> FaultView {
    number_fault(e).within("failed to parse PR number: "@ + shown_number)
}

/// The open PR that a listing names, if it names one.
pub open spec fn listed_pr(reply: ReplyView) -> Result<Option<u32>, FaultView> {
    match reply {
        ReplyView::Failure { fault, .. } => Err(fault),
        ReplyView::Output(output) => {
            let t = trimmed(output);
            if t.len() == 0 {
                Ok(None)
            } else {
                match number(t) {
                    Ok(n) => Ok(Some(n)),
                    Err(e) => Err(unread_number(quoted_text(t), e)),
                }
            }
        },
    }
}

/// What is reported when a listed PR number cannot be read.
pub fn unread_number_fault(shown_number: &str, e: NumberError) -> (r: Fault)
    ensures
        r@ == unread_number(shown_number@, e),
{
    let context = "failed to parse PR number: ".to_owned().concat(shown_number);
    Fault::of_number(e).within(context.as_str())
}

/// Reads the open PR from the reply to a listing.
pub fn read_listed_pr(reply: Reply) -> (r: Result<Option<u32>, Fault>)
    ensures
        result_view(r) == listed_pr(reply@),
{
    match reply {
        Reply::Failure { fault, .. } => Err(fault),
        Reply::Output(output) => {
            let t = trim(output.as_str());
            if t.is_empty() {
                Ok(None)
            } else {
                match parse_number(t) {
                    Ok(n) => Ok(Some(n)),
                    Err(e) => {
                        let shown = quoted(t);
                        Err(unread_number_fault(shown.as_str(), e))
                    },
                }
            }
        },
    }
}

/// The number of a PR is read from the URL that ends in it, whatever comes
/// before, and whatever white space follows.
pub proof fn the_number_of_a_url_is_read(before: Seq<char>, pr: u32, blank: Seq<char>)
    requires
        forall|k: int| 0 <= k < blank.len() ==> is_white(#[trigger] blank[k]),
    ensures
        pr_number_in(before + seq!['/'] + decimal(pr as nat) + blank) == Some(pr),
        created_pr(before + seq!['/'] + decimal(pr as nat) + blank) == Ok::<u32, FaultView>(pr),
{
    the_number_at_the_end_is_read(before, pr, blank);
}

/// The message of an aborted merge names both branches.
pub proof fn the_abort_message_names_both_branches(branch: Seq<char>, target_branch: Seq<char>)
    ensures
        occurs_in(branch, abort_text(branch, target_branch)),
        occurs_in(target_branch, abort_text(branch, target_branch)),
{
    let last =
        "-v2 --title ... --body ...\nOr re-run with `[merge] on_diverged_remote = \"remote-squash\"` or `\"restack\"`."@;
    let to_base = "remote branch 'origin/"@ + branch
        + "' has commits not in the local squash; merge aborted. To recover manually:\ngit branch "@
        + branch + "-v2 HEAD\ngit push -u origin "@ + branch
        + "-v2\ngh pr close <old-pr-number> --comment 'Superseded by "@ + branch
        + "-v2'\ngh pr create --base "@;
    let to_target = to_base + target_branch;
    let to_head = to_target + " --head "@;
    lemma_ends_with(to_base, target_branch);
    lemma_continues(target_branch, to_target, " --head "@);
    lemma_continues(target_branch, to_head, branch);
    lemma_continues(target_branch, to_head + branch, last);
    lemma_ends_with(to_head, branch);
    lemma_continues(branch, to_head + branch, last);
}

/// The body of a replacement names the branch and, if there is one, the PR that
/// it supersedes.
pub proof fn a_replacement_names_what_it_supersedes(
    original_branch: Seq<char>,
    closed_pr: Option<u32>,
)
    ensures
        occurs_in(original_branch, supersession_text(original_branch, closed_pr)),
        occurs_in(supersession_note(closed_pr), supersession_text(original_branch, closed_pr)),
{
    let note = supersession_note(closed_pr);
    let to_branch = note + "\n\nOriginal branch: `"@;
    let last =
        "`. Tree unchanged; squashed into a single commit for clean main history. Opened automatically by `wt merge` after detecting a non-fast-forward remote state."@;
    lemma_ends_with(to_branch, original_branch);
    lemma_continues(original_branch, to_branch + original_branch, last);
    lemma_ends_with(Seq::empty(), note);
    assert(Seq::<char>::empty() + note =~= note);
    lemma_continues(note, note, "\n\nOriginal branch: `"@);
    lemma_continues(note, to_branch, original_branch);
    lemma_continues(note, to_branch + original_branch, last);
}

/// What the user is told of a missing PR names both branches, and so does the
/// body of one that is opened for want of it.
pub proof fn a_missing_pr_is_told_by_both_branches(branch: Seq<char>, target_branch: Seq<char>)
    ensures
        occurs_in(branch, missing_pr_text(branch, target_branch)),
        occurs_in(target_branch, missing_pr_text(branch, target_branch)),
        occurs_in(branch, opening_text(branch, target_branch)),
        occurs_in(target_branch, opening_text(branch, target_branch)),
{
    let last = "`) or set `[merge] auto_open_pr_if_missing = true` in wt config."@;
    let to_branch = "wt merge expected an open PR for branch '"@ + branch + "' targeting '"@
        + target_branch
        + "', and `auto_open_pr_if_missing` is disabled. Either open one manually (`gh pr create --head "@;
    let to_base = to_branch + branch + " --base "@;
    lemma_ends_with(to_branch, branch);
    lemma_continues(branch, to_branch + branch, " --base "@);
    lemma_continues(branch, to_base, target_branch);
    lemma_continues(branch, to_base + target_branch, last);
    lemma_ends_with(to_base, target_branch);
    lemma_continues(target_branch, to_base + target_branch, last);
    let first =
        "Auto-opened by `wt merge` for remote-squash reconciliation. Feature branch `"@;
    let middle =
        "` has pre-squash commits on origin; server-side squash-merge will collapse them into one commit on `"@;
    lemma_ends_with(first, branch);
    lemma_continues(branch, first + branch, middle);
    lemma_continues(branch, first + branch + middle, target_branch);
    lemma_continues(branch, first + branch + middle + target_branch, "`."@);
    lemma_ends_with(first + branch + middle, target_branch);
    lemma_continues(target_branch, first + branch + middle + target_branch, "`."@);
}

/// The comment under which a PR is closed names the branch that takes its place,
/// and the note of the one that supersedes it gives its number.
pub proof fn a_closed_pr_and_its_replacement_point_at_each_other(
    new_branch: Seq<char>,
    closed_pr: u32,
)
    ensures
        occurs_in(new_branch, closing_text(new_branch)),
        occurs_in("#"@ + decimal(closed_pr as nat) + "."@, supersession_note(Some(closed_pr))),
{
    let first =
        "Superseded by replacement branch after wt merge local-squash / remote-history collision. Tree unchanged; recreated on `"@;
    lemma_ends_with(first, new_branch);
    lemma_continues(new_branch, first + new_branch, "` with a single squash commit."@);
    reveal_strlit("Supersedes #");
    reveal_strlit("#");
    let number = "#"@ + decimal(closed_pr as nat) + "."@;
    let before = "Supersedes #"@.take(11);
    assert(before + number =~= supersession_note(Some(closed_pr)));
    lemma_ends_with(before, number);
}

/// A listing names a PR exactly by its number: a blank one names none, a number
/// names that PR, and anything else is an error.
pub proof fn a_listing_names_a_pr_by_its_number(output: Seq<char>)
    ensures
        trimmed(output).len() == 0 <==> listed_pr(ReplyView::Output(output)) == Ok::<
            Option<u32>,
            FaultView,
        >(None),
        trimmed(output).len() > 0 ==> match number(trimmed(output)) {
            Ok(n) => listed_pr(ReplyView::Output(output)) == Ok::<Option<u32>, FaultView>(Some(n)),
            Err(_) => listed_pr(ReplyView::Output(output)) is Err,
        },
{
}

/// The number of a PR that was just opened is the last part of the output, white
/// space at its ends aside, that is a number; without one there is an error.
pub proof fn a_created_pr_is_named_by_its_number(output: Seq<char>)
    ensures
        created_pr(output) is Ok <==> last_number(trimmed(output)) is Some,
        created_pr(output) matches Ok(n) ==> last_number(trimmed(output)) == Some(n),
        pr_number_in(output) == last_number(trimmed(output)),
{
}

/// The message of an aborted merge says how to recover, with each branch in its
/// role: what to create and push, and a PR from there onto the target.
pub proof fn the_abort_message_says_how_to_recover(branch: Seq<char>, target_branch: Seq<char>)
    ensures
        occurs_in("remote branch 'origin/"@ + branch + "'"@, abort_text(branch, target_branch)),
        occurs_in("git branch "@ + branch + "-v2 HEAD\n"@, abort_text(branch, target_branch)),
        occurs_in(
            "git push -u origin "@ + branch + "-v2\n"@,
            abort_text(branch, target_branch),
        ),
        occurs_in("Superseded by "@ + branch + "-v2'"@, abort_text(branch, target_branch)),
        occurs_in(
            "gh pr create --base "@ + target_branch + " --head "@ + branch + "-v2 "@,
            abort_text(branch, target_branch),
        ),
{
    let l1 = "remote branch 'origin/"@;
    let l2 =
        "' has commits not in the local squash; merge aborted. To recover manually:\ngit branch "@;
    let l3 = "-v2 HEAD\ngit push -u origin "@;
    let l4 = "-v2\ngh pr close <old-pr-number> --comment 'Superseded by "@;
    let l5 = "-v2'\ngh pr create --base "@;
    let l6 = " --head "@;
    let l7 =
        "-v2 --title ... --body ...\nOr re-run with `[merge] on_diverged_remote = \"remote-squash\"` or `\"restack\"`."@;
    let text = abort_text(branch, target_branch);
    lemma_abort_pieces();
    let none = Seq::<char>::empty();
    let end5 = l6 + branch + l7;
    let end4 = target_branch + end5;
    let end3 = branch + l5 + end4;
    let end2 = branch + l4 + end3;
    assert(text =~= none + l1 + branch + l2 + (branch + l3 + end2));
    lemma_spans(none, l1, branch, l2, branch + l3 + end2, l1.len() as int, 1);
    assert(l1.skip(0) =~= l1);
    let to2 = l1 + branch;
    assert(text =~= to2 + l2 + branch + l3 + end2);
    lemma_spans(to2, l2, branch, l3, end2, 11, 9);
    let to3 = to2 + l2 + branch;
    assert(text =~= to3 + l3 + branch + l4 + end3);
    lemma_spans(to3, l3, branch, l4, end3, 19, 4);
    let to4 = to3 + l3 + branch;
    assert(text =~= to4 + l4 + branch + l5 + end4);
    lemma_spans(to4, l4, branch, l5, end4, 14, 4);
    let to5 = to4 + l4 + branch;
    let whole = target_branch + l6 + branch;
    assert(text =~= to5 + l5 + whole + l7 + none);
    lemma_spans(to5, l5, whole, l7, none, 20, 4);
    assert("gh pr create --base "@ + target_branch + " --head "@ + branch + "-v2 "@
        =~= "gh pr create --base "@ + whole + "-v2 "@);
}

/// How the fixed parts of the message begin and end.
proof fn lemma_abort_pieces()
    ensures
        ({
            let l2 =
                "' has commits not in the local squash; merge aborted. To recover manually:\ngit branch "@;
            let l3 = "-v2 HEAD\ngit push -u origin "@;
            let l4 = "-v2\ngh pr close <old-pr-number> --comment 'Superseded by "@;
            let l5 = "-v2'\ngh pr create --base "@;
            let l7 =
                "-v2 --title ... --body ...\nOr re-run with `[merge] on_diverged_remote = \"remote-squash\"` or `\"restack\"`."@;
            &&& l2.len() >= 11 && l2.take(1) == "'"@ && l2.skip(l2.len() - 11) == "git branch "@
            &&& l3.len() >= 19 && l3.take(9) == "-v2 HEAD\n"@ && l3.skip(l3.len() - 19)
                == "git push -u origin "@
            &&& l4.len() >= 14 && l4.take(4) == "-v2\n"@ && l4.skip(l4.len() - 14)
                == "Superseded by "@
            &&& l5.len() >= 20 && l5.take(4) == "-v2'"@ && l5.skip(l5.len() - 20)
                == "gh pr create --base "@
            &&& l7.len() >= 4 && l7.take(4) == "-v2 "@
        }),
{
    reveal_strlit("'");
    reveal_strlit("git branch ");
    reveal_strlit("-v2 HEAD\n");
    reveal_strlit("git push -u origin ");
    reveal_strlit("-v2\n");
    reveal_strlit("Superseded by ");
    reveal_strlit("-v2'");
    reveal_strlit("gh pr create --base ");
    reveal_strlit("-v2 ");
    reveal_strlit(
        "' has commits not in the local squash; merge aborted. To recover manually:\ngit branch ",
    );
    reveal_strlit("-v2 HEAD\ngit push -u origin ");
    reveal_strlit("-v2\ngh pr close <old-pr-number> --comment 'Superseded by ");
    reveal_strlit("-v2'\ngh pr create --base ");
    reveal_strlit(
        "-v2 --title ... --body ...\nOr re-run with `[merge] on_diverged_remote = \"remote-squash\"` or `\"restack\"`.",
    );
}

/// What is told of a missing PR gives each branch its role: the PR is one from
/// the branch onto the target.
pub proof fn a_missing_pr_is_one_onto_the_target(branch: Seq<char>, target_branch: Seq<char>)
    ensures
        occurs_in(
            "for branch '"@ + branch + "' targeting '"@ + target_branch + "'"@,
            missing_pr_text(branch, target_branch),
        ),
        occurs_in(
            "gh pr create --head "@ + branch + " --base "@ + target_branch + "`"@,
            missing_pr_text(branch, target_branch),
        ),
        occurs_in("Feature branch `"@ + branch + "`"@, opening_text(branch, target_branch)),
        occurs_in("one commit on `"@ + target_branch + "`"@, opening_text(branch, target_branch)),
{
    lemma_missing_pieces();
    let none = Seq::<char>::empty();
    let l1 = "wt merge expected an open PR for branch '"@;
    let l2 = "' targeting '"@;
    let l3 =
        "', and `auto_open_pr_if_missing` is disabled. Either open one manually (`gh pr create --head "@;
    let l4 = " --base "@;
    let l5 = "`) or set `[merge] auto_open_pr_if_missing = true` in wt config."@;
    let text = missing_pr_text(branch, target_branch);
    let first = branch + l2 + target_branch;
    let second = branch + l4 + target_branch;
    assert(text =~= none + l1 + first + l3 + (second + l5));
    lemma_spans(none, l1, first, l3, second + l5, 12, 1);
    assert(text =~= (l1 + first) + l3 + second + l5 + none);
    lemma_spans(l1 + first, l3, second, l5, none, 20, 1);
    assert("for branch '"@ + branch + "' targeting '"@ + target_branch + "'"@ =~= "for branch '"@
        + first + "'"@);
    assert("gh pr create --head "@ + branch + " --base "@ + target_branch + "`"@
        =~= "gh pr create --head "@ + second + "`"@);
    let m1 = "Auto-opened by `wt merge` for remote-squash reconciliation. Feature branch `"@;
    let m2 =
        "` has pre-squash commits on origin; server-side squash-merge will collapse them into one commit on `"@;
    let body = opening_text(branch, target_branch);
    assert(body =~= none + m1 + branch + m2 + (target_branch + "`."@));
    lemma_spans(none, m1, branch, m2, target_branch + "`."@, 16, 1);
    assert(body =~= (m1 + branch) + m2 + target_branch + "`."@ + none);
    lemma_spans(m1 + branch, m2, target_branch, "`."@, none, 15, 1);
}

/// How the fixed parts of these texts begin and end.
proof fn lemma_missing_pieces()
    ensures
        ({
            let l1 = "wt merge expected an open PR for branch '"@;
            let l3 =
                "', and `auto_open_pr_if_missing` is disabled. Either open one manually (`gh pr create --head "@;
            let l5 = "`) or set `[merge] auto_open_pr_if_missing = true` in wt config."@;
            let m1 =
                "Auto-opened by `wt merge` for remote-squash reconciliation. Feature branch `"@;
            let m2 =
                "` has pre-squash commits on origin; server-side squash-merge will collapse them into one commit on `"@;
            &&& l1.len() >= 12 && l1.skip(l1.len() - 12) == "for branch '"@
            &&& l3.len() >= 20 && l3.take(1) == "'"@ && l3.skip(l3.len() - 20)
                == "gh pr create --head "@
            &&& l5.len() >= 1 && l5.take(1) == "`"@
            &&& m1.len() >= 16 && m1.skip(m1.len() - 16) == "Feature branch `"@
            &&& m2.len() >= 15 && m2.take(1) == "`"@ && m2.skip(m2.len() - 15)
                == "one commit on `"@
            &&& "`."@.len() >= 1 && "`."@.take(1) == "`"@
        }),
{
    reveal_strlit("for branch '");
    reveal_strlit("'");
    reveal_strlit("gh pr create --head ");
    reveal_strlit("`");
    reveal_strlit("Feature branch `");
    reveal_strlit("one commit on `");
    reveal_strlit("`.");
    reveal_strlit("wt merge expected an open PR for branch '");
    reveal_strlit(
        "', and `auto_open_pr_if_missing` is disabled. Either open one manually (`gh pr create --head ",
    );
    reveal_strlit("`) or set `[merge] auto_open_pr_if_missing = true` in wt config.");
    reveal_strlit("Auto-opened by `wt merge` for remote-squash reconciliation. Feature branch `");
    reveal_strlit(
        "` has pre-squash commits on origin; server-side squash-merge will collapse them into one commit on `",
    );
}

/// A PR that was superseded and the one that supersedes it say by which branch
/// and of which branch.
pub proof fn a_replacement_says_what_of(
    original_branch: Seq<char>,
    new_branch: Seq<char>,
    closed_pr: Option<u32>,
)
    ensures
        occurs_in(
            "Original branch: `"@ + original_branch + "`"@,
            supersession_text(original_branch, closed_pr),
        ),
        occurs_in("recreated on `"@ + new_branch + "`"@, closing_text(new_branch)),
        closed_pr is None ==> supersession_note(closed_pr)
            == "No prior PR found; this PR replaces the local-squash attempt."@,
{
    let none = Seq::<char>::empty();
    let l1 = "\n\nOriginal branch: `"@;
    let l2 =
        "`. Tree unchanged; squashed into a single commit for clean main history. Opened automatically by `wt merge` after detecting a non-fast-forward remote state."@;
    let m1 =
        "Superseded by replacement branch after wt merge local-squash / remote-history collision. Tree unchanged; recreated on `"@;
    let m2 = "` with a single squash commit."@;
    assert(l1.len() >= 18 && l1.skip(l1.len() - 18) =~= "Original branch: `"@) by {
        reveal_strlit("\n\nOriginal branch: `");
        reveal_strlit("Original branch: `");
    }
    assert(l2.len() >= 1 && l2.take(1) =~= "`"@) by {
        reveal_strlit("`");
        reveal_strlit(
            "`. Tree unchanged; squashed into a single commit for clean main history. Opened automatically by `wt merge` after detecting a non-fast-forward remote state.",
        );
    }
    assert(m1.len() >= 14 && m1.skip(m1.len() - 14) =~= "recreated on `"@) by {
        reveal_strlit("recreated on `");
        reveal_strlit(
            "Superseded by replacement branch after wt merge local-squash / remote-history collision. Tree unchanged; recreated on `",
        );
    }
    assert(m2.len() >= 1 && m2.take(1) =~= "`"@) by {
        reveal_strlit("`");
        reveal_strlit("` with a single squash commit.");
    }
    let note = supersession_note(closed_pr);
    assert(supersession_text(original_branch, closed_pr) =~= note + l1 + original_branch + l2
        + none);
    lemma_spans(note, l1, original_branch, l2, none, 18, 1);
    assert(closing_text(new_branch) =~= none + m1 + new_branch + m2 + none);
    lemma_spans(none, m1, new_branch, m2, none, 14, 1);
}

/// What could not be read is shown.
pub proof fn what_could_not_be_read_is_shown(shown: Seq<char>, e: NumberError)
    ensures
        occurs_in(shown, unread_url(shown).message),
        occurs_in(shown, unread_number(shown, e).message),
        unread_number(shown, e).told().skip(1) == number_fault(e).told(),
{
    lemma_ends_with("failed to parse PR number from gh output: "@, shown);
    lemma_ends_with("failed to parse PR number: "@, shown);
    assert(unread_number(shown, e).told().skip(1) =~= number_fault(e).told());
}

} // verus!
