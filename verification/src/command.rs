//! The commands that a plan asks for, and what comes back.

use vstd::prelude::*;
use crate::fault::{Fault, FaultView, plain};
use crate::text::{
    bracketed, lemma_continues, lemma_ends_with, listed, occurs_in, quoted_list, quoted_text, trim,
    trimmed, views, words,
};

verus! {

/// The program that a command runs.
#[derive(Debug, Clone, Copy, PartialEq, Eq, Structural)]
pub enum Program {
    /// `git`, in the current worktree.
    Git,
    /// The GitHub command line client, in the current worktree.
    Gh,
}

/// A command line.
#[derive(Debug, Clone, PartialEq, Eq)]
pub struct Command {
    pub program: Program,
    pub args: Vec<String>,
}

/// The content of a [`Command`].
#[verifier::ext_equal]
pub struct CommandView {
    pub program: Program,
    pub args: Seq<Seq<char>>,
}

impl View for Command {
    type V = CommandView;

    open spec fn view(&self) -> CommandView {
        CommandView { program: self.program, args: views(self.args@) }
    }
}

/// What a command came to: what it printed, or why it failed.
#[derive(Debug, Clone, PartialEq, Eq)]
pub enum Reply {
    Output(String),
    /// `complaint` is what the program itself said of its failure. It is empty
    /// where the program said nothing or did not run.
    Failure { fault: Fault, complaint: String },
}

/// The content of a [`Reply`].
#[verifier::ext_equal]
pub enum ReplyView {
    Output(Seq<char>),
    Failure { fault: FaultView, complaint: Seq<char> },
}

impl View for Reply {
    type V = ReplyView;

    open spec fn view(&self) -> ReplyView {
        match self {
            Reply::Output(text) => ReplyView::Output(text@),
            Reply::Failure { fault, complaint } => ReplyView::Failure {
                fault: fault@,
                complaint: complaint@,
            },
        }
    }
}

/// A `git` command.
pub open spec fn git(args: Seq<Seq<char>>) -> CommandView {
    CommandView { program: Program::Git, args }
}

/// A `gh` command.
pub open spec fn gh(args: Seq<Seq<char>>) -> CommandView {
    CommandView { program: Program::Gh, args }
}

/// The views of a list of words.
pub open spec fn word_views(parts: Seq<&str>) -> Seq<Seq<char>> {
    parts.map_values(|p: &str| p@)
}

pub(crate) fn git_command(args: &[&str]) -> (r: Command)
    ensures
        r@ == git(word_views(args@)),
{
    Command { program: Program::Git, args: words(args) }
}

pub(crate) fn gh_command(args: &[&str]) -> (r: Command)
    ensures
        r@ == gh(word_views(args@)),
{
    Command { program: Program::Gh, args: words(args) }
}

/// What is reported when `gh` ends unsuccessfully, given how its arguments are
/// shown.
pub open spec fn gh_failure(shown_args: Seq<char>, stderr: Seq<char>) -> FaultView {
    plain("gh "@ + shown_args + " failed: "@ + trimmed(stderr))
}

/// Arguments as a debug print of the list shows them.
pub open spec fn shown(args: Seq<Seq<char>>) -> Seq<char> {
    bracketed(args.map_values(|s: Seq<char>| quoted_text(s)))
}

/// The failure of a `gh` that ended unsuccessfully.
pub fn gh_fault(shown_args: &str, stderr: &str) -> (r: Fault)
    ensures
        r@ == gh_failure(shown_args@, stderr@),
{
    Fault::new("gh ".to_owned().concat(shown_args).concat(" failed: ").concat(trim(stderr)))
}

/// What a `gh` that ran came to, given what it wrote.
pub open spec fn gh_outcome(
    args: Seq<Seq<char>>,
    success: bool,
    stdout: Seq<char>,
    stderr: Seq<char>,
) -> ReplyView {
    if success {
        ReplyView::Output(stdout)
    } else {
        ReplyView::Failure {
            fault: gh_failure(shown(args), stderr),
            complaint: trimmed(stderr),
        }
    }
}

/// What a `gh` that ran came to: what it printed if it ended successfully, and
/// otherwise a failure that shows its arguments and its complaint.
pub fn gh_reply(args: &Vec<String>, success: bool, stdout: String, stderr: &str) -> (r: Reply)
    ensures
        r@ == gh_outcome(views(args@), success, stdout@, stderr@),
{
    if success {
        Reply::Output(stdout)
    } else {
        let list = quoted_list(args);
        Reply::Failure {
            fault: gh_fault(list.as_str(), stderr),
            complaint: trim(stderr).to_owned(),
        }
    }
}

/// What a `gh` that could not be started came to.
pub fn gh_not_started(cause: Fault) -> (r: Reply)
    ensures
        r@ == (ReplyView::Failure {
            fault: cause@.within("failed to spawn gh; is the GitHub CLI installed?"@),
            complaint: Seq::empty(),
        }),
{
    let complaint = String::new();
    assert(complaint@ =~= Seq::<char>::empty());
    Reply::Failure {
        fault: cause.within("failed to spawn gh; is the GitHub CLI installed?"),
        complaint,
    }
}

/// What `gh` came to is its output exactly if it ended successfully. A failure
/// carries what it complained of, white space at the ends aside, and tells it
/// after what was run.
pub proof fn a_failed_gh_complains(
    args: Seq<Seq<char>>,
    success: bool,
    stdout: Seq<char>,
    stderr: Seq<char>,
)
    ensures
        success ==> gh_outcome(args, success, stdout, stderr) == ReplyView::Output(stdout),
        !success ==> (gh_outcome(args, success, stdout, stderr) matches ReplyView::Failure {
            fault,
            complaint,
        } && complaint == trimmed(stderr) && fault.causes.len() == 0 && occurs_in(
            trimmed(stderr),
            fault.message,
        ) && occurs_in(shown(args), fault.message)),
{
    let first = "gh "@;
    let middle = " failed: "@;
    lemma_ends_with(first + shown(args) + middle, trimmed(stderr));
    lemma_ends_with(first, shown(args));
    lemma_continues(shown(args), first + shown(args), middle);
    lemma_continues(shown(args), first + shown(args) + middle, trimmed(stderr));
}

/// Arguments are shown in the order in which they are given, each in quotes.
pub proof fn arguments_are_shown_in_quotes(args: Seq<Seq<char>>)
    ensures
        shown(args) == "["@ + listed(Seq::new(args.len(), |i: int| quoted_text(args[i]))) + "]"@,
{
    assert(args.map_values(|s: Seq<char>| quoted_text(s)) =~= Seq::new(
        args.len(),
        |i: int| quoted_text(args[i]),
    ));
}

} // verus!
