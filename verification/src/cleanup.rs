//! Cleaning up worktrees.
//!
//! The classified worktrees make a plan. Without a confirmation the plan is all
//! there is; with one, each worktree that may go is removed in turn. One that
//! cannot be removed does not keep the others from going.

use vstd::prelude::*;
use crate::answer::{Answer, AnswerView};
use crate::clean::{
    Classification, CleanEntry, CleanOptions, EntryView, action_for, count_picked, entry_views,
    picked,
};
use crate::command::{Command, CommandView, git, git_command};
use crate::fault::{Fault, FaultView};
use crate::removal::BranchDeletionMode;
use crate::text::{copied, decimal, decimal_text, optional};

verus! {

/// A line for the user.
#[derive(Debug, Clone, PartialEq, Eq)]
pub enum Line {
    /// Shown as a message.
    Info(String),
    /// Shown as it is.
    Plain(String),
}

/// The content of a [`Line`].
#[verifier::ext_equal]
pub enum LineView {
    Info(Seq<char>),
    Plain(Seq<char>),
}

impl View for Line {
    type V = LineView;

    open spec fn view(&self) -> LineView {
        match self {
            Line::Info(text) => LineView::Info(text@),
            Line::Plain(text) => LineView::Plain(text@),
        }
    }
}

/// The contents of a list of lines.
pub open spec fn line_views(lines: Seq<Line>) -> Seq<LineView> {
    lines.map_values(|l: Line| l@)
}

/// A worktree that could not be cleaned, by its path, and why.
#[derive(Debug, Clone, PartialEq, Eq)]
pub struct CleanFailure {
    pub path_id: usize,
    pub error: String,
}

/// The content of a [`CleanFailure`].
#[verifier::ext_equal]
pub struct FailureView {
    pub path_id: int,
    pub error: Seq<char>,
}

impl View for CleanFailure {
    type V = FailureView;

    open spec fn view(&self) -> FailureView {
        FailureView { path_id: self.path_id as int, error: self.error@ }
    }
}

/// The contents of a list of failures.
pub open spec fn failure_views(failures: Seq<CleanFailure>) -> Seq<FailureView> {
    failures.map_values(|f: CleanFailure| f@)
}

/// What a cleanup asks for.
#[derive(Debug, PartialEq, Eq)]
pub enum CleanAction {
    /// Run a command.
    Prune(Command),
    /// Remove a worktree, and its branch if it has one.
    Remove {
        path: String,
        branch: Option<String>,
        mode: BranchDeletionMode,
        target_branch: String,
        force_worktree: bool,
    },
}

/// The content of a [`CleanAction`].
#[verifier::ext_equal]
pub enum CleanActionView {
    Prune(CommandView),
    Remove {
        path: Seq<char>,
        branch: Option<Seq<char>>,
        mode: BranchDeletionMode,
        target_branch: Seq<char>,
        force_worktree: bool,
    },
}

impl View for CleanAction {
    type V = CleanActionView;

    open spec fn view(&self) -> CleanActionView {
        match self {
            CleanAction::Prune(command) => CleanActionView::Prune(command@),
            CleanAction::Remove { path, branch, mode, target_branch, force_worktree } => {
                CleanActionView::Remove {
                    path: path@,
                    branch: optional(*branch),
                    mode: *mode,
                    target_branch: target_branch@,
                    force_worktree: *force_worktree,
                }
            },
        }
    }
}

/// A cleanup under way. It stands before one of the worktrees that go.
#[derive(Debug, Clone, PartialEq, Eq)]
pub struct CleanRun {
    force: bool,
    /// Whether nothing is shown on the way.
    json: bool,
    target_branch: String,
    entries: Vec<CleanEntry>,
    failures: Vec<CleanFailure>,
    index: usize,
}

/// The content of a [`CleanRun`].
#[verifier::ext_equal]
pub struct CleanView {
    pub force: bool,
    pub json: bool,
    pub target_branch: Seq<char>,
    pub entries: Seq<EntryView>,
    pub failures: Seq<FailureView>,
    pub index: int,
}

impl View for CleanRun {
    type V = CleanView;

    closed spec fn view(&self) -> CleanView {
        CleanView {
            force: self.force,
            json: self.json,
            target_branch: self.target_branch@,
            entries: entry_views(self.entries@),
            failures: failure_views(self.failures@),
            index: self.index as int,
        }
    }
}

/// What a cleanup came to.
#[derive(Debug, Clone, PartialEq, Eq)]
pub struct CleanEnd {
    pub force: bool,
    pub json: bool,
    pub entries: Vec<CleanEntry>,
    pub failures: Vec<CleanFailure>,
}

/// The content of a [`CleanEnd`].
#[verifier::ext_equal]
pub struct CleanEndView {
    pub force: bool,
    pub json: bool,
    pub entries: Seq<EntryView>,
    pub failures: Seq<FailureView>,
}

impl View for CleanEnd {
    type V = CleanEndView;

    open spec fn view(&self) -> CleanEndView {
        CleanEndView {
            force: self.force,
            json: self.json,
            entries: entry_views(self.entries@),
            failures: failure_views(self.failures@),
        }
    }
}

/// Lines for the user, and the way on.
#[derive(Debug, Clone, PartialEq, Eq)]
pub struct CleanStep {
    pub lines: Vec<Line>,
    pub to: CleanWay,
}

/// The way on.
#[derive(Debug, Clone, PartialEq, Eq)]
pub enum CleanWay {
    /// There is a worktree to clean.
    Next(CleanRun),
    /// The cleanup is over.
    Done(CleanEnd),
}

/// The content of a [`CleanStep`].
#[verifier::ext_equal]
pub struct CleanStepView {
    pub lines: Seq<LineView>,
    pub to: CleanWayView,
}

/// The content of a [`CleanWay`].
#[verifier::ext_equal]
pub enum CleanWayView {
    Next(CleanView),
    Done(CleanEndView),
}

impl View for CleanWay {
    type V = CleanWayView;

    open spec fn view(&self) -> CleanWayView {
        match self {
            CleanWay::Next(run) => CleanWayView::Next(run@),
            CleanWay::Done(end) => CleanWayView::Done(end@),
        }
    }
}

impl View for CleanStep {
    type V = CleanStepView;

    open spec fn view(&self) -> CleanStepView {
        CleanStepView { lines: line_views(self.lines@), to: self.to@ }
    }
}

impl EntryView {
    /// The line of the plan for a worktree.
    pub open spec fn plan_line(self, force: bool) -> LineView {
        LineView::Plain(
            "  ["@ + self.class.action(force) + "] "@ + self.path + " — "@ + self.class.label()
                + " ("@ + (match self.branch {
                Some(branch) => branch,
                None => "(detached)"@,
            }) + ")"@,
        )
    }

    /// What is shown of a worktree that was cleaned.
    pub open spec fn cleaned_line(self) -> LineView {
        LineView::Info("Cleaned "@ + self.path + " ("@ + self.class.label() + ")"@)
    }

    /// What is shown of a worktree that could not be cleaned.
    pub open spec fn failed_line(self, error: Seq<char>) -> LineView {
        LineView::Info(
            "Failed to clean "@ + self.path + " ("@ + self.class.label() + "): "@ + error,
        )
    }

    /// How the reason for a failure is reported.
    pub open spec fn error(self, fault: FaultView) -> Seq<char> {
        if self.class is Prunable {
            fault.within("git worktree prune failed"@).message
        } else {
            fault.message
        }
    }
}

/// The plan in words.
pub open spec fn plan_lines(entries: Seq<EntryView>, force: bool) -> Seq<LineView> {
    seq![LineView::Info("wt clean — plan:"@)] + entries.map_values(
        |e: EntryView| e.plan_line(force),
    )
}

/// What is shown where nothing is removed.
pub open spec fn declined_line(count: nat, dry_run: bool) -> LineView {
    LineView::Info(
        if count == 0 {
            "Nothing to clean."@
        } else if dry_run {
            "Dry run — would clean "@ + decimal(count)
                + " worktree(s). Re-run without --dry-run to apply."@
        } else {
            "Would clean "@ + decimal(count) + " worktree(s). Re-run with --yes to confirm."@
        },
    )
}

/// The first worktree that goes, from some place on; the number of worktrees if
/// there is none.
pub open spec fn next_from(entries: Seq<EntryView>, force: bool, k: int) -> int
    decreases entries.len() - k,
{
    if k >= entries.len() {
        entries.len() as int
    } else if entries[k].class.goes(force) {
        k
    } else {
        next_from(entries, force, k + 1)
    }
}

/// How a cleanup begins.
pub open spec fn opening(
    opts: CleanOptions,
    target_branch: Seq<char>,
    entries: Seq<EntryView>,
) -> CleanStepView {
    let count = picked(entries, opts.force).len();
    let plan = if opts.json {
        Seq::empty()
    } else {
        plan_lines(entries, opts.force)
    };
    if count > 0 && opts.yes && !opts.dry_run {
        CleanStepView {
            lines: plan,
            to: CleanWayView::Next(
                CleanView {
                    force: opts.force,
                    json: opts.json,
                    target_branch,
                    entries,
                    failures: Seq::empty(),
                    index: next_from(entries, opts.force, 0),
                },
            ),
        }
    } else {
        CleanStepView {
            lines: if opts.json {
                plan
            } else {
                plan.push(declined_line(count, opts.dry_run))
            },
            to: CleanWayView::Done(
                CleanEndView {
                    force: opts.force,
                    json: opts.json,
                    entries,
                    failures: Seq::empty(),
                },
            ),
        }
    }
}

/// What is asked for to clean a worktree. Where the directory is gone only the
/// metadata is cleared: the branch may still hold work.
pub open spec fn cleaned_by(
    entry: EntryView,
    target_branch: Seq<char>,
    force: bool,
) -> CleanActionView {
    if entry.class is Prunable {
        CleanActionView::Prune(git(seq!["worktree"@, "prune"@]))
    } else {
        CleanActionView::Remove {
            path: entry.path,
            branch: entry.branch,
            mode: if force {
                BranchDeletionMode::ForceDelete
            } else {
                BranchDeletionMode::SafeDelete
            },
            target_branch,
            force_worktree: force,
        }
    }
}

impl CleanView {
    /// Where the worktree that the cleanup stands before has its place in the
    /// plan.
    pub open spec fn position(self) -> int {
        self.index
    }

    /// The worktree that the cleanup stands before.
    pub open spec fn entry(self) -> EntryView {
        self.entries[self.index]
    }

    /// The cleanup stands before a worktree that goes.
    pub open spec fn valid(self) -> bool {
        0 <= self.index < self.entries.len() && self.entry().class.goes(self.force)
    }

    /// What the cleanup asks for.
    pub open spec fn action(self) -> CleanActionView {
        cleaned_by(self.entry(), self.target_branch, self.force)
    }

    /// The failures, with the answer to what was asked last.
    pub open spec fn failures_with(self, answer: AnswerView) -> Seq<FailureView> {
        match answer {
            AnswerView::Failed(fault) => self.failures.push(
                FailureView { path_id: self.entry().path_id, error: self.entry().error(fault) },
            ),
            _ => self.failures,
        }
    }

    /// What is shown of the answer.
    pub open spec fn line(self, answer: AnswerView) -> LineView {
        match answer {
            AnswerView::Failed(fault) => self.entry().failed_line(self.entry().error(fault)),
            _ => self.entry().cleaned_line(),
        }
    }

    /// What the answer leads to.
    pub open spec fn step(self, answer: AnswerView) -> CleanStepView {
        let index = next_from(self.entries, self.force, self.index + 1);
        let failures = self.failures_with(answer);
        CleanStepView {
            lines: if self.json {
                Seq::empty()
            } else {
                seq![self.line(answer)]
            },
            to: if index < self.entries.len() {
                CleanWayView::Next(CleanView { failures, index, ..self })
            } else {
                CleanWayView::Done(
                    CleanEndView {
                        force: self.force,
                        json: self.json,
                        entries: self.entries,
                        failures,
                    },
                )
            },
        }
    }
}

impl CleanEndView {
    /// What is reported where a worktree could not be cleaned.
    pub open spec fn complaint(self) -> Option<Seq<char>> {
        if self.failures.len() == 0 {
            None
        } else {
            Some(
                "wt clean: "@ + decimal(self.failures.len())
                    + " worktree(s) failed to clean"@,
            )
        }
    }
}

/// The next worktree that goes lies where it was looked for.
pub proof fn lemma_next_from(entries: Seq<EntryView>, force: bool, k: int)
    requires
        0 <= k <= entries.len(),
    ensures
        k <= next_from(entries, force, k) <= entries.len(),
        next_from(entries, force, k) < entries.len() ==> entries[next_from(
            entries,
            force,
            k,
        )].class.goes(force),
        forall|i: int|
            k <= i < next_from(entries, force, k) ==> !(#[trigger] entries[i]).class.goes(force),
    decreases entries.len() - k,
{
    if k < entries.len() && !entries[k].class.goes(force) {
        lemma_next_from(entries, force, k + 1);
    }
}

/// The line of the plan for a worktree.
fn plan_line(entry: &CleanEntry, force: bool) -> (r: Line)
    ensures
        r@ == entry@.plan_line(force),
{
    let branch = match &entry.branch {
        Some(branch) => branch.as_str(),
        None => "(detached)",
    };
    Line::Plain(
        "  [".to_owned().concat(action_for(&entry.classification, force)).concat("] ").concat(
            entry.path.as_str(),
        ).concat(" — ").concat(entry.classification.label()).concat(" (").concat(branch).concat(
            ")",
        ),
    )
}

/// The plan in words: a heading, and a line for every worktree.
pub fn plan_text(entries: &Vec<CleanEntry>, force: bool) -> (r: Vec<Line>)
    ensures
        line_views(r@) == plan_lines(entry_views(entries@), force),
{
    let ghost all = entry_views(entries@);
    let ghost plan = plan_lines(all, force);
    let mut lines: Vec<Line> = Vec::new();
    lines.push(Line::Info("wt clean — plan:".to_owned()));
    let mut i: usize = 0;
    while i < entries.len()
        invariant
            i <= entries@.len(),
            all == entry_views(entries@),
            plan == plan_lines(all, force),
            line_views(lines@) =~= plan.take(i + 1),
        decreases entries@.len() - i,
    {
        let ghost so_far = line_views(lines@);
        lines.push(plan_line(&entries[i], force));
        assert(plan[i + 1] == all[i as int].plan_line(force));
        assert(line_views(lines@) =~= so_far.push(plan[i + 1]));
        assert(plan.take(i + 2) =~= plan.take(i + 1).push(plan[i + 1]));
        i = i + 1;
    }
    assert(plan.take(i + 1) =~= plan);
    lines
}

/// What is shown where nothing is removed.
fn declined(count: usize, dry_run: bool) -> (r: Line)
    ensures
        r@ == declined_line(count as nat, dry_run),
{
    let number = decimal_text(count as u64);
    if count == 0 {
        Line::Info("Nothing to clean.".to_owned())
    } else if dry_run {
        Line::Info(
            "Dry run — would clean ".to_owned().concat(number.as_str()).concat(
                " worktree(s). Re-run without --dry-run to apply.",
            ),
        )
    } else {
        Line::Info(
            "Would clean ".to_owned().concat(number.as_str()).concat(
                " worktree(s). Re-run with --yes to confirm.",
            ),
        )
    }
}

/// Finds the first worktree that goes, from some place on.
fn find_next(entries: &Vec<CleanEntry>, force: bool, k: usize) -> (r: usize)
    requires
        k <= entries@.len(),
    ensures
        r == next_from(entry_views(entries@), force, k as int),
        k <= r <= entries@.len(),
        r < entries@.len() ==> entries@[r as int]@.class.goes(force),
{
    let ghost all = entry_views(entries@);
    proof {
        lemma_next_from(all, force, k as int);
    }
    let mut i: usize = k;
    while i < entries.len()
        invariant
            k <= i <= entries@.len(),
            all == entry_views(entries@),
            next_from(all, force, k as int) == next_from(all, force, i as int),
        decreases entries@.len() - i,
    {
        if entries[i].classification.goes(force) {
            return i;
        }
        i = i + 1;
    }
    i
}

/// Begins a cleanup of classified worktrees: shows the plan, and goes to the
/// first worktree that may go if the cleanup is confirmed.
pub fn handle_clean(
    opts: &CleanOptions,
    target_branch: String,
    entries: Vec<CleanEntry>,
) -> (r: CleanStep)
    ensures
        r@ == opening(*opts, target_branch@, entry_views(entries@)),
        r@.to matches CleanWayView::Next(run) ==> run.valid(),
{
    let ghost all = entry_views(entries@);
    let count: usize = count_picked(&entries, opts.force);
    let mut lines: Vec<Line> = if opts.json {
        Vec::new()
    } else {
        plan_text(&entries, opts.force)
    };
    assert(opts.json ==> line_views(lines@) =~= Seq::<LineView>::empty());
    let failures: Vec<CleanFailure> = Vec::new();
    assert(failure_views(failures@) =~= Seq::<FailureView>::empty());
    if count > 0 && opts.yes && !opts.dry_run {
        let index: usize = find_next(&entries, opts.force, 0);
        proof {
            lemma_some_picked(all, opts.force, 0);
            assert(all.skip(0) =~= all);
        }
        CleanStep {
            lines,
            to: CleanWay::Next(
                CleanRun {
                    force: opts.force,
                    json: opts.json,
                    target_branch,
                    entries,
                    failures,
                    index,
                },
            ),
        }
    } else {
        if !opts.json {
            let ghost plan = line_views(lines@);
            lines.push(declined(count, opts.dry_run));
            assert(line_views(lines@) =~= plan.push(
                declined_line(count as nat, opts.dry_run),
            ));
        }
        CleanStep {
            lines,
            to: CleanWay::Done(
                CleanEnd { force: opts.force, json: opts.json, entries, failures },
            ),
        }
    }
}

/// The positions from some place on.
pub open spec fn positions_from(entries: Seq<EntryView>, k: int) -> Seq<int> {
    Seq::new(entries.len(), |i: int| i).skip(k)
}

/// The positions of the worktrees that go, in order.
pub open spec fn picked_positions(entries: Seq<EntryView>, force: bool) -> Seq<int> {
    Seq::new(entries.len(), |i: int| i).filter(|i: int| entries[i].class.goes(force))
}

/// The positions of the worktrees that go, from some place on, are the next one
/// and those after it.
pub proof fn lemma_positions_from(entries: Seq<EntryView>, force: bool, k: int)
    requires
        0 <= k <= entries.len(),
    ensures
        ({
            let goes = |i: int| entries[i].class.goes(force);
            let i = next_from(entries, force, k);
            &&& k <= i <= entries.len()
            &&& positions_from(entries, k).filter(goes) == if i < entries.len() {
                seq![i] + positions_from(entries, i + 1).filter(goes)
            } else {
                Seq::empty()
            }
        }),
    decreases entries.len() - k,
{
    let goes = |i: int| entries[i].class.goes(force);
    if k < entries.len() {
        let rest = positions_from(entries, k + 1);
        assert(positions_from(entries, k) =~= seq![k] + rest);
        rest.lemma_filter_prepend(k, goes);
        lemma_positions_from(entries, force, k + 1);
    } else {
        reveal(Seq::filter);
        assert(positions_from(entries, k) =~= Seq::<int>::empty());
    }
}

/// The worktrees that go are the next one that goes and those after it.
pub proof fn lemma_picked_from(entries: Seq<EntryView>, force: bool, k: int)
    requires
        0 <= k <= entries.len(),
    ensures
        k <= next_from(entries, force, k) <= entries.len(),
        ({
            let i = next_from(entries, force, k);
            picked(entries.skip(k), force) == if i < entries.len() {
                seq![entries[i]] + picked(entries.skip(i + 1), force)
            } else {
                Seq::empty()
            }
        }),
    decreases entries.len() - k,
{
    let goes = |e: EntryView| e.class.goes(force);
    if k < entries.len() {
        assert(entries.skip(k) =~= seq![entries[k]] + entries.skip(k + 1));
        entries.skip(k + 1).lemma_filter_prepend(entries[k], goes);
        lemma_picked_from(entries, force, k + 1);
    } else {
        reveal(Seq::filter);
        assert(entries.skip(k) =~= Seq::<EntryView>::empty());
    }
}

/// Where some worktree goes, there is a next one that does.
proof fn lemma_some_picked(entries: Seq<EntryView>, force: bool, k: int)
    requires
        0 <= k <= entries.len(),
    ensures
        picked(entries.skip(k), force).len() > 0 <==> next_from(entries, force, k) < entries.len(),
{
    lemma_picked_from(entries, force, k);
}

/// What is asked for to clean a worktree.
pub fn clean_one(entry: &CleanEntry, target_branch: &str, force: bool) -> (r: CleanAction)
    ensures
        r@ == cleaned_by(entry@, target_branch@, force),
{
    if matches!(entry.classification, Classification::Prunable) {
        return CleanAction::Prune(git_command(&["worktree", "prune"]));
    }
    CleanAction::Remove {
        path: entry.path.clone(),
        branch: copied(&entry.branch),
        mode: if force {
            BranchDeletionMode::ForceDelete
        } else {
            BranchDeletionMode::SafeDelete
        },
        target_branch: target_branch.to_owned(),
        force_worktree: force,
    }
}

/// How the reason for a failure is reported.
fn error_text(entry: &CleanEntry, fault: Fault) -> (r: String)
    ensures
        r@ == entry@.error(fault@),
{
    if matches!(entry.classification, Classification::Prunable) {
        fault.within("git worktree prune failed").message
    } else {
        fault.message
    }
}

impl CleanRun {
    /// Where the worktree that the cleanup stands before has its place in the
    /// plan.
    pub fn position(&self) -> (r: usize)
        ensures
            r == self@.position(),
            r == self@.index,
    {
        self.index
    }

    /// What the cleanup asks for.
    pub fn action(&self) -> (r: CleanAction)
        requires
            self@.valid(),
        ensures
            r@ == self@.action(),
    {
        clean_one(&self.entries[self.index], self.target_branch.as_str(), self.force)
    }

    /// Goes on with what came of it.
    pub fn resume(self, answer: Answer) -> (r: CleanStep)
        requires
            self@.valid(),
        ensures
            r@ == self@.step(answer@),
            r@.to matches CleanWayView::Next(run) ==> run.valid(),
    {
        let ghost before = self@;
        let CleanRun { force, json, target_branch, entries, mut failures, index } = self;
        let total: usize = entries.len();
        let entry = &entries[index];
        let label = entry.classification.label();
        let line = match answer {
            Answer::Failed(fault) => {
                let error = error_text(entry, fault);
                let text = "Failed to clean ".to_owned().concat(entry.path.as_str()).concat(
                    " (",
                ).concat(label).concat("): ").concat(error.as_str());
                failures.push(CleanFailure { path_id: entry.path_id, error });
                text
            },
            _ => "Cleaned ".to_owned().concat(entry.path.as_str()).concat(" (").concat(
                label,
            ).concat(")"),
        };
        assert(failure_views(failures@) =~= before.failures_with(answer@));
        let mut lines: Vec<Line> = Vec::new();
        if !json {
            lines.push(Line::Info(line));
            assert(line_views(lines@) =~= seq![before.line(answer@)]);
        } else {
            assert(line_views(lines@) =~= Seq::<LineView>::empty());
        }
        let next: usize = find_next(&entries, force, index + 1);
        CleanStep {
            lines,
            to: if next < total {
                CleanWay::Next(
                    CleanRun { force, json, target_branch, entries, failures, index: next },
                )
            } else {
                CleanWay::Done(CleanEnd { force, json, entries, failures })
            },
        }
    }
}

impl CleanEnd {
    /// What is reported where a worktree could not be cleaned.
    pub fn complaint(&self) -> (r: Option<String>)
        ensures
            match r {
                Some(text) => self@.complaint() == Some(text@),
                None => self@.complaint() is None,
            },
    {
        if self.failures.is_empty() {
            None
        } else {
            let number = decimal_text(self.failures.len() as u64);
            Some(
                "wt clean: ".to_owned().concat(number.as_str()).concat(
                    " worktree(s) failed to clean",
                ),
            )
        }
    }
}

} // verus!
