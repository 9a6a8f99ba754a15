//! Which worktrees a cleanup may remove.
//!
//! Every worktree of the repository gets a [`Classification`]. The primary and
//! the current worktree are never touched. Without force only a worktree whose
//! directory is gone or whose branch is merged is removed; with force any other
//! one is too.

use vstd::prelude::*;
use crate::text::optional;

verus! {

/// Classification of a single worktree for cleanup purposes.
#[derive(Debug, Clone, PartialEq, Eq)]
pub enum Classification {
    /// Primary worktree; never cleaned.
    Primary,
    /// Current worktree (where the command was invoked); never cleaned.
    Current,
    /// Worktree is locked via `git worktree lock`; skipped unless `--force`.
    Locked { reason: String },
    /// Worktree directory is missing on disk; `git worktree prune` territory.
    /// Always safe to clean.
    Prunable,
    /// Working tree has uncommitted changes; skipped unless `--force`.
    Dirty,
    /// Branch has commits not reachable from the target branch (unpushed
    /// work); skipped unless `--force`.
    NotMerged { branch: String },
    /// Detached HEAD: no branch to safely reason about. Skipped unless
    /// `--force`.
    DetachedHead,
    /// Branch is fully merged into the target. Safe to clean.
    Merged { branch: String },
}

/// The content of a [`Classification`].
#[verifier::ext_equal]
pub enum ClassificationView {
    Primary,
    Current,
    Locked { reason: Seq<char> },
    Prunable,
    Dirty,
    NotMerged { branch: Seq<char> },
    DetachedHead,
    Merged { branch: Seq<char> },
}

impl View for Classification {
    type V = ClassificationView;

    open spec fn view(&self) -> ClassificationView {
        match self {
            Classification::Primary => ClassificationView::Primary,
            Classification::Current => ClassificationView::Current,
            Classification::Locked { reason } => ClassificationView::Locked { reason: reason@ },
            Classification::Prunable => ClassificationView::Prunable,
            Classification::Dirty => ClassificationView::Dirty,
            Classification::NotMerged { branch } => ClassificationView::NotMerged {
                branch: branch@,
            },
            Classification::DetachedHead => ClassificationView::DetachedHead,
            Classification::Merged { branch } => ClassificationView::Merged { branch: branch@ },
        }
    }
}

impl ClassificationView {
    /// Whether the worktree may go without force.
    pub open spec fn safe(self) -> bool {
        self is Prunable || self is Merged
    }

    /// Whether the worktree may go with force.
    pub open spec fn forceable(self) -> bool {
        !(self is Primary || self is Current)
    }

    /// Whether the worktree goes.
    pub open spec fn goes(self, force: bool) -> bool {
        if force {
            self.forceable()
        } else {
            self.safe()
        }
    }

    /// The classification in one word.
    pub open spec fn label(self) -> Seq<char> {
        match self {
            ClassificationView::Primary => "primary"@,
            ClassificationView::Current => "current"@,
            ClassificationView::Locked { .. } => "locked"@,
            ClassificationView::Prunable => "prunable"@,
            ClassificationView::Dirty => "dirty"@,
            ClassificationView::NotMerged { .. } => "not-merged"@,
            ClassificationView::DetachedHead => "detached"@,
            ClassificationView::Merged { .. } => "merged"@,
        }
    }

    /// What is done with the worktree, in one word.
    pub open spec fn action(self, force: bool) -> Seq<char> {
        if self.goes(force) {
            "clean"@
        } else {
            "skip"@
        }
    }

    /// Why the worktree is classified so.
    pub open spec fn reason(self) -> Seq<char> {
        match self {
            ClassificationView::Primary => "primary worktree"@,
            ClassificationView::Current => "current worktree"@,
            ClassificationView::Locked { reason } => if reason.len() == 0 {
                "locked"@
            } else {
                "locked: "@ + reason
            },
            ClassificationView::Prunable => "directory missing on disk"@,
            ClassificationView::Dirty => "uncommitted changes"@,
            ClassificationView::NotMerged { branch } => "branch "@ + branch
                + " has commits not on target"@,
            ClassificationView::DetachedHead => "detached HEAD"@,
            ClassificationView::Merged { branch } => "branch "@ + branch
                + " merged into target"@,
        }
    }
}

impl Classification {
    /// Whether the default (non-`--force`) invocation would clean this worktree.
    pub fn is_safe_to_clean(&self) -> (r: bool)
        ensures
            r == self@.safe(),
    {
        matches!(self, Self::Prunable | Self::Merged { .. })
    }

    /// Whether `--force` would clean this worktree (safe cases + risky cases).
    pub fn is_forceable(&self) -> (r: bool)
        ensures
            r == self@.forceable(),
    {
        !matches!(self, Self::Primary | Self::Current)
    }

    /// Whether the worktree goes, with or without force.
    pub fn goes(&self, force: bool) -> (r: bool)
        ensures
            r == self@.goes(force),
    {
        if force {
            self.is_forceable()
        } else {
            self.is_safe_to_clean()
        }
    }

    /// The classification in one word.
    pub fn label(&self) -> (r: &'static str)
        ensures
            r@ == self@.label(),
    {
        match self {
            Self::Primary => "primary",
            Self::Current => "current",
            Self::Locked { .. } => "locked",
            Self::Prunable => "prunable",
            Self::Dirty => "dirty",
            Self::NotMerged { .. } => "not-merged",
            Self::DetachedHead => "detached",
            Self::Merged { .. } => "merged",
        }
    }
}

/// What is done with a worktree, in one word.
pub fn action_for(c: &Classification, force: bool) -> (r: &'static str)
    ensures
        r@ == c@.action(force),
{
    if c.goes(force) {
        "clean"
    } else {
        "skip"
    }
}

/// Why a worktree is classified so.
pub fn reason_for(c: &Classification) -> (r: String)
    ensures
        r@ == c@.reason(),
{
    match c {
        Classification::Primary => "primary worktree".to_owned(),
        Classification::Current => "current worktree".to_owned(),
        Classification::Locked { reason } => {
            if reason.as_str().is_empty() {
                "locked".to_owned()
            } else {
                "locked: ".to_owned().concat(reason.as_str())
            }
        },
        Classification::Prunable => "directory missing on disk".to_owned(),
        Classification::Dirty => "uncommitted changes".to_owned(),
        Classification::NotMerged { branch } => "branch ".to_owned().concat(
            branch.as_str(),
        ).concat(" has commits not on target"),
        Classification::DetachedHead => "detached HEAD".to_owned(),
        Classification::Merged { branch } => "branch ".to_owned().concat(branch.as_str()).concat(
            " merged into target",
        ),
    }
}

/// Options for a cleanup.
#[derive(Debug, Clone, PartialEq, Eq)]
pub struct CleanOptions {
    pub target_branch: Option<String>,
    pub yes: bool,
    pub dry_run: bool,
    pub force: bool,
    /// Emit JSON instead of text. Suppresses the human-readable plan + status
    /// stream on stderr; the structured output goes to stdout for programmatic
    /// consumers.
    pub json: bool,
}

/// A worktree and what it is to a cleanup.
#[derive(Debug, Clone, PartialEq, Eq)]
pub struct CleanEntry {
    /// The path, as it is shown.
    pub path: String,
    /// Which path this is. Two worktrees have the same number exactly if they
    /// have the same path. The text does not tell that: paths that are not text
    /// can be shown alike.
    pub path_id: usize,
    pub branch: Option<String>,
    pub classification: Classification,
}

/// The content of a [`CleanEntry`].
#[verifier::ext_equal]
pub struct EntryView {
    pub path: Seq<char>,
    pub path_id: int,
    pub branch: Option<Seq<char>>,
    pub class: ClassificationView,
}

impl View for CleanEntry {
    type V = EntryView;

    open spec fn view(&self) -> EntryView {
        EntryView {
            path: self.path@,
            path_id: self.path_id as int,
            branch: optional(self.branch),
            class: self.classification@,
        }
    }
}

/// The contents of a list of entries.
pub open spec fn entry_views(entries: Seq<CleanEntry>) -> Seq<EntryView> {
    entries.map_values(|e: CleanEntry| e@)
}

/// The worktrees that go.
pub open spec fn picked(entries: Seq<EntryView>, force: bool) -> Seq<EntryView> {
    entries.filter(|e: EntryView| e.class.goes(force))
}

/// The worktrees that stay.
pub open spec fn kept(entries: Seq<EntryView>, force: bool) -> Seq<EntryView> {
    entries.filter(|e: EntryView| !e.class.goes(force))
}

/// Counts the worktrees that go.
pub fn count_picked(entries: &Vec<CleanEntry>, force: bool) -> (r: usize)
    ensures
        r == picked(entry_views(entries@), force).len(),
        r <= entries@.len(),
{
    let ghost all = entry_views(entries@);
    let mut count: usize = 0;
    let mut i: usize = 0;
    proof {
        reveal(Seq::filter);
        assert(all.take(0) =~= Seq::<EntryView>::empty());
    }
    while i < entries.len()
        invariant
            i <= entries@.len(),
            all == entry_views(entries@),
            count == picked(all.take(i as int), force).len(),
            count <= i,
        decreases entries@.len() - i,
    {
        proof {
            assert(all.take(i + 1) =~= all.take(i as int).push(all[i as int]));
            all.take(i as int).lemma_filter_push(
                all[i as int],
                |e: EntryView| e.class.goes(force),
            );
        }
        if entries[i].classification.goes(force) {
            count = count + 1;
        }
        i = i + 1;
    }
    assert(all.take(i as int) =~= all);
    count
}

/// Without force nothing goes but what holds nothing of its own: a worktree
/// whose directory is gone, or whose branch is merged. With force everything
/// goes that went without it. The primary and the current worktree never go.
pub proof fn what_may_go(class: ClassificationView)
    ensures
        class.safe() <==> class is Prunable || class is Merged,
        class.forceable() <==> !(class is Primary || class is Current),
        class.goes(false) <==> class is Prunable || class is Merged,
        class.goes(false) ==> class.goes(true),
        class is Primary || class is Current ==> !class.goes(true) && !class.goes(false),
        class.goes(true) <==> !(class is Primary || class is Current),
{
}

/// Every worktree either goes or stays.
pub proof fn each_goes_or_stays(entries: Seq<EntryView>, force: bool)
    ensures
        picked(entries, force).len() + kept(entries, force).len() == entries.len(),
    decreases entries.len(),
{
    reveal(Seq::filter);
    if entries.len() > 0 {
        each_goes_or_stays(entries.drop_last(), force);
    }
}

} // verus!
