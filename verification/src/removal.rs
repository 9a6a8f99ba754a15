//! How a branch goes when its worktree is removed.

use vstd::prelude::*;

verus! {

/// What becomes of the branch of a worktree that is removed.
#[derive(Debug, Clone, Copy, PartialEq, Eq, Structural)]
pub enum BranchDeletionMode {
    /// It is deleted if its work is on the target branch.
    SafeDelete,
    /// It is deleted in any case.
    ForceDelete,
}

} // verus!
