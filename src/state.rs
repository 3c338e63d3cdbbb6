use vstd::prelude::*;

verus! {

/// An operation that git porcelain left suspended in a git directory.
#[derive(Clone, Copy, Debug, PartialEq, Eq, Structural)]
pub enum InProgress {
    Merge,
    Revert,
    CherryPick,
    Bisect,
    Rebase,
    RebaseInteractive,
}

/// The filesystem evidence found inside a common git directory.
#[derive(Clone, Copy, Debug, PartialEq, Eq, Structural)]
pub struct Markers {
    /// `rebase-merge/` is a directory.
    pub rebase_merge_dir: bool,
    /// `rebase-merge/interactive` exists.
    pub rebase_interactive: bool,
    /// `CHERRY_PICK_HEAD` exists.
    pub cherry_pick_head: bool,
    /// `REVERT_HEAD` exists.
    pub revert_head: bool,
    /// `MERGE_HEAD` exists.
    pub merge_head: bool,
    /// `BISECT_LOG` exists.
    pub bisect_log: bool,
}

impl Markers {
    /// True when no marker at all was found.
    pub open spec fn is_empty(self) -> bool {
        !self.rebase_merge_dir && !self.rebase_interactive && !self.cherry_pick_head
            && !self.revert_head && !self.merge_head && !self.bisect_log
    }

    /// Evidence of a directory without any marker.
    pub fn none() -> (r: Markers)
        ensures
            r.is_empty(),
    {
        Markers {
            rebase_merge_dir: false,
            rebase_interactive: false,
            cherry_pick_head: false,
            revert_head: false,
            merge_head: false,
            bisect_log: false,
        }
    }
}

/// The operation that `m` shows, by first match in a fixed priority order:
/// interactive rebase, rebase, cherry-pick, revert, merge, bisect.
pub open spec fn operation_of(m: Markers) -> Option<InProgress> {
    if m.rebase_merge_dir && m.rebase_interactive {
        Some(InProgress::RebaseInteractive)
    } else if m.rebase_merge_dir {
        Some(InProgress::Rebase)
    } else if m.cherry_pick_head {
        Some(InProgress::CherryPick)
    } else if m.revert_head {
        Some(InProgress::Revert)
    } else if m.merge_head {
        Some(InProgress::Merge)
    } else if m.bisect_log {
        Some(InProgress::Bisect)
    } else {
        None
    }
}

/// Classify the operation in progress from the markers found on disk.
pub fn in_progress_operation(m: &Markers) -> (r: Option<InProgress>)
    ensures
        r == operation_of(*m),
{
    if m.rebase_merge_dir {
        if m.rebase_interactive {
            Some(InProgress::RebaseInteractive)
        } else {
            Some(InProgress::Rebase)
        }
    } else if m.cherry_pick_head {
        Some(InProgress::CherryPick)
    } else if m.revert_head {
        Some(InProgress::Revert)
    } else if m.merge_head {
        Some(InProgress::Merge)
    } else if m.bisect_log {
        Some(InProgress::Bisect)
    } else {
        None
    }
}

/// The classification depends on the markers alone, so nothing of an earlier
/// call carries over: once every marker is gone, the result is that nothing
/// is in progress, whatever was found before.
pub proof fn lemma_cleared_markers_mean_idle(before: Markers, after: Markers)
    requires
        after.is_empty(),
    ensures
        operation_of(after) is None,
        operation_of(before) is Some ==> operation_of(after) != operation_of(before),
{
}

/// An interactive rebase outranks every other marker that may linger beside it.
pub proof fn lemma_interactive_rebase_wins(m: Markers)
    requires
        m.rebase_merge_dir,
        m.rebase_interactive,
    ensures
        operation_of(m) == Some(InProgress::RebaseInteractive),
{
}

} // verus!
