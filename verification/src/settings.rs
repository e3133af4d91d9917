//! What a search over a state space asks of the puzzle besides expansion:
//! whether a newly found state is worth reporting, and how the files of a
//! depth are to be kept.

use vstd::prelude::*;

verus! {

/// What becomes of the update files of a depth.
#[derive(Debug, Clone, Copy, PartialEq, Eq)]
pub enum UpdateFilesBehavior {
    /// They are left as they are.
    DontMerge,
    /// They are merged into a bit array and deleted.
    MergeAndDelete,
    /// They are merged into a bit array and kept.
    MergeAndKeep,
}

/// What becomes of the chunk files of a depth.
#[derive(Debug, Clone, Copy, PartialEq, Eq)]
pub enum ChunkFilesBehavior {
    /// They are deleted.
    Delete,
    /// They are kept.
    Keep,
}

/// Whether a state first seen at `depth` is reported, given the depth from
/// which states are reported.
pub fn reports_from(depth: usize, bound: usize) -> (report: bool)
    ensures
        report == (depth >= bound),
{
    depth >= bound
}

/// Whether a state first seen at `depth` is reported, given the depth above
/// which states are reported.
pub fn reports_above(depth: usize, bound: usize) -> (report: bool)
    ensures
        report == (depth > bound),
{
    depth > bound
}

/// Update files are merged and kept from depth `bound` on, and left
/// unmerged before.
pub fn update_files_from(depth: usize, bound: usize) -> (behavior: UpdateFilesBehavior)
    ensures
        behavior == if depth >= bound {
            UpdateFilesBehavior::MergeAndKeep
        } else {
            UpdateFilesBehavior::DontMerge
        },
{
    if depth >= bound {
        UpdateFilesBehavior::MergeAndKeep
    } else {
        UpdateFilesBehavior::DontMerge
    }
}

/// Chunk files are kept from depth `bound` on, and deleted before.
pub fn chunk_files_from(depth: usize, bound: usize) -> (behavior: ChunkFilesBehavior)
    ensures
        behavior == if depth >= bound {
            ChunkFilesBehavior::Keep
        } else {
            ChunkFilesBehavior::Delete
        },
{
    if depth >= bound {
        ChunkFilesBehavior::Keep
    } else {
        ChunkFilesBehavior::Delete
    }
}

/// Update files are merged and kept above depth `bound`, and left unmerged
/// up to it.
pub fn update_files_above(depth: usize, bound: usize) -> (behavior: UpdateFilesBehavior)
    ensures
        behavior == if depth > bound {
            UpdateFilesBehavior::MergeAndKeep
        } else {
            UpdateFilesBehavior::DontMerge
        },
{
    if depth > bound {
        UpdateFilesBehavior::MergeAndKeep
    } else {
        UpdateFilesBehavior::DontMerge
    }
}

/// Chunk files are kept above depth `bound`, and deleted up to it.
pub fn chunk_files_above(depth: usize, bound: usize) -> (behavior: ChunkFilesBehavior)
    ensures
        behavior == if depth > bound {
            ChunkFilesBehavior::Keep
        } else {
            ChunkFilesBehavior::Delete
        },
{
    if depth > bound {
        ChunkFilesBehavior::Keep
    } else {
        ChunkFilesBehavior::Delete
    }
}

/// The drive for a chunk where the drives take the chunks in turn.
pub fn chunk_root_round_robin(chunk_idx: usize, drives: usize) -> (root: usize)
    requires
        drives > 0,
    ensures
        root == chunk_idx % drives,
        root < drives,
{
    chunk_idx % drives
}

/// The drive for a chunk where four drives take seven chunks in turn, the
/// first drive one of them and the others two each.
pub open spec fn seven_over_four(chunk_idx: nat) -> nat {
    let slot = chunk_idx % 7;
    if slot == 0 {
        0
    } else if slot <= 3 {
        slot
    } else {
        (slot - 3) as nat
    }
}

/// The drive for a chunk where four drives take seven chunks in turn.
pub fn chunk_root_seven_over_four(chunk_idx: usize) -> (root: usize)
    ensures
        root == seven_over_four(chunk_idx as nat),
        root < 4,
{
    let roots: [usize; 7] = [0, 1, 2, 3, 1, 2, 3];
    roots[chunk_idx % 7]
}

} // verus!
