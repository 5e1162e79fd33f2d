//! Decisions of the empty-directory sweep.
//!
//! The sweep visits directories children first. A directory is empty when
//! every child directory counted as empty and it holds no other entry.

use vstd::prelude::*;

verus! {

/// What the sweep does with one directory.
#[derive(Debug, Clone, Copy, PartialEq, Eq, Structural)]
pub struct DirVerdict {
    /// Remove the directory.
    pub remove: bool,
    /// Whether the parent may count this directory as empty.
    pub empty_for_parent: bool,
}

/// The verdict on a directory at `depth` below the root (the root is at 0):
/// an empty directory that no exclusion matches is removed once it is at
/// least `min_depth` deep; an excluded directory never counts as empty; a
/// directory too shallow to remove still counts as empty when it is.
pub fn dir_verdict(is_empty: bool, excluded: bool, depth: usize, min_depth: usize) -> (r: DirVerdict)
    ensures
        r.remove == (is_empty && !excluded && depth >= min_depth),
        r.empty_for_parent == (is_empty && !excluded),
{
    if is_empty && !excluded && depth >= min_depth {
        DirVerdict { remove: true, empty_for_parent: true }
    } else {
        DirVerdict { remove: false, empty_for_parent: is_empty && !excluded }
    }
}

} // verus!
