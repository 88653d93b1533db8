//! The file-system decisions of the build: which directory a written file
//! needs, and the order in which found files are taken.
use vstd::prelude::*;

use crate::content::post::opt_text;
use crate::order::{sort_ranked, sorted, stable_reordering};
use crate::paths::{parent, spec_parent};

verus! {

/// The directory that must exist before a file is written at `path`: its
/// parent, when it has one.
pub fn ensure_parent_dir(path: &str) -> (r: Option<String>)
    ensures
        opt_text(r) == spec_parent(path@),
{
    parent(path)
}

/// The files found under a directory, in the order they are taken: none
/// when the directory does not exist, else all of them sorted as paths
/// (component by component).
pub fn collect_files(root_exists: bool, found: Vec<String>) -> (r: Vec<String>)
    ensures
        !root_exists ==> r@.len() == 0,
        root_exists ==> r@.to_multiset() == found@.to_multiset(),
        root_exists ==> sorted(r@),
        root_exists ==> exists|perm: Seq<int>| stable_reordering(found@, r@, perm),
{
    if !root_exists {
        return Vec::new();
    }
    sort_ranked(found)
}

} // verus!
