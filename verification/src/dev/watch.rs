//! The set of paths watched for changes.
use vstd::prelude::*;

use crate::content::post::texts;
use crate::text::owned;

verus! {

/// The paths watched for changes, in the order they were added.
#[derive(Debug, Clone, Default)]
pub struct WatchSet {
    pub paths: Vec<String>,
}

impl WatchSet {
    /// Adds a path at the end; the paths already there stay as they were.
    pub fn add(&mut self, path: &str)
        ensures
            final(self).paths@.len() == old(self).paths@.len() + 1,
            final(self).paths@.take(old(self).paths@.len() as int) == old(self).paths@,
            final(self).paths@.last()@ == path@,
            texts(final(self).paths@) == texts(old(self).paths@).push(path@),
    {
        let ghost before = self.paths@;
        self.paths.push(owned(path));
        assert(self.paths@.take(before.len() as int) =~= before);
        assert(texts(self.paths@) =~= texts(before).push(path@));
    }
}

} // verus!
