//! The metadata block at the top of a post and its rules.
use vstd::prelude::*;

use crate::content::post::{opt_text, texts};
use crate::error::Error;
use crate::text::{blank, is_blank, owned};

verus! {

/// The metadata a post may declare in its front matter block.
#[derive(Debug, Clone, Default)]
pub struct FrontMatter {
    pub title: Option<String>,
    pub slug: Option<String>,
    pub date: Option<String>,
    pub tags: Vec<String>,
    pub draft: bool,
    pub summary: Option<String>,
}

/// A declared field may not be blank.
pub open spec fn blank_field(o: Option<Seq<char>>) -> bool {
    o matches Some(t) && blank(t)
}

/// The first rule the front matter breaks, if any: no declared title, slug,
/// date or summary may be blank, and no tag may be blank.
pub open spec fn front_matter_problem(fm: FrontMatter) -> Option<Seq<char>> {
    if blank_field(opt_text(fm.title)) {
        Some("front matter title cannot be empty"@)
    } else if blank_field(opt_text(fm.slug)) {
        Some("front matter slug cannot be empty"@)
    } else if blank_field(opt_text(fm.date)) {
        Some("front matter date cannot be empty"@)
    } else if blank_field(opt_text(fm.summary)) {
        Some("front matter summary cannot be empty"@)
    } else if exists|i: int| 0 <= i < fm.tags@.len() && blank(#[trigger] texts(fm.tags@)[i]) {
        Some("front matter tags cannot contain empty values"@)
    } else {
        None
    }
}

fn field_is_blank(o: &Option<String>) -> (r: bool)
    ensures
        r == blank_field(opt_text(*o)),
{
    match o {
        Some(t) => is_blank(t.as_str()),
        None => false,
    }
}

impl FrontMatter {
    /// Checks the rules of the front matter and reports the first one broken.
    pub fn validate(&self) -> (r: Result<(), Error>)
        ensures
            match front_matter_problem(*self) {
                None => r is Ok,
                Some(m) => r matches Err(e) && e is Message && e.text() == m,
            },
    {
        if field_is_blank(&self.title) {
            return Err(Error::message(owned("front matter title cannot be empty")));
        }
        if field_is_blank(&self.slug) {
            return Err(Error::message(owned("front matter slug cannot be empty")));
        }
        if field_is_blank(&self.date) {
            return Err(Error::message(owned("front matter date cannot be empty")));
        }
        if field_is_blank(&self.summary) {
            return Err(Error::message(owned("front matter summary cannot be empty")));
        }
        let mut i: usize = 0;
        while i < self.tags.len()
            invariant
                i <= self.tags.len(),
                !blank_field(opt_text(self.title)),
                !blank_field(opt_text(self.slug)),
                !blank_field(opt_text(self.date)),
                !blank_field(opt_text(self.summary)),
                forall|j: int| 0 <= j < i ==> !blank(#[trigger] texts(self.tags@)[j]),
            decreases self.tags.len() - i,
        {
            assert(texts(self.tags@)[i as int] == self.tags@[i as int]@);
            if is_blank(self.tags[i].as_str()) {
                assert(texts(self.tags@)[i as int] == self.tags@[i as int]@);
                assert(blank(texts(self.tags@)[i as int]));
                return Err(Error::message(owned("front matter tags cannot contain empty values")));
            }
            i = i + 1;
        }
        Ok(())
    }
}

} // verus!
