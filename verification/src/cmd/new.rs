//! The options of `new`.
use vstd::prelude::*;

use crate::text::owned;

verus! {

/// What the user asked `new` for.
#[derive(Debug, Clone, Default)]
pub struct NewOptions {
    pub title: Option<String>,
}

/// The title of the post `new` was asked for: the given one, else
/// `untitled-post`.
pub fn requested_title(options: &NewOptions) -> (r: String)
    ensures
        match options.title {
            Some(t) => r@ == t@,
            None => r@ == "untitled-post"@,
        },
{
    match &options.title {
        Some(t) => t.clone(),
        None => owned("untitled-post"),
    }
}

} // verus!
