//! The post model.
use vstd::prelude::*;

verus! {

/// A parsed source file.
#[derive(Debug, Clone, Default)]
pub struct Post {
    pub source_path: String,
    pub meta: PostMeta,
    pub body: String,
    pub html: String,
    pub excerpt: Option<String>,
}

/// What a post says about itself.
#[derive(Debug, Clone, Default)]
pub struct PostMeta {
    pub title: String,
    pub slug: String,
    pub date: Option<String>,
    pub tags: Vec<String>,
    pub draft: bool,
    pub summary: Option<String>,
}

/// The characters of an optional text.
pub open spec fn opt_text(o: Option<String>) -> Option<Seq<char>> {
    match o {
        Some(s) => Some(s@),
        None => None,
    }
}

/// The characters of each text of a list.
pub open spec fn texts(v: Seq<String>) -> Seq<Seq<char>> {
    v.map_values(|s: String| s@)
}

} // verus!
