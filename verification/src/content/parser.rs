//! Turning a source file into a post.
use vstd::prelude::*;

use crate::content::front_matter::{front_matter_problem, FrontMatter};
use crate::content::post::{opt_text, texts, Post, PostMeta};
use crate::error::Error;
use crate::paths::{file_stem, spec_file_stem};
use crate::text::{
    chars_of, find, first_occurrence, lemma_first_occurrence_facts, lemma_first_occurrence_is,
    occurs_at, occurs_in, owned, push_str, replace_char, replace_char_spec, spec_to_lowercase,
    starts_with, string_from_range, to_lowercase,
};

verus! {

/// The line that opens and closes a front matter block.
pub open spec fn delimiter() -> Seq<char> {
    seq!['+', '+', '+', '\n']
}

/// The message given when a front matter block is opened but never closed.
pub open spec fn unclosed_front_matter_message() -> Seq<char> {
    "front matter starts with `"@ + delimiter() + "` but is missing a closing delimiter"@
}

/// How a source text divides into an optional front matter block and a
/// body, or `None` when the block is opened but never closed.
///
/// A source that does not start with the delimiter line has no front
/// matter and is all body.  Otherwise the block runs up to the first
/// delimiter line after the opening one, and the body is what follows that.
pub open spec fn spec_split(s: Seq<char>) -> Option<(Option<Seq<char>>, Seq<char>)> {
    if !delimiter().is_prefix_of(s) {
        Some((None, s))
    } else {
        let rest = s.skip(4);
        match first_occurrence(rest, delimiter()) {
            None => None,
            Some(i) => Some((Some(rest.take(i)), rest.skip(i + 4))),
        }
    }
}

/// Splits a source text into its front matter block (without the delimiter
/// lines) and its body.
pub fn split_front_matter(source: &str) -> (r: Result<(Option<&str>, &str), Error>)
    ensures
        match spec_split(source@) {
            None => r matches Err(e) && e is Message && e.text() == unclosed_front_matter_message(),
            Some((front, body)) => r matches Ok((f, b)) && b@ == body && match front {
                None => f is None,
                Some(x) => f matches Some(y) && y@ == x,
            },
        },
{
    let delim = "+++\n";
    proof {
        reveal_strlit("+++\n");
    }
    assert(delim@ =~= delimiter());
    if !starts_with(source, delim) {
        return Ok((None, source));
    }
    let cs = chars_of(source);
    let n = cs.len();
    let rest = string_from_range(&cs, 4, n);
    assert(rest@ =~= source@.skip(4));
    let rs = chars_of(rest.as_str());
    let ds = chars_of(delim);
    match find(&rs, &ds) {
        None => {
            let mut msg = owned("front matter starts with `");
            push_str(&mut msg, delim);
            push_str(&mut msg, "` but is missing a closing delimiter");
            proof {
                reveal_strlit("front matter starts with `");
                reveal_strlit("` but is missing a closing delimiter");
            }
            Err(Error::message(msg))
        },
        Some(i) => {
            let front = source.substring_char(4, 4 + i);
            let body = source.substring_char(4 + i + 4, n);
            assert(front@ =~= rest@.take(i as int));
            assert(body@ =~= rest@.skip(i + 4));
            Ok((Some(front), body))
        },
    }
}

/// The HTML that the markdown renderer produces for a text (CommonMark
/// with strikethrough, tables and task lists).
pub uninterp spec fn spec_markdown_html(markdown: Seq<char>) -> Seq<char>;

/// Renders markdown to HTML with `pulldown_cmark`, with strikethrough,
/// tables and task lists enabled.  The output is a function of the input
/// alone and is named, not described; the one fact stated is that an empty
/// input renders to nothing.
#[verifier::external_body]
pub fn render_markdown(input: &str) -> (r: String)
    ensures
        r@ == spec_markdown_html(input@),
        input@.len() == 0 ==> r@.len() == 0,
{
    let mut options = pulldown_cmark::Options::empty();
    options.insert(pulldown_cmark::Options::ENABLE_STRIKETHROUGH);
    options.insert(pulldown_cmark::Options::ENABLE_TABLES);
    options.insert(pulldown_cmark::Options::ENABLE_TASKLISTS);
    let parser = pulldown_cmark::Parser::new_ext(input, options);
    let mut output = String::new();
    pulldown_cmark::html::push_html(&mut output, parser);
    output
}

/// The title a post gets from its file name: the file stem with dashes read
/// as spaces.
pub open spec fn spec_fallback_title(path: Seq<char>) -> Option<Seq<char>> {
    match spec_file_stem(path) {
        Some(stem) => Some(replace_char_spec(stem, '-', ' ')),
        None => None,
    }
}

/// The title derived from a post's file name, if it has one.
pub fn fallback_title(path: &str) -> (r: Option<String>)
    ensures
        opt_text(r) == spec_fallback_title(path@),
{
    match file_stem(path) {
        Some(stem) => Some(replace_char(stem.as_str(), '-', ' ')),
        None => None,
    }
}

/// A post's title: the declared one, else the one from its file name, else
/// `untitled`.
pub open spec fn spec_post_title(path: Seq<char>, declared: Option<Seq<char>>) -> Seq<char> {
    match declared {
        Some(t) => t,
        None => match spec_fallback_title(path) {
            Some(t) => t,
            None => "untitled"@,
        },
    }
}

/// The slug made from a title: lowercased, with spaces turned into dashes.
pub open spec fn spec_slug_of(title: Seq<char>) -> Seq<char> {
    replace_char_spec(spec_to_lowercase(title), ' ', '-')
}

/// A post's slug: the declared one, else the one made from its title.
pub open spec fn spec_post_slug(declared: Option<Seq<char>>, title: Seq<char>) -> Seq<char> {
    match declared {
        Some(s) => s,
        None => spec_slug_of(title),
    }
}

/// A slug made from a title holds no spaces.
pub proof fn lemma_slug_has_no_spaces(title: Seq<char>)
    ensures
        !spec_slug_of(title).contains(' '),
{
    let slug = spec_slug_of(title);
    if slug.contains(' ') {
        let i = choose|i: int| 0 <= i < slug.len() && slug[i] == ' ';
        assert(slug[i] == (if spec_to_lowercase(title)[i] == ' ' { '-' } else { spec_to_lowercase(title)[i] }));
    }
}

/// The front matter a post is read with: the declared block, or the empty
/// one.
pub open spec fn declared(front_matter: Option<FrontMatter>) -> (
    Option<Seq<char>>,
    Option<Seq<char>>,
    Option<Seq<char>>,
    Seq<Seq<char>>,
    bool,
    Option<Seq<char>>,
) {
    match front_matter {
        Some(f) => (opt_text(f.title), opt_text(f.slug), opt_text(f.date), texts(f.tags@), f.draft, opt_text(f.summary)),
        None => (None, None, None, Seq::empty(), false, None),
    }
}

/// `post` is the post read from the file at `path` with the given front
/// matter and body.
pub open spec fn is_post_of(
    post: Post,
    path: Seq<char>,
    front_matter: Option<FrontMatter>,
    body: Seq<char>,
) -> bool {
    let (title, slug, date, tags, draft, summary) = declared(front_matter);
    &&& post.source_path@ == path
    &&& post.meta.title@ == spec_post_title(path, title)
    &&& post.meta.slug@ == spec_post_slug(slug, post.meta.title@)
    &&& opt_text(post.meta.date) == date
    &&& texts(post.meta.tags@) == tags
    &&& post.meta.draft == draft
    &&& opt_text(post.meta.summary) == summary
    &&& post.body@ == body
    &&& post.html@ == spec_markdown_html(body)
    &&& post.excerpt is None
}

/// A post read without a declared slug gets its title, lowercased, as its
/// slug, character for character, except that each space becomes `-`.
pub proof fn lemma_derived_slug(post: Post, path: Seq<char>, front_matter: Option<FrontMatter>, body: Seq<char>)
    requires
        is_post_of(post, path, front_matter, body),
        declared(front_matter).1 is None,
    ensures
        post.meta.slug@.len() == spec_to_lowercase(post.meta.title@).len(),
        forall|i: int| 0 <= i < post.meta.slug@.len() ==> #[trigger] post.meta.slug@[i] == if spec_to_lowercase(
            post.meta.title@,
        )[i] == ' ' {
            '-'
        } else {
            spec_to_lowercase(post.meta.title@)[i]
        },
{
}

/// Builds the post read from the file at `path`, given its front matter
/// block (as declared, `None` when the source has none) and its body.  The
/// declared front matter must satisfy its rules.
pub fn parse_post(path: &str, front_matter: Option<FrontMatter>, body: &str) -> (r: Result<Post, Error>)
    ensures
        match front_matter {
            Some(fm) if front_matter_problem(fm) is Some => r matches Err(e) && e is Message
                && e.text() == front_matter_problem(fm)->0,
            _ => r matches Ok(post) && is_post_of(post, path@, front_matter, body@),
        },
{
    let ghost given = front_matter;
    let metadata = match front_matter {
        Some(fm) => {
            match fm.validate() {
                Ok(()) => fm,
                Err(e) => return Err(e),
            }
        },
        None => FrontMatter {
            title: None,
            slug: None,
            date: None,
            tags: Vec::new(),
            draft: false,
            summary: None,
        },
    };
    assert(declared(Some(metadata)) == declared(given)) by {
        if given is None {
            assert(texts(metadata.tags@) =~= Seq::<Seq<char>>::empty());
        }
    }
    let FrontMatter { title, slug, date, tags, draft, summary } = metadata;
    let title = match title {
        Some(t) => t,
        None => match fallback_title(path) {
            Some(t) => t,
            None => owned("untitled"),
        },
    };
    let slug = match slug {
        Some(s) => s,
        None => {
            let lower = to_lowercase(title.as_str());
            replace_char(lower.as_str(), ' ', '-')
        },
    };
    let html = render_markdown(body);
    Ok(
        Post {
            source_path: owned(path),
            meta: PostMeta { title, slug, date, tags, draft, summary },
            body: owned(body),
            html,
            excerpt: None,
        },
    )
}

/// Splitting loses nothing: the body of a source without front matter is
/// the whole source, and a source with front matter is the opening
/// delimiter line, the block, the closing delimiter line and the body, in
/// that order, where the block holds no delimiter line of its own.
pub proof fn lemma_split_reassembles(s: Seq<char>)
    ensures
        spec_split(s) matches Some((None, body)) ==> body == s,
        spec_split(s) matches Some((Some(front), body)) ==> {
            &&& s == delimiter() + front + delimiter() + body
            &&& !occurs_in(front, delimiter())
        },
{
    if delimiter().is_prefix_of(s) {
        let rest = s.skip(4);
        lemma_first_occurrence_facts(rest, delimiter());
        if let Some(i) = first_occurrence(rest, delimiter()) {
            let front = rest.take(i);
            let body = rest.skip(i + 4);
            assert(rest.subrange(i, i + 4) == delimiter());
            assert(s =~= delimiter() + front + delimiter() + body) by {
                assert(s.take(4) =~= delimiter());
                assert(rest =~= front + rest.subrange(i, i + 4) + body);
                assert(s =~= s.take(4) + rest);
            }
            assert forall|j: int| !occurs_at(front, delimiter(), j) by {
                if occurs_at(front, delimiter(), j) {
                    assert(rest.subrange(j, j + 4) =~= front.subrange(j, j + 4));
                    assert(occurs_at(rest, delimiter(), j));
                }
            }
        }
    }
}

proof fn lemma_no_early_delimiter(front: Seq<char>, body: Seq<char>, j: int)
    requires
        !occurs_in(front, delimiter()),
        0 <= j < front.len(),
    ensures
        !occurs_at(front + delimiter() + body, delimiter(), j),
{
    let d = delimiter();
    let rest = front + d + body;
    let n = front.len() as int;
    if occurs_at(rest, d, j) {
        if j + 4 <= n {
            assert(front.subrange(j, j + 4) =~= rest.subrange(j, j + 4));
            assert(occurs_at(front, d, j));
        } else {
            assert(rest.subrange(j, j + 4)[3] == rest[j + 3]);
            assert(rest[j + 3] == d[j + 3 - n]);
        }
    }
}

/// Splitting a source assembled from a block that holds no delimiter line
/// and any body gives back that block and that body.
pub proof fn lemma_split_assembled(front: Seq<char>, body: Seq<char>)
    requires
        !occurs_in(front, delimiter()),
    ensures
        spec_split(delimiter() + front + delimiter() + body) == Some((Some(front), body)),
{
    let d = delimiter();
    let s = d + front + d + body;
    let rest = s.skip(4);
    let n = front.len() as int;
    assert(s.take(4) =~= d);
    assert(rest =~= front + d + body);
    assert(rest.subrange(n, n + 4) =~= d);
    assert(occurs_at(rest, d, n));
    assert forall|j: int| 0 <= j < n implies !occurs_at(rest, d, j) by {
        lemma_no_early_delimiter(front, body, j);
    }
    lemma_first_occurrence_is(rest, d, n);
    assert(d.is_prefix_of(s));
    assert(rest.take(n) =~= front);
    assert(rest.skip(n + 4) =~= body);
}

} // verus!
