//! Building a site: which sources are posts, which posts are published and
//! in what order, and the pages written for them.
use vstd::prelude::*;

use crate::config::SiteConfig;
use crate::content::post::{opt_text, Post};
use crate::error::Error;
use crate::order::{
    lemma_lex_irreflexive, lemma_lex_total, lemma_lex_transitive, lemma_stable_sort_unique, lex_lt,
    sort_ranked, sorted, stable_reordering,
    text_before, text_key, Ranked,
};
use crate::paths::{extension, join, spec_extension, spec_join};
use crate::render::template::{spec_index_page, spec_post_page, TemplateEngine};

verus! {

broadcast use vstd::seq_lib::group_to_multiset_ensures;

// ---------------------------------------------------------------------------
// Which files are posts
// ---------------------------------------------------------------------------

/// A source is a post when its extension is `md`, in any letter case.
pub open spec fn spec_is_markdown(path: Seq<char>) -> bool {
    spec_extension(path) matches Some(e) && e.len() == 2 && (e[0] == 'm' || e[0] == 'M') && (e[1]
        == 'd' || e[1] == 'D')
}

/// Whether the file at `path` is a markdown source.
pub fn is_markdown(path: &str) -> (r: bool)
    ensures
        r == spec_is_markdown(path@),
{
    match extension(path) {
        Some(e) => {
            let cs = crate::text::chars_of(e.as_str());
            cs.len() == 2 && (cs[0] == 'm' || cs[0] == 'M') && (cs[1] == 'd' || cs[1] == 'D')
        },
        None => false,
    }
}

// ---------------------------------------------------------------------------
// The order of posts
// ---------------------------------------------------------------------------

/// A date as integers, for comparing.
pub open spec fn date_key(d: Option<String>) -> Option<Seq<int>> {
    match opt_text(d) {
        Some(s) => Some(text_key(s)),
        None => None,
    }
}

/// `x` is a later date than `y`; a missing date is earlier than any date.
pub open spec fn later(x: Option<Seq<int>>, y: Option<Seq<int>>) -> bool {
    match (x, y) {
        (Some(_), None) => true,
        (Some(p), Some(q)) => lex_lt(q, p),
        _ => false,
    }
}

proof fn lemma_later(x: Option<Seq<int>>, y: Option<Seq<int>>, z: Option<Seq<int>>)
    ensures
        !later(x, x),
        later(x, y) && later(y, z) ==> later(x, z),
        x != y ==> later(x, y) || later(y, x),
{
    if let Some(p) = x {
        lemma_lex_irreflexive(p);
        if let Some(q) = y {
            lemma_lex_total(p, q);
            if let Some(r) = z {
                if lex_lt(q, p) && lex_lt(r, q) {
                    lemma_lex_transitive(r, q, p);
                }
            }
        }
    }
}

/// Posts come newest first; posts of the same date come in slug order.
impl Ranked for Post {
    open spec fn before(&self, other: &Self) -> bool {
        ||| later(date_key(self.meta.date), date_key(other.meta.date))
        ||| date_key(self.meta.date) == date_key(other.meta.date) && lex_lt(
            text_key(self.meta.slug@),
            text_key(other.meta.slug@),
        )
    }

    fn is_before(&self, other: &Self) -> (r: bool) {
        let (later_date, same_date) = match (&self.meta.date, &other.meta.date) {
            (Some(a), Some(b)) => {
                let gt = text_before(b.as_str(), a.as_str());
                let lt = text_before(a.as_str(), b.as_str());
                proof {
                    lemma_lex_total(text_key(a@), text_key(b@));
                    lemma_lex_irreflexive(text_key(a@));
                }
                (gt, !gt && !lt)
            },
            (Some(_), None) => (true, false),
            (None, Some(_)) => (false, false),
            (None, None) => (false, true),
        };
        if later_date {
            true
        } else if same_date {
            text_before(self.meta.slug.as_str(), other.meta.slug.as_str())
        } else {
            false
        }
    }

    proof fn lemma_ranked(a: &Self, b: &Self, c: &Self) {
        let (da, db, dc) = (date_key(a.meta.date), date_key(b.meta.date), date_key(c.meta.date));
        let (sa, sb, sc) = (text_key(a.meta.slug@), text_key(b.meta.slug@), text_key(c.meta.slug@));
        lemma_later(da, db, dc);
        lemma_later(db, dc, da);
        lemma_later(dc, da, db);
        lemma_later(da, dc, db);
        lemma_later(db, da, dc);
        lemma_later(dc, db, da);
        lemma_lex_irreflexive(sa);
        lemma_lex_total(sa, sb);
        lemma_lex_total(sb, sc);
        lemma_lex_total(sa, sc);
        if lex_lt(sa, sb) && lex_lt(sb, sc) {
            lemma_lex_transitive(sa, sb, sc);
        }
        if lex_lt(sb, sa) && lex_lt(sa, sc) {
            lemma_lex_transitive(sb, sa, sc);
        }
    }
}

/// Text `x` comes after text `y` character by character (by code point): at
/// the first position where they differ `x` holds the greater character, or
/// `y` ends there while `x` goes on.
pub open spec fn text_after(x: Seq<char>, y: Seq<char>) -> bool {
    exists|k: int|
        0 <= k <= x.len() && k <= y.len() && #[trigger] x.take(k) == y.take(k) && ((k == y.len() && k < x.len()) || (k
            < x.len() && k < y.len() && (y[k] as u32) < (x[k] as u32)))
}

proof fn lemma_after_is_lex(x: Seq<char>, y: Seq<char>, k: int)
    requires
        0 <= k <= x.len(),
        k <= y.len(),
        x.take(k) == y.take(k),
        (k == y.len() && k < x.len()) || (k < x.len() && k < y.len() && (y[k] as u32) < (x[k] as u32)),
    ensures
        lex_lt(text_key(y), text_key(x)),
    decreases k,
{
    if k > 0 {
        assert(x[0] == x.take(k)[0] && y[0] == y.take(k)[0]);
        assert(x.drop_first().take(k - 1) =~= x.take(k).drop_first());
        assert(y.drop_first().take(k - 1) =~= y.take(k).drop_first());
        lemma_after_is_lex(x.drop_first(), y.drop_first(), k - 1);
        assert(text_key(x).drop_first() =~= text_key(x.drop_first()));
        assert(text_key(y).drop_first() =~= text_key(y.drop_first()));
    }
}

proof fn lemma_lex_asymmetric(a: Seq<int>, b: Seq<int>)
    requires
        lex_lt(a, b),
    ensures
        !lex_lt(b, a),
        a != b,
{
    lemma_lex_irreflexive(a);
    if lex_lt(b, a) {
        lemma_lex_transitive(a, b, a);
    }
}

/// Of two posts with dates, the one with the later full date comes first,
/// whatever their slugs; of two posts with the same date, the one whose
/// slug comes first in text order comes first.
pub proof fn lemma_post_rank(a: Post, b: Post)
    ensures
        a.meta.date matches Some(x) && b.meta.date matches Some(y) && text_after(x@, y@) ==> a.before(&b)
            && !b.before(&a),
        a.meta.date matches Some(x) && b.meta.date matches Some(y) && x@ == y@ && text_after(b.meta.slug@, a.meta.slug@)
            ==> a.before(&b) && !b.before(&a),
{
    if let (Some(x), Some(y)) = (a.meta.date, b.meta.date) {
        if text_after(x@, y@) {
            let k = choose|k: int|
                0 <= k <= x@.len() && k <= y@.len() && #[trigger] x@.take(k) == y@.take(k) && ((k == y@.len() && k
                    < x@.len()) || (k < x@.len() && k < y@.len() && (y@[k] as u32) < (x@[k] as u32)));
            lemma_after_is_lex(x@, y@, k);
            lemma_lex_asymmetric(text_key(y@), text_key(x@));
        }
        if x@ == y@ && text_after(b.meta.slug@, a.meta.slug@) {
            let (sa, sb) = (a.meta.slug@, b.meta.slug@);
            let k = choose|k: int|
                0 <= k <= sb.len() && k <= sa.len() && #[trigger] sb.take(k) == sa.take(k) && ((k == sa.len() && k
                    < sb.len()) || (k < sb.len() && k < sa.len() && (sa[k] as u32) < (sb[k] as u32)));
            lemma_after_is_lex(sb, sa, k);
            lemma_lex_asymmetric(text_key(sa), text_key(sb));
            lemma_lex_irreflexive(text_key(x@));
        }
    }
}

/// In posts ordered for publishing, no post with a date is followed by one
/// with a later date, and of two posts with the same date none is followed
/// by one whose slug comes first.
pub proof fn lemma_published_order(r: Seq<Post>)
    requires
        sorted(r),
    ensures
        forall|i: int, j: int|
            0 <= i < j < r.len() && (#[trigger] r[i]).meta.date is Some && (#[trigger] r[j]).meta.date is Some ==> {
                let x = r[i].meta.date->0@;
                let y = r[j].meta.date->0@;
                !text_after(y, x) && (x == y ==> !text_after(r[i].meta.slug@, r[j].meta.slug@))
            },
{
    assert forall|i: int, j: int|
        0 <= i < j < r.len() && (#[trigger] r[i]).meta.date is Some && (#[trigger] r[j]).meta.date is Some implies {
            let x = r[i].meta.date->0@;
            let y = r[j].meta.date->0@;
            !text_after(y, x) && (x == y ==> !text_after(r[i].meta.slug@, r[j].meta.slug@))
        } by {
        lemma_post_rank(r[j], r[i]);
        assert(!r[j].before(&r[i]));
    }
}

/// The posts that are published: those that are not drafts.
pub open spec fn published(posts: Seq<Post>) -> Seq<Post> {
    posts.filter(|p: Post| !p.meta.draft)
}

/// No published post is a draft, and every post that is not a draft is
/// published, as often as it was given.
pub proof fn lemma_published(posts: Seq<Post>, out: Seq<Post>)
    requires
        out.to_multiset() == published(posts).to_multiset(),
    ensures
        forall|i: int| 0 <= i < out.len() ==> !(#[trigger] out[i]).meta.draft,
        forall|i: int| 0 <= i < posts.len() && !(#[trigger] posts[i]).meta.draft ==> out.contains(posts[i]),
{
    broadcast use vstd::seq_lib::group_filter_ensures;
    let f = |p: Post| !p.meta.draft;
    assert forall|i: int| 0 <= i < out.len() implies !(#[trigger] out[i]).meta.draft by {
        assert(out.to_multiset().contains(out[i]));
        assert(posts.filter(f).contains(out[i]));
    }
    assert forall|i: int| 0 <= i < posts.len() && !(#[trigger] posts[i]).meta.draft implies out.contains(posts[i]) by {
        assert(f(posts[i]));
        assert(posts.filter(f).contains(posts[i]));
        assert(published(posts).to_multiset().contains(posts[i]));
    }
}

/// Keeps the posts that are not drafts and sorts them newest first (slug
/// order within a date), keeping posts of equal rank in the order they
/// were given.
pub fn load_posts(posts: Vec<Post>) -> (r: Vec<Post>)
    ensures
        r@.to_multiset() == published(posts@).to_multiset(),
        sorted(r@),
        exists|perm: Seq<int>| stable_reordering(published(posts@), r@, perm),
        forall|i: int| 0 <= i < r@.len() ==> !(#[trigger] r@[i]).meta.draft,
{
    let mut kept: Vec<Post> = Vec::new();
    let mut rest = posts;
    let ghost all = rest@;
    let n = rest.len();
    assert(all.len() == n);
    let mut i: usize = 0;
    let ghost f = |p: Post| !p.meta.draft;
    while rest.len() > 0
        invariant
            f == (|p: Post| !p.meta.draft),
            all.len() <= usize::MAX,
            all.len() == i + rest@.len(),
            rest@ == all.skip(i as int),
            kept@ == all.take(i as int).filter(f),
        decreases rest.len(),
    {
        let p = rest.remove(0);
        assert(all.take(i + 1).drop_last() =~= all.take(i as int));
        assert(all.take(i + 1).last() == p);
        assert(all.skip(i + 1) =~= rest@);
        reveal_with_fuel(Seq::filter, 1);
        if !p.meta.draft {
            kept.push(p);
        }
        i = i + 1;
    }
    assert(all.take(i as int) =~= all);
    let r = sort_ranked(kept);
    proof {
        lemma_published(posts@, r@);
    }
    r
}

/// Ordering posts a second time changes nothing: what `load_posts` gives,
/// given back to it, comes back unchanged.
pub proof fn lemma_load_posts_idempotent(posts: Seq<Post>, once: Seq<Post>, twice: Seq<Post>)
    requires
        sorted(once),
        exists|perm: Seq<int>| stable_reordering(published(posts), once, perm),
        forall|i: int| 0 <= i < once.len() ==> !(#[trigger] once[i]).meta.draft,
        sorted(twice),
        exists|perm: Seq<int>| stable_reordering(published(once), twice, perm),
    ensures
        twice == once,
{
    broadcast use vstd::seq_lib::group_filter_ensures;
    assert(published(once) =~= once) by {
        lemma_filter_keeps_all(once);
    }
    let id = Seq::new(once.len(), |k: int| k);
    assert(stable_reordering(once, once, id));
    let p2 = choose|perm: Seq<int>| stable_reordering(published(once), twice, perm);
    lemma_stable_sort_unique(once, once, twice, id, p2);
}

proof fn lemma_filter_keeps_all(s: Seq<Post>)
    requires
        forall|i: int| 0 <= i < s.len() ==> !(#[trigger] s[i]).meta.draft,
    ensures
        published(s) == s,
    decreases s.len(),
{
    reveal_with_fuel(Seq::filter, 1);
    if s.len() > 0 {
        let init = s.drop_last();
        assert forall|i: int| 0 <= i < init.len() implies !(#[trigger] init[i]).meta.draft by {
            assert(init[i] == s[i]);
        }
        lemma_filter_keeps_all(init);
        assert(!s[s.len() - 1].meta.draft);
        assert(init.push(s.last()) =~= s);
    }
}

// ---------------------------------------------------------------------------
// The pages
// ---------------------------------------------------------------------------

/// Where a post's page is written: `slug/index.html` under the output
/// directory.
pub open spec fn spec_post_output_path(config: SiteConfig, post: Post) -> Seq<char> {
    spec_join(spec_join(config.output_dir@, post.meta.slug@), "index.html"@)
}

/// Where the index page is written.
pub open spec fn spec_index_output_path(config: SiteConfig) -> Seq<char> {
    spec_join(config.output_dir@, "index.html"@)
}

/// Where a post's page is written.
pub fn post_output_path(config: &SiteConfig, post: &Post) -> (r: String)
    ensures
        r@ == spec_post_output_path(*config, *post),
{
    let dir = join(config.output_dir.as_str(), post.meta.slug.as_str());
    join(dir.as_str(), "index.html")
}

/// Where the index page is written.
pub fn index_output_path(config: &SiteConfig) -> (r: String)
    ensures
        r@ == spec_index_output_path(*config),
{
    join(config.output_dir.as_str(), "index.html")
}

/// A page to write.
#[derive(Debug, Clone)]
pub struct OutputFile {
    pub path: String,
    pub contents: String,
}

/// The path and contents of each page.
pub open spec fn files_view(v: Seq<OutputFile>) -> Seq<(Seq<char>, Seq<char>)> {
    v.map_values(|f: OutputFile| (f.path@, f.contents@))
}

/// The pages of the posts, in order, up to the first one that fails to
/// render; and whether none failed.
pub open spec fn spec_post_files(
    templates: Map<Seq<char>, Seq<char>>,
    config: SiteConfig,
    posts: Seq<Post>,
) -> (Seq<(Seq<char>, Seq<char>)>, bool)
    decreases posts.len(),
{
    if posts.len() == 0 {
        (Seq::empty(), true)
    } else {
        match spec_post_page(templates, posts[0], config) {
            None => (Seq::empty(), false),
            Some(page) => {
                let (rest, ok) = spec_post_files(templates, config, posts.drop_first());
                (seq![(spec_post_output_path(config, posts[0]), page)] + rest, ok)
            },
        }
    }
}

/// The pages of a site: those of its posts, then the index page; stopping
/// at the first one that fails to render.  Also whether none failed.
pub open spec fn spec_site_files(
    templates: Map<Seq<char>, Seq<char>>,
    config: SiteConfig,
    posts: Seq<Post>,
) -> (Seq<(Seq<char>, Seq<char>)>, bool) {
    let (files, ok) = spec_post_files(templates, config, posts);
    if !ok {
        (files, false)
    } else {
        match spec_index_page(templates, config, posts) {
            None => (files, false),
            Some(index) => (files.push((spec_index_output_path(config), index)), true),
        }
    }
}

/// What a build produced: the published posts in page order, the pages
/// rendered (to be written in this order), and the rendering failure that
/// stopped it, if any.
#[derive(Debug)]
pub struct BuildOutput {
    pub posts: Vec<Post>,
    pub files: Vec<OutputFile>,
    pub failure: Option<Error>,
}

/// Builds the pages of a site from its parsed posts: drafts are left out,
/// the rest are sorted newest first, each gets its page, and the index page
/// lists them all.  Rendering stops at the first failure, which is
/// reported with the pages rendered before it.
pub fn build(config: &SiteConfig, engine: &TemplateEngine, posts: Vec<Post>) -> (r: BuildOutput)
    ensures
        r.posts@.to_multiset() == published(posts@).to_multiset(),
        sorted(r.posts@),
        exists|perm: Seq<int>| stable_reordering(published(posts@), r.posts@, perm),
        forall|i: int| 0 <= i < r.posts@.len() ==> !(#[trigger] r.posts@[i]).meta.draft,
        files_view(r.files@) == spec_site_files(engine.templates(), *config, r.posts@).0,
        r.failure is None <==> spec_site_files(engine.templates(), *config, r.posts@).1,
        r.failure matches Some(e) ==> e is Template,
{
    let ghost input = posts@;
    let ranked = load_posts(posts);
    let mut files: Vec<OutputFile> = Vec::new();
    let mut i: usize = 0;
    let ghost t = engine.templates();
    assert(ranked@.skip(0) =~= ranked@);
    while i < ranked.len()
        invariant
            i <= ranked.len(),
            t == engine.templates(),
            ranked@.to_multiset() == published(input).to_multiset(),
            forall|k: int| 0 <= k < ranked@.len() ==> !(#[trigger] ranked@[k]).meta.draft,
            exists|perm: Seq<int>| stable_reordering(published(input), ranked@, perm),
            input == posts@,
            sorted(ranked@),
            spec_post_files(t, *config, ranked@) == ({
                let (rest, ok) = spec_post_files(t, *config, ranked@.skip(i as int));
                (files_view(files@) + rest, ok)
            }),
        decreases ranked.len() - i,
    {
        assert(ranked@.skip(i as int)[0] == ranked@[i as int]);
        assert(ranked@.skip(i as int).drop_first() =~= ranked@.skip(i + 1));
        match engine.render_post(&ranked[i], config) {
            Ok(page) => {
                let ghost before = files_view(files@);
                files.push(OutputFile { path: post_output_path(config, &ranked[i]), contents: page });
                assert(files_view(files@) =~= before.push((spec_post_output_path(*config, ranked@[i as int]), page@)));
                let ghost (rest, ok) = spec_post_files(t, *config, ranked@.skip(i + 1));
                assert(before + (seq![(spec_post_output_path(*config, ranked@[i as int]), page@)] + rest)
                    =~= files_view(files@) + rest);
                i = i + 1;
            },
            Err(e) => {
                assert(files_view(files@) + Seq::empty() =~= files_view(files@));
                return BuildOutput { posts: ranked, files, failure: Some(e) };
            },
        }
    }
    assert(files_view(files@) + Seq::empty() =~= files_view(files@));
    match engine.render_index(config, &ranked) {
        Ok(page) => {
            let ghost before = files_view(files@);
            files.push(OutputFile { path: index_output_path(config), contents: page });
            assert(files_view(files@) =~= before.push((spec_index_output_path(*config), page@)));
            BuildOutput { posts: ranked, files, failure: None }
        },
        Err(e) => BuildOutput { posts: ranked, files, failure: Some(e) },
    }
}

/// A site that builds without failure has one page per published post, at
/// that post's path and in the same order, followed by the index page.
pub proof fn lemma_every_post_has_a_page(
    templates: Map<Seq<char>, Seq<char>>,
    config: SiteConfig,
    posts: Seq<Post>,
)
    ensures
        spec_site_files(templates, config, posts).1 ==> {
            let files = spec_site_files(templates, config, posts).0;
            &&& files.len() == posts.len() + 1
            &&& forall|i: int| 0 <= i < posts.len() ==> (#[trigger] files[i]).0 == spec_post_output_path(config, posts[i])
            &&& files[posts.len() as int].0 == spec_index_output_path(config)
        },
{
    lemma_post_files(templates, config, posts);
}

proof fn lemma_post_files(templates: Map<Seq<char>, Seq<char>>, config: SiteConfig, posts: Seq<Post>)
    ensures
        spec_post_files(templates, config, posts).1 ==> {
            let files = spec_post_files(templates, config, posts).0;
            &&& files.len() == posts.len()
            &&& forall|i: int| 0 <= i < posts.len() ==> (#[trigger] files[i]).0 == spec_post_output_path(config, posts[i])
        },
    decreases posts.len(),
{
    if posts.len() > 0 {
        lemma_post_files(templates, config, posts.drop_first());
        if let Some(page) = spec_post_page(templates, posts[0], config) {
            let (rest, ok) = spec_post_files(templates, config, posts.drop_first());
            let files = seq![(spec_post_output_path(config, posts[0]), page)] + rest;
            if ok {
                assert forall|i: int| 0 <= i < posts.len() implies (#[trigger] files[i]).0 == spec_post_output_path(config, posts[i]) by {
                    if i > 0 {
                        assert(files[i] == rest[i - 1]);
                        assert(posts.drop_first()[i - 1] == posts[i]);
                    }
                }
            }
        }
    }
}

} // verus!
