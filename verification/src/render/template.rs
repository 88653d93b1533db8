//! Templates: where each one is found, and how posts and the index are
//! rendered with them.
//!
//! Rendering is done by `minijinja`.  Its templates and context values are
//! opaque here: the contracts speak of what an environment holds
//! (`env_templates`), of what a context value holds (`value_contents`), and
//! of what rendering a template with a context gives (`rendered`).
use std::collections::BTreeMap;

use vstd::prelude::*;

use crate::config::SiteConfig;
use crate::content::post::{opt_text, Post};
use crate::error::ErrorView;
use crate::paths::{join, spec_join};
use crate::text::{concat, owned, push_char, push_str};

verus! {

/// `minijinja::Environment`, held opaquely: what it holds is read only
/// through `env_templates`.
#[verifier::external_type_specification]
#[verifier::external_body]
pub struct ExEnvironment<'source>(minijinja::Environment<'source>);

/// `minijinja::Value`, held opaquely: what it holds is read only through
/// `value_contents`.
#[verifier::external_type_specification]
#[verifier::external_body]
pub struct ExValue(minijinja::Value);

/// What a template context holds.
pub enum Ctx {
    Text(Seq<char>),
    Nothing,
    List(Seq<Ctx>),
    Record(Map<Seq<char>, Ctx>),
}

/// The templates an environment holds, by name, with their sources.
pub uninterp spec fn env_templates(env: minijinja::Environment<'static>) -> Map<Seq<char>, Seq<char>>;

/// What a context value holds.
pub uninterp spec fn value_contents(v: minijinja::Value) -> Ctx;

/// Whether a template source compiles under the given name.
pub uninterp spec fn template_compiles(name: Seq<char>, source: Seq<char>) -> bool;

/// What rendering the template `name` of `templates` with context `ctx`
/// gives, or `None` when rendering fails.
pub uninterp spec fn rendered(templates: Map<Seq<char>, Seq<char>>, name: Seq<char>, ctx: Ctx) -> Option<Seq<char>>;

/// A set of compiled templates.
pub struct TemplateEngine {
    env: minijinja::Environment<'static>,
}

impl TemplateEngine {
    /// The templates held, by name, with their sources.
    pub closed spec fn templates(self) -> Map<Seq<char>, Seq<char>> {
        env_templates(self.env)
    }
}

/// No templates at all.
pub open spec fn no_templates() -> Map<Seq<char>, Seq<char>> {
    Map::empty()
}

/// `Environment::new`: a new environment holds no templates.
#[verifier::external_body]
fn empty_engine() -> (r: TemplateEngine)
    ensures
        env_templates(r.env) == no_templates(),
{
    TemplateEngine { env: minijinja::Environment::new() }
}

impl Default for TemplateEngine {
    /// An engine holding no templates.
    fn default() -> (r: Self)
        ensures
            r.templates() == no_templates(),
    {
        empty_engine()
    }
}

/// `Environment::add_template_owned`: compiles the source; when it
/// compiles, the template is stored under its name (replacing any earlier
/// one), and otherwise the templates are left as they were and the error's
/// text is returned.  Whether a source compiles is named, not described.
#[verifier::external_body]
fn add_template(engine: &mut TemplateEngine, name: String, source: String) -> (r: Result<(), String>)
    ensures
        r is Ok <==> template_compiles(name@, source@),
        r is Ok ==> env_templates(final(engine).env) == env_templates(old(engine).env).insert(name@, source@),
        r is Err ==> env_templates(final(engine).env) == env_templates(old(engine).env),
{
    match engine.env.add_template_owned(name, source) {
        Ok(()) => Ok(()),
        Err(e) => Err(e.to_string()),
    }
}

/// `Environment::get_template` followed by `Template::render`: looks the
/// template up by name (failing when none of that name is held) and
/// renders it with the context; a failure gives the error's text.  What
/// rendering gives is named, not described.
#[verifier::external_body]
fn render_template(engine: &TemplateEngine, name: &str, ctx: minijinja::Value) -> (r: Result<String, String>)
    ensures
        !env_templates(engine.env).contains_key(name@) ==> r is Err,
        r is Ok <==> rendered(env_templates(engine.env), name@, value_contents(ctx)) is Some,
        r matches Ok(s) ==> rendered(env_templates(engine.env), name@, value_contents(ctx)) == Some(s@),
{
    match engine.env.get_template(name) {
        Ok(t) => match t.render(ctx) {
            Ok(s) => Ok(s),
            Err(e) => Err(e.to_string()),
        },
        Err(e) => Err(e.to_string()),
    }
}

/// `Value::from` on a string: a text value.
#[verifier::external_body]
fn text_value(s: String) -> (v: minijinja::Value)
    ensures
        value_contents(v) == Ctx::Text(s@),
{
    minijinja::Value::from(s)
}

/// `Value::from` on an optional string: a text value, or none.
#[verifier::external_body]
fn optional_value(o: Option<String>) -> (v: minijinja::Value)
    ensures
        value_contents(v) == match o {
            Some(s) => Ctx::Text(s@),
            None => Ctx::Nothing,
        },
{
    minijinja::Value::from(o)
}

/// The contents of each value of a list.
pub open spec fn contents_of(items: Seq<minijinja::Value>) -> Seq<Ctx> {
    items.map_values(|v: minijinja::Value| value_contents(v))
}

/// `Value::from` on a vector: a list value holding the items in order.
#[verifier::external_body]
fn list_value(items: Vec<minijinja::Value>) -> (v: minijinja::Value)
    ensures
        value_contents(v) == Ctx::List(contents_of(items@)),
{
    minijinja::Value::from(items)
}

/// The record holding the given fields under their names.
pub open spec fn record_of(fields: Seq<(String, minijinja::Value)>) -> Map<Seq<char>, Ctx>
    decreases fields.len(),
{
    if fields.len() == 0 {
        Map::empty()
    } else {
        record_of(fields.drop_last()).insert(fields.last().0@, value_contents(fields.last().1))
    }
}

/// No two fields share a name.
pub open spec fn distinct_names(fields: Seq<(String, minijinja::Value)>) -> bool {
    forall|i: int, j: int| 0 <= i < j < fields.len() ==> #[trigger] fields[i].0@ != #[trigger] fields[j].0@
}

/// `Value::from` on a `BTreeMap` collected from fields with distinct names:
/// a map value holding each field under its name.  Which of two fields of
/// one name `BTreeMap::from_iter` keeps is left open by its documentation,
/// so the fields must have distinct names.
#[verifier::external_body]
fn record_value(fields: Vec<(String, minijinja::Value)>) -> (v: minijinja::Value)
    requires
        distinct_names(fields@),
    ensures
        value_contents(v) == Ctx::Record(record_of(fields@)),
{
    minijinja::Value::from(fields.into_iter().collect::<BTreeMap<String, minijinja::Value>>())
}

// ---------------------------------------------------------------------------
// Where templates come from
// ---------------------------------------------------------------------------

/// The templates every site needs, in the order they are loaded.
pub open spec fn template_names() -> Seq<Seq<char>> {
    seq!["base.html"@, "index.html"@, "post.html"@]
}

/// The template directory of a built-in theme.
pub open spec fn spec_builtin_theme_template_dir(theme: Seq<char>) -> Seq<char> {
    spec_join(spec_join("assets/themes"@, theme), "templates"@)
}

/// The template directory of a built-in theme.
pub fn builtin_theme_template_dir(theme: &str) -> (r: String)
    ensures
        r@ == spec_builtin_theme_template_dir(theme@),
{
    let themes = join("assets/themes", theme);
    join(themes.as_str(), "templates")
}

/// Where the project's own copy of a template would be.
pub fn project_template_path(config: &SiteConfig, name: &str) -> (r: String)
    ensures
        r@ == spec_join(config.template_dir@, name@),
{
    join(config.template_dir.as_str(), name)
}

/// Where the theme's copy of a template would be.
pub fn builtin_template_path(config: &SiteConfig, name: &str) -> (r: String)
    ensures
        r@ == spec_join(spec_builtin_theme_template_dir(config.theme@), name@),
{
    let dir = builtin_theme_template_dir(config.theme.as_str());
    join(dir.as_str(), name)
}

/// The message given when neither the project nor the theme has a template.
pub open spec fn missing_template_message(name: Seq<char>, template_dir: Seq<char>, theme: Seq<char>) -> Seq<char> {
    "template `"@ + name + "` not found in project directory ("@ + template_dir
        + ") or built-in theme `"@ + theme + "` ("@ + spec_builtin_theme_template_dir(theme) + ")"@
}

/// Chooses the source of template `name`: the project's copy when it exists
/// (`project` holds what reading it gave), else the theme's copy when it
/// exists, else an error naming both places.
pub fn load_template_source(
    config: &SiteConfig,
    name: &str,
    project: Option<Result<String, crate::error::Error>>,
    builtin: Option<Result<String, crate::error::Error>>,
) -> (r: Result<String, crate::error::Error>)
    ensures
        match (project, builtin) {
            (Some(read), _) => r == read,
            (None, Some(read)) => r == read,
            (None, None) => r matches Err(e) && e is Message && e.text() == missing_template_message(
                name@,
                config.template_dir@,
                config.theme@,
            ),
        },
{
    if let Some(read) = project {
        return read;
    }
    if let Some(read) = builtin {
        return read;
    }
    let mut msg = concat("template `", name);
    push_str(&mut msg, "` not found in project directory (");
    push_str(&mut msg, config.template_dir.as_str());
    push_str(&mut msg, ") or built-in theme `");
    push_str(&mut msg, config.theme.as_str());
    push_str(&mut msg, "` (");
    let dir = builtin_theme_template_dir(config.theme.as_str());
    push_str(&mut msg, dir.as_str());
    push_str(&mut msg, ")");
    Err(crate::error::Error::message(msg))
}

// ---------------------------------------------------------------------------
// Views of the site and of posts
// ---------------------------------------------------------------------------

/// What templates see of the site.
pub open spec fn site_ctx(config: SiteConfig) -> Ctx {
    Ctx::Record(
        Map::empty().insert("title"@, Ctx::Text(config.title@)).insert(
            "base_url"@,
            Ctx::Text(config.base_url@),
        ),
    )
}

/// The address of a post's page.
pub open spec fn post_url(slug: Seq<char>) -> Seq<char> {
    seq!['/'] + slug + seq!['/']
}

/// A post's summary: the declared one, else its excerpt.
pub open spec fn post_summary(post: Post) -> Option<Seq<char>> {
    match opt_text(post.meta.summary) {
        Some(s) => Some(s),
        None => opt_text(post.excerpt),
    }
}

/// What templates see of a post.
pub open spec fn post_ctx(post: Post) -> Ctx {
    Ctx::Record(
        Map::empty().insert("title"@, Ctx::Text(post.meta.title@)).insert(
            "date"@,
            match opt_text(post.meta.date) {
                Some(d) => Ctx::Text(d),
                None => Ctx::Nothing,
            },
        ).insert("content"@, Ctx::Text(post.html@)).insert(
            "url"@,
            Ctx::Text(post_url(post.meta.slug@)),
        ).insert(
            "summary"@,
            match post_summary(post) {
                Some(s) => Ctx::Text(s),
                None => Ctx::Nothing,
            },
        ),
    )
}

/// What templates see of a post.
#[derive(Debug, Clone)]
pub struct PostView {
    pub title: String,
    pub date: Option<String>,
    pub content: String,
    pub url: String,
    pub summary: Option<String>,
}

fn clone_opt(o: &Option<String>) -> (r: Option<String>)
    ensures
        r == *o,
{
    match o {
        Some(s) => Some(s.clone()),
        None => None,
    }
}

impl PostView {
    /// The view of a post: its title, date and HTML, the address of its page
    /// (`/slug/`), and its summary (the declared one, else the excerpt).
    pub fn from_post(post: &Post) -> (r: Self)
        ensures
            r.title@ == post.meta.title@,
            opt_text(r.date) == opt_text(post.meta.date),
            r.content@ == post.html@,
            r.url@ == post_url(post.meta.slug@),
            opt_text(r.summary) == post_summary(*post),
    {
        let mut url = String::new();
        push_char(&mut url, '/');
        push_str(&mut url, post.meta.slug.as_str());
        push_char(&mut url, '/');
        let summary = match &post.meta.summary {
            Some(s) => Some(s.clone()),
            None => clone_opt(&post.excerpt),
        };
        PostView {
            title: post.meta.title.clone(),
            date: clone_opt(&post.meta.date),
            content: post.html.clone(),
            url,
            summary,
        }
    }

    /// What templates see of this view.
    pub open spec fn ctx(self) -> Ctx {
        Ctx::Record(
            Map::empty().insert("title"@, Ctx::Text(self.title@)).insert(
                "date"@,
                match opt_text(self.date) {
                    Some(d) => Ctx::Text(d),
                    None => Ctx::Nothing,
                },
            ).insert("content"@, Ctx::Text(self.content@)).insert("url"@, Ctx::Text(self.url@)).insert(
                "summary"@,
                match opt_text(self.summary) {
                    Some(s) => Ctx::Text(s),
                    None => Ctx::Nothing,
                },
            ),
        )
    }

    /// This view as a template value.
    pub fn to_value(self) -> (v: minijinja::Value)
        ensures
            value_contents(v) == self.ctx(),
    {
        let ghost me = self;
        let PostView { title, date, content, url, summary } = self;
        let mut fields: Vec<(String, minijinja::Value)> = Vec::new();
        fields.push((owned("title"), text_value(title)));
        fields.push((owned("date"), optional_value(date)));
        fields.push((owned("content"), text_value(content)));
        fields.push((owned("url"), text_value(url)));
        fields.push((owned("summary"), optional_value(summary)));
        let ghost fs = fields@;
        proof {
            reveal_strlit("title");
            reveal_strlit("date");
            reveal_strlit("content");
            reveal_strlit("url");
            reveal_strlit("summary");
            assert(fs.len() == 5);
            assert(fs[0].0@ == "title"@ && fs[1].0@ == "date"@ && fs[2].0@ == "content"@);
            assert(fs[3].0@ == "url"@ && fs[4].0@ == "summary"@);
            assert forall|i: int, j: int| 0 <= i < j < fs.len() implies #[trigger] fs[i].0@ != #[trigger] fs[j].0@ by {
                if fs[i].0@ == fs[j].0@ {
                    assert(fs[i].0@.len() == fs[j].0@.len());
                    assert(fs[i].0@[0] == fs[j].0@[0]);
                }
            }
        }
        let v = record_value(fields);
        proof {
            reveal_strlit("title");
            reveal_strlit("date");
            reveal_strlit("content");
            reveal_strlit("url");
            reveal_strlit("summary");
            reveal_with_fuel(record_of, 6);
        }
        assert(record_of(fs) =~= match me.ctx() {
            Ctx::Record(m) => m,
            _ => Map::empty(),
        });
        v
    }
}

// ---------------------------------------------------------------------------
// The engine
// ---------------------------------------------------------------------------

/// How loading templates into an engine went.
pub enum LoadOutcome {
    /// Every template was read and compiled; these are the templates held.
    Loaded(Map<Seq<char>, Seq<char>>),
    /// Reading a template's source failed with this error.
    ReadFailed(ErrorView),
    /// A template's source did not compile.
    CompileFailed,
}

/// Loading one more template, given how loading went so far.
pub open spec fn load_one(so_far: LoadOutcome, name: Seq<char>, source: Result<String, crate::error::Error>) -> LoadOutcome {
    match so_far {
        LoadOutcome::Loaded(m) => match source {
            Err(e) => LoadOutcome::ReadFailed(e@),
            Ok(s) => if template_compiles(name, s@) {
                LoadOutcome::Loaded(m.insert(name, s@))
            } else {
                LoadOutcome::CompileFailed
            },
        },
        other => other,
    }
}

/// Loading the base, index and post templates, in that order.
pub open spec fn spec_engine(
    base: Result<String, crate::error::Error>,
    index: Result<String, crate::error::Error>,
    post: Result<String, crate::error::Error>,
) -> LoadOutcome {
    load_one(
        load_one(load_one(LoadOutcome::Loaded(no_templates()), "base.html"@, base), "index.html"@, index),
        "post.html"@,
        post,
    )
}

/// An engine's outcome matches the expected one.
pub open spec fn loads_as(r: Result<TemplateEngine, crate::error::Error>, outcome: LoadOutcome) -> bool {
    match outcome {
        LoadOutcome::Loaded(m) => r matches Ok(e) && e.templates() == m,
        LoadOutcome::ReadFailed(ev) => r matches Err(x) && x@ == ev,
        LoadOutcome::CompileFailed => r matches Err(x) && x is Template,
    }
}

/// The page for a post: the post template rendered with the site and the
/// post, placed as content in the base template titled with the post's
/// title; `None` when rendering fails.
pub open spec fn spec_post_page(templates: Map<Seq<char>, Seq<char>>, post: Post, config: SiteConfig) -> Option<Seq<char>> {
    let ctx = Ctx::Record(Map::empty().insert("site"@, site_ctx(config)).insert("post"@, post_ctx(post)));
    match rendered(templates, "post.html"@, ctx) {
        None => None,
        Some(content) => rendered(
            templates,
            "base.html"@,
            Ctx::Record(
                Map::empty().insert("site"@, site_ctx(config)).insert("title"@, Ctx::Text(post.meta.title@)).insert(
                    "content"@,
                    Ctx::Text(content),
                ),
            ),
        ),
    }
}

/// The index page: the index template rendered with the site and the list
/// of posts, placed as content in the base template titled with the site's
/// title; `None` when rendering fails.
pub open spec fn spec_index_page(templates: Map<Seq<char>, Seq<char>>, config: SiteConfig, posts: Seq<Post>) -> Option<Seq<char>> {
    let ctx = Ctx::Record(
        Map::empty().insert("site"@, site_ctx(config)).insert(
            "posts"@,
            Ctx::List(posts.map_values(|p: Post| post_ctx(p))),
        ),
    );
    match rendered(templates, "index.html"@, ctx) {
        None => None,
        Some(content) => rendered(
            templates,
            "base.html"@,
            Ctx::Record(
                Map::empty().insert("site"@, site_ctx(config)).insert("title"@, Ctx::Text(config.title@)).insert(
                    "content"@,
                    Ctx::Text(content),
                ),
            ),
        ),
    }
}

/// What the templates see as `site`: a record holding the configuration's
/// title and base address, and nothing else; the post template sees it
/// beside the post, the index template beside the posts, and the base
/// template beside the page's title and content.
pub proof fn lemma_templates_see_the_site(
    templates: Map<Seq<char>, Seq<char>>,
    config: SiteConfig,
    post: Post,
    posts: Seq<Post>,
)
    ensures
        ({
            let site = Ctx::Record(
                Map::empty().insert("title"@, Ctx::Text(config.title@)).insert("base_url"@, Ctx::Text(config.base_url@)),
            );
            &&& spec_post_page(templates, post, config) == match rendered(
                templates,
                "post.html"@,
                Ctx::Record(Map::empty().insert("site"@, site).insert("post"@, post_ctx(post))),
            ) {
                None => None,
                Some(content) => rendered(
                    templates,
                    "base.html"@,
                    Ctx::Record(
                        Map::empty().insert("site"@, site).insert("title"@, Ctx::Text(post.meta.title@)).insert(
                            "content"@,
                            Ctx::Text(content),
                        ),
                    ),
                ),
            }
            &&& spec_index_page(templates, config, posts) == match rendered(
                templates,
                "index.html"@,
                Ctx::Record(
                    Map::empty().insert("site"@, site).insert(
                        "posts"@,
                        Ctx::List(posts.map_values(|p: Post| post_ctx(p))),
                    ),
                ),
            ) {
                None => None,
                Some(content) => rendered(
                    templates,
                    "base.html"@,
                    Ctx::Record(
                        Map::empty().insert("site"@, site).insert("title"@, Ctx::Text(config.title@)).insert(
                            "content"@,
                            Ctx::Text(content),
                        ),
                    ),
                ),
            }
        }),
{
}

/// A rendering outcome matches the expected page.
pub open spec fn renders_as(r: Result<String, crate::error::Error>, page: Option<Seq<char>>) -> bool {
    match page {
        Some(p) => r matches Ok(s) && s@ == p,
        None => r matches Err(e) && e is Template,
    }
}

fn site_value(config: &SiteConfig) -> (v: minijinja::Value)
    ensures
        value_contents(v) == site_ctx(*config),
{
    let mut fields: Vec<(String, minijinja::Value)> = Vec::new();
    fields.push((owned("title"), text_value(config.title.clone())));
    fields.push((owned("base_url"), text_value(config.base_url.clone())));
    let ghost fs = fields@;
    proof {
        reveal_strlit("title");
        reveal_strlit("base_url");
        assert(fs.len() == 2 && fs[0].0@ == "title"@ && fs[1].0@ == "base_url"@);
        assert(fs[0].0@.len() != fs[1].0@.len());
    }
    let v = record_value(fields);
    proof {
        reveal_strlit("title");
        reveal_strlit("base_url");
        reveal_with_fuel(record_of, 3);
    }
    assert(record_of(fs) =~= match site_ctx(*config) {
        Ctx::Record(m) => m,
        _ => Map::empty(),
    });
    v
}

fn pair_value(k1: &str, v1: minijinja::Value, k2: &str, v2: minijinja::Value) -> (v: minijinja::Value)
    requires
        k1@ != k2@,
    ensures
        value_contents(v) == Ctx::Record(
            Map::empty().insert(k1@, value_contents(v1)).insert(k2@, value_contents(v2)),
        ),
{
    let mut fields: Vec<(String, minijinja::Value)> = Vec::new();
    fields.push((owned(k1), v1));
    fields.push((owned(k2), v2));
    let ghost fs = fields@;
    assert(distinct_names(fs));
    let v = record_value(fields);
    proof {
        reveal_with_fuel(record_of, 3);
    }
    assert(record_of(fs) =~= Map::empty().insert(k1@, value_contents(v1)).insert(k2@, value_contents(v2)));
    v
}

fn page_value(config: &SiteConfig, title: &String, content: String) -> (v: minijinja::Value)
    ensures
        value_contents(v) == Ctx::Record(
            Map::empty().insert("site"@, site_ctx(*config)).insert("title"@, Ctx::Text(title@)).insert(
                "content"@,
                Ctx::Text(content@),
            ),
        ),
{
    let mut fields: Vec<(String, minijinja::Value)> = Vec::new();
    fields.push((owned("site"), site_value(config)));
    fields.push((owned("title"), text_value(title.clone())));
    fields.push((owned("content"), text_value(content)));
    let ghost fs = fields@;
    proof {
        reveal_strlit("site");
        reveal_strlit("title");
        reveal_strlit("content");
        assert(fs.len() == 3 && fs[0].0@ == "site"@ && fs[1].0@ == "title"@ && fs[2].0@ == "content"@);
        assert forall|i: int, j: int| 0 <= i < j < fs.len() implies #[trigger] fs[i].0@ != #[trigger] fs[j].0@ by {
            if fs[i].0@ == fs[j].0@ {
                assert(fs[i].0@.len() == fs[j].0@.len());
                assert(fs[i].0@[0] == fs[j].0@[0]);
            }
        }
    }
    let v = record_value(fields);
    proof {
        reveal_strlit("site");
        reveal_strlit("title");
        reveal_strlit("content");
        reveal_with_fuel(record_of, 4);
    }
    assert(record_of(fs) =~= Map::empty().insert("site"@, site_ctx(*config)).insert(
        "title"@,
        Ctx::Text(title@),
    ).insert("content"@, Ctx::Text(content@)));
    v
}

fn post_value(post: &Post) -> (v: minijinja::Value)
    ensures
        value_contents(v) == post_ctx(*post),
{
    let view = PostView::from_post(post);
    view.to_value()
}

impl TemplateEngine {
    /// Compiles the base, index and post templates from their sources (each
    /// the outcome of reading it); the first failure, in that order, stops
    /// the loading.
    pub fn new(
        base: Result<String, crate::error::Error>,
        index: Result<String, crate::error::Error>,
        post: Result<String, crate::error::Error>,
    ) -> (r: Result<TemplateEngine, crate::error::Error>)
        ensures
            loads_as(r, spec_engine(base, index, post)),
    {
        proof {
            reveal_strlit("base.html");
            reveal_strlit("index.html");
            reveal_strlit("post.html");
        }
        let mut engine = empty_engine();
        let base = match base {
            Ok(s) => s,
            Err(e) => return Err(e),
        };
        match add_template(&mut engine, owned("base.html"), base) {
            Ok(()) => {},
            Err(text) => return Err(crate::error::Error::Template(text)),
        }
        let index = match index {
            Ok(s) => s,
            Err(e) => return Err(e),
        };
        match add_template(&mut engine, owned("index.html"), index) {
            Ok(()) => {},
            Err(text) => return Err(crate::error::Error::Template(text)),
        }
        let post = match post {
            Ok(s) => s,
            Err(e) => return Err(e),
        };
        match add_template(&mut engine, owned("post.html"), post) {
            Ok(()) => {},
            Err(text) => return Err(crate::error::Error::Template(text)),
        }
        Ok(engine)
    }

    /// Renders the page of a post.
    pub fn render_post(&self, post: &Post, config: &SiteConfig) -> (r: Result<String, crate::error::Error>)
        ensures
            renders_as(r, spec_post_page(self.templates(), *post, *config)),
    {
        proof {
            reveal_strlit("post.html");
            reveal_strlit("base.html");
            reveal_strlit("site");
            reveal_strlit("post");
        }
        assert("site"@[0] != "post"@[0]);
        let ctx = pair_value("site", site_value(config), "post", post_value(post));
        let content = match render_template(self, "post.html", ctx) {
            Ok(c) => c,
            Err(text) => return Err(crate::error::Error::Template(text)),
        };
        let page_ctx = page_value(config, &post.meta.title, content);
        match render_template(self, "base.html", page_ctx) {
            Ok(page) => Ok(page),
            Err(text) => Err(crate::error::Error::Template(text)),
        }
    }

    /// Renders the index page listing the posts in the order given.
    pub fn render_index(&self, config: &SiteConfig, posts: &Vec<Post>) -> (r: Result<String, crate::error::Error>)
        ensures
            renders_as(r, spec_index_page(self.templates(), *config, posts@)),
    {
        proof {
            reveal_strlit("index.html");
            reveal_strlit("base.html");
            reveal_strlit("site");
            reveal_strlit("posts");
        }
        let mut items: Vec<minijinja::Value> = Vec::new();
        let mut i: usize = 0;
        while i < posts.len()
            invariant
                i <= posts.len(),
                contents_of(items@) == posts@.take(i as int).map_values(|p: Post| post_ctx(p)),
            decreases posts.len() - i,
        {
            let ghost before = items@;
            items.push(post_value(&posts[i]));
            assert(contents_of(items@) =~= contents_of(before).push(post_ctx(posts@[i as int])));
            assert(posts@.take(i + 1).map_values(|p: Post| post_ctx(p)) =~= posts@.take(i as int).map_values(
                |p: Post| post_ctx(p),
            ).push(post_ctx(posts@[i as int])));
            i = i + 1;
        }
        assert(posts@.take(posts@.len() as int) =~= posts@);
        let list = list_value(items);
        assert("site"@.len() != "posts"@.len());
        let ctx = pair_value("site", site_value(config), "posts", list);
        let content = match render_template(self, "index.html", ctx) {
            Ok(c) => c,
            Err(text) => return Err(crate::error::Error::Template(text)),
        };
        let page_ctx = page_value(config, &config.title, content);
        match render_template(self, "base.html", page_ctx) {
            Ok(page) => Ok(page),
            Err(text) => Err(crate::error::Error::Template(text)),
        }
    }
}

/// An engine that loads holds exactly the base, index and post templates,
/// each with the source it was given.
pub proof fn lemma_loaded_engine(
    base: Result<String, crate::error::Error>,
    index: Result<String, crate::error::Error>,
    post: Result<String, crate::error::Error>,
)
    ensures
        spec_engine(base, index, post) matches LoadOutcome::Loaded(m) ==> {
            &&& base matches Ok(b) && m["base.html"@] == b@
            &&& index matches Ok(i) && m["index.html"@] == i@
            &&& post matches Ok(p) && m["post.html"@] == p@
            &&& m.dom() == set!["base.html"@, "index.html"@, "post.html"@]
        },
{
    reveal_strlit("base.html");
    reveal_strlit("index.html");
    reveal_strlit("post.html");
    let kb = "base.html"@;
    let ki = "index.html"@;
    let kp = "post.html"@;
    assert(kb.len() == 9 && ki.len() == 10 && kp.len() == 9);
    assert(kb[0] == 'b' && kp[0] == 'p');
    if let LoadOutcome::Loaded(m) = spec_engine(base, index, post) {
        if let (Ok(b), Ok(i), Ok(p)) = (base, index, post) {
            assert(m == no_templates().insert(kb, b@).insert(ki, i@).insert(kp, p@));
            assert(m.dom() =~= set![kb, ki, kp]);
        }
    }
}

} // verus!
