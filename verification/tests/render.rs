use slater::content::front_matter::FrontMatter;
use slater::content::parser::{parse_post, split_front_matter};
use slater::content::post::{Post, PostMeta};
use slater::render::builder::{build, index_output_path, is_markdown, load_posts, post_output_path};
use slater::render::template::{
    builtin_template_path, builtin_theme_template_dir, load_template_source, project_template_path,
    PostView, TemplateEngine,
};
use slater::{Error, SiteConfig};

const BASE: &str = "<title>{{ title }} - {{ site.title }}</title><main>{{ content|safe }}</main>";
const INDEX: &str = "<h1>{{ site.title }}</h1>{% for post in posts %}<a href=\"{{ post.url|safe }}\">{{ post.title }}</a><p>{{ post.summary }}</p>{% endfor %}";
const POST: &str = "<article><h1>{{ post.title }}</h1>{{ post.content|safe }}</article>";

fn engine() -> TemplateEngine {
    TemplateEngine::new(Ok(BASE.to_string()), Ok(INDEX.to_string()), Ok(POST.to_string())).unwrap()
}

fn test_config(root: &str) -> SiteConfig {
    SiteConfig {
        title: "Test Site".to_string(),
        base_url: "http://127.0.0.1:3000".to_string(),
        content_dir: format!("{root}/content"),
        output_dir: format!("{root}/public"),
        template_dir: format!("{root}/templates"),
        static_dir: format!("{root}/static"),
        ..SiteConfig::default()
    }
}

fn post_from(path: &str, fm: FrontMatter, source: &str) -> Post {
    let (_, body) = split_front_matter(source).unwrap();
    parse_post(path, Some(fm), body).unwrap()
}

#[test]
fn builds_posts_index_and_static_assets() {
    let config = test_config("/tmp/t");
    let fm = FrontMatter {
        title: Some("Hello World".to_string()),
        slug: Some("hello-world".to_string()),
        date: Some("2026-04-20".to_string()),
        tags: vec!["test".to_string()],
        draft: false,
        summary: Some("My first post.".to_string()),
    };
    let post = post_from(
        "/tmp/t/content/hello-world.md",
        fm,
        "+++\ntitle = \"Hello World\"\n+++\n\nWelcome to **Slater**.\n",
    );
    let out = build(&config, &engine(), vec![post]);
    assert!(out.failure.is_none());
    assert_eq!(out.files.len(), 2);
    assert_eq!(out.files[0].path, "/tmp/t/public/hello-world/index.html");
    assert_eq!(out.files[1].path, "/tmp/t/public/index.html");
    let index = &out.files[1].contents;
    let page = &out.files[0].contents;
    assert!(index.contains("Test Site"));
    assert!(index.contains(r#"<a href="/hello-world/">Hello World</a>"#));
    assert!(index.contains("My first post."));
    assert!(page.contains("<strong>Slater</strong>"));
    assert!(page.contains("<title>Hello World - Test Site</title>"));
}

#[test]
fn skips_draft_posts() {
    let config = test_config("/tmp/d");
    let fm = FrontMatter {
        title: Some("Draft Post".to_string()),
        slug: Some("draft-post".to_string()),
        tags: vec![],
        draft: true,
        ..FrontMatter::default()
    };
    let post = post_from("/tmp/d/content/draft.md", fm, "+++\n+++\n\nThis should not be published.\n");
    let out = build(&config, &engine(), vec![post]);
    assert!(out.posts.is_empty());
    assert_eq!(out.files.len(), 1);
    assert!(!out.files.iter().any(|f| f.path.contains("draft-post")));
    assert!(!out.files[0].contents.contains("Draft Post"));
}

fn meta_post(slug: &str, date: Option<&str>, draft: bool) -> Post {
    Post {
        meta: PostMeta {
            title: slug.to_uppercase(),
            slug: slug.to_string(),
            date: date.map(|d| d.to_string()),
            draft,
            ..PostMeta::default()
        },
        ..Post::default()
    }
}

#[test]
fn posts_newest_first_then_by_slug() {
    let posts = vec![
        meta_post("c", Some("2024-01-01"), false),
        meta_post("nodate", None, false),
        meta_post("b", Some("2025-06-01"), false),
        meta_post("a", Some("2024-01-01"), false),
        meta_post("d", Some("2030-01-01"), true),
    ];
    let ordered: Vec<String> = load_posts(posts).into_iter().map(|p| p.meta.slug).collect();
    assert_eq!(ordered, vec!["b", "a", "c", "nodate"]);
}

#[test]
fn equal_rank_posts_keep_their_order() {
    let mut first = meta_post("same", Some("2024"), false);
    first.meta.title = "first".to_string();
    let mut second = meta_post("same", Some("2024"), false);
    second.meta.title = "second".to_string();
    let ordered: Vec<String> = load_posts(vec![first, second]).into_iter().map(|p| p.meta.title).collect();
    assert_eq!(ordered, vec!["first", "second"]);
}

#[test]
fn markdown_sources_by_extension() {
    assert!(is_markdown("a/b.md"));
    assert!(is_markdown("a/b.MD"));
    assert!(is_markdown("a/b.Md"));
    assert!(!is_markdown("a/b.markdown"));
    assert!(!is_markdown("a/md"));
    assert!(!is_markdown("a/b.mdx"));
    assert!(!is_markdown(".md"));
}

#[test]
fn output_paths() {
    let config = test_config("/o");
    assert_eq!(post_output_path(&config, &meta_post("x-y", None, false)), "/o/public/x-y/index.html");
    assert_eq!(index_output_path(&config), "/o/public/index.html");
}

#[test]
fn post_view_url_and_summary() {
    let mut post = meta_post("my-post", Some("2024-01-01"), false);
    post.excerpt = Some("excerpt".to_string());
    let view = PostView::from_post(&post);
    assert_eq!(view.url, "/my-post/");
    assert_eq!(view.summary.as_deref(), Some("excerpt"));
    post.meta.summary = Some("summary".to_string());
    assert_eq!(PostView::from_post(&post).summary.as_deref(), Some("summary"));
}

#[test]
fn template_sources_prefer_project_then_theme() {
    let config = test_config("/p");
    assert_eq!(project_template_path(&config, "post.html"), "/p/templates/post.html");
    assert_eq!(builtin_template_path(&config, "post.html"), "assets/themes/default/templates/post.html");
    assert_eq!(builtin_theme_template_dir("minimal"), "assets/themes/minimal/templates");
    let chosen = load_template_source(&config, "post.html", Some(Ok("P".to_string())), Some(Ok("T".to_string())));
    assert_eq!(chosen.unwrap(), "P");
    let chosen = load_template_source(&config, "post.html", None, Some(Ok("T".to_string())));
    assert_eq!(chosen.unwrap(), "T");
    let err = load_template_source(&config, "post.html", None, None).unwrap_err();
    assert_eq!(
        err.to_string(),
        "template `post.html` not found in project directory (/p/templates) or built-in theme `default` (assets/themes/default/templates)"
    );
    let read_error = load_template_source(&config, "post.html", Some(Err(Error::Io("denied".to_string()))), Some(Ok("T".to_string())));
    assert_eq!(read_error.unwrap_err(), Error::Io("denied".to_string()));
}

#[test]
fn engine_reports_load_and_compile_failures() {
    let err = TemplateEngine::new(Err(Error::Io("gone".to_string())), Ok(INDEX.to_string()), Ok("{% if".to_string()));
    assert_eq!(err.err().unwrap(), Error::Io("gone".to_string()));
    let err = TemplateEngine::new(Ok(BASE.to_string()), Ok(INDEX.to_string()), Ok("{% if".to_string()));
    assert!(matches!(err.err().unwrap(), Error::Template(_)));
}

#[test]
fn render_index_lists_posts_in_order() {
    let config = test_config("/r");
    let posts = vec![meta_post("one", None, false), meta_post("two", None, false)];
    let page = engine().render_index(&config, &posts).unwrap();
    let one = page.find("/one/").unwrap();
    let two = page.find("/two/").unwrap();
    assert!(one < two);
    assert!(page.starts_with("<title>Test Site - Test Site</title>"));
}

#[test]
fn render_failure_stops_the_build() {
    let strict_post = "{{ post.title | nosuchfilter }}";
    let engine = TemplateEngine::new(Ok(BASE.to_string()), Ok(INDEX.to_string()), Ok(strict_post.to_string()));
    match engine {
        Err(e) => assert!(matches!(e, Error::Template(_))),
        Ok(engine) => {
            let out = build(&test_config("/f"), &engine, vec![meta_post("a", None, false)]);
            assert!(out.files.is_empty());
            assert!(matches!(out.failure, Some(Error::Template(_))));
        }
    }
}

#[test]
fn ordering_posts_twice_changes_nothing() {
    let posts = vec![
        meta_post("c", Some("2024-01-01"), false),
        meta_post("nodate", None, false),
        meta_post("b", Some("2025-06-01"), false),
        meta_post("a", Some("2024-01-01"), false),
        meta_post("d", Some("2030-01-01"), true),
    ];
    let once = load_posts(posts);
    let once_slugs: Vec<String> = once.iter().map(|p| p.meta.slug.clone()).collect();
    let twice_slugs: Vec<String> = load_posts(once).into_iter().map(|p| p.meta.slug).collect();
    assert_eq!(twice_slugs, once_slugs);
    assert_eq!(twice_slugs, vec!["b", "a", "c", "nodate"]);
}

#[test]
fn default_engine_holds_no_templates() {
    let engine = TemplateEngine::default();
    let config = test_config("/x");
    let post = meta_post("p", None, false);
    assert!(matches!(engine.render_post(&post, &config), Err(Error::Template(_))));
    assert!(matches!(engine.render_index(&config, &vec![post]), Err(Error::Template(_))));
}
