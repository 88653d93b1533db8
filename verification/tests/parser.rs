use slater::content::front_matter::FrontMatter;
use slater::content::parser::{fallback_title, parse_post, render_markdown, split_front_matter};
use slater::Error;

#[test]
fn test_split_no_front_matter() {
    let source = "Hello, world!\n";
    let (fm, body) = split_front_matter(source).unwrap();
    assert!(fm.is_none());
    assert_eq!(body, "Hello, world!\n");
}

#[test]
fn test_split_empty_source() {
    let (fm, body) = split_front_matter("").unwrap();
    assert!(fm.is_none());
    assert_eq!(body, "");
}

#[test]
fn test_split_valid_front_matter() {
    let source = "+++\ntitle = \"Hello\"\n+++\nBody content\n";
    let (fm, body) = split_front_matter(source).unwrap();
    assert_eq!(fm.unwrap(), "title = \"Hello\"\n");
    assert_eq!(body, "Body content\n");
}

#[test]
fn test_split_empty_front_matter() {
    let source = "+++\n+++\nBody\n";
    let (fm, body) = split_front_matter(source).unwrap();
    assert_eq!(fm.unwrap(), "");
    assert_eq!(body, "Body\n");
}

#[test]
fn test_split_empty_body() {
    let source = "+++\ntitle = \"Hi\"\n+++\n";
    let (fm, body) = split_front_matter(source).unwrap();
    assert_eq!(fm.unwrap(), "title = \"Hi\"\n");
    assert_eq!(body, "");
}

#[test]
fn test_split_missing_closing_delimiter() {
    let source = "+++\ntitle = \"Hello\"\n";
    let result = split_front_matter(source);
    assert!(result.is_err());
    let msg = result.unwrap_err().to_string();
    assert!(msg.contains("missing a closing delimiter"));
}

#[test]
fn test_render_basic_markdown() {
    let html = render_markdown("# Hello\n\n**bold** and *italic*\n");
    assert!(html.contains("<h1>Hello</h1>"));
    assert!(html.contains("<strong>bold</strong>"));
    assert!(html.contains("<em>italic</em>"));
}

#[test]
fn test_render_strikethrough() {
    let html = render_markdown("~~deleted~~");
    assert!(html.contains("<del>deleted</del>"));
}

#[test]
fn test_render_table() {
    let md = "| A | B |\n|---|---|\n| 1 | 2 |\n";
    let html = render_markdown(md);
    assert!(html.contains("<table>"));
    assert!(html.contains("<th>A</th>") || html.contains("<th>A"));
}

#[test]
fn test_render_tasklist() {
    let md = "- [x] done\n- [ ] todo\n";
    let html = render_markdown(md);
    assert!(html.contains("checkbox"));
    assert!(html.contains("checked"));
}

#[test]
fn test_render_empty_input() {
    let html = render_markdown("");
    assert_eq!(html, "");
}

// ----------------------------------------------------------------------------

#[test]
fn split_message_names_the_delimiter() {
    let err = split_front_matter("+++\nno end").unwrap_err();
    assert_eq!(
        err,
        Error::Message(
            "front matter starts with `+++\n` but is missing a closing delimiter".to_string()
        )
    );
}

#[test]
fn split_takes_first_closing_line_and_reassembles() {
    let source = "+++\na = 1\n+++\nb\n+++\nc\n";
    let (fm, body) = split_front_matter(source).unwrap();
    assert_eq!(fm.unwrap(), "a = 1\n");
    assert_eq!(body, "b\n+++\nc\n");
    assert_eq!(format!("+++\n{}+++\n{}", fm.unwrap(), body), source);
}

#[test]
fn split_needs_delimiter_at_very_start() {
    let source = " +++\ntitle\n+++\n";
    let (fm, body) = split_front_matter(source).unwrap();
    assert!(fm.is_none());
    assert_eq!(body, source);
    // a closing line glued to a plus sign in the block is still found
    let (fm, body) = split_front_matter("+++\nx+\n+++\nrest").unwrap();
    assert_eq!(fm.unwrap(), "x+\n");
    assert_eq!(body, "rest");
}

#[test]
fn split_handles_multibyte_text() {
    let source = "+++\ntitle = \"héllo ✓\"\n+++\nbødy\n";
    let (fm, body) = split_front_matter(source).unwrap();
    assert_eq!(fm.unwrap(), "title = \"héllo ✓\"\n");
    assert_eq!(body, "bødy\n");
}

#[test]
fn fallback_title_reads_dashes_as_spaces() {
    assert_eq!(fallback_title("content/hello-world.md").unwrap(), "hello world");
    assert_eq!(fallback_title("a/b/my-first-post").unwrap(), "my first post");
    assert!(fallback_title("").is_none());
}

fn front_matter() -> FrontMatter {
    FrontMatter {
        title: Some("Hello World".to_string()),
        slug: Some("hello-world".to_string()),
        date: Some("2026-04-20".to_string()),
        tags: vec!["test".to_string()],
        draft: false,
        summary: Some("My first post.".to_string()),
    }
}

#[test]
fn parse_post_takes_declared_metadata() {
    let post = parse_post("content/x.md", Some(front_matter()), "Welcome to **Slater**.\n").unwrap();
    assert_eq!(post.source_path, "content/x.md");
    assert_eq!(post.meta.title, "Hello World");
    assert_eq!(post.meta.slug, "hello-world");
    assert_eq!(post.meta.date.as_deref(), Some("2026-04-20"));
    assert_eq!(post.meta.tags, vec!["test".to_string()]);
    assert!(!post.meta.draft);
    assert_eq!(post.meta.summary.as_deref(), Some("My first post."));
    assert_eq!(post.body, "Welcome to **Slater**.\n");
    assert!(post.html.contains("<strong>Slater</strong>"));
    assert!(post.excerpt.is_none());
}

#[test]
fn parse_post_derives_title_and_slug() {
    let post = parse_post("posts/My-Trip-Notes.md", None, "").unwrap();
    assert_eq!(post.meta.title, "My Trip Notes");
    assert_eq!(post.meta.slug, "my-trip-notes");
    assert_eq!(post.html, "");
    let mut fm = FrontMatter::default();
    fm.title = Some("Ärger Über Alles".to_string());
    let post = parse_post("p.md", Some(fm), "").unwrap();
    assert_eq!(post.meta.slug, "ärger-über-alles");
    let post = parse_post("", None, "").unwrap();
    assert_eq!(post.meta.title, "untitled");
    assert_eq!(post.meta.slug, "untitled");
}

#[test]
fn parse_post_rejects_blank_fields() {
    let cases: Vec<(FrontMatter, &str)> = vec![
        (FrontMatter { title: Some("  ".to_string()), ..front_matter() }, "front matter title cannot be empty"),
        (FrontMatter { slug: Some("\t".to_string()), ..front_matter() }, "front matter slug cannot be empty"),
        (FrontMatter { date: Some("".to_string()), ..front_matter() }, "front matter date cannot be empty"),
        (FrontMatter { summary: Some("\u{3000}".to_string()), ..front_matter() }, "front matter summary cannot be empty"),
        (FrontMatter { tags: vec!["a".to_string(), " ".to_string()], ..front_matter() }, "front matter tags cannot contain empty values"),
    ];
    for (fm, msg) in cases {
        let err = parse_post("p.md", Some(fm), "body").unwrap_err();
        assert_eq!(err, Error::Message(msg.to_string()));
    }
}

#[test]
fn front_matter_checks_title_before_tags() {
    let fm = FrontMatter {
        title: Some(" ".to_string()),
        tags: vec!["".to_string()],
        ..front_matter()
    };
    assert_eq!(
        fm.validate().unwrap_err().to_string(),
        "front matter title cannot be empty"
    );
    assert!(front_matter().validate().is_ok());
}
