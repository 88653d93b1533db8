use slater::cmd::init::default_site_title;
use slater::config::DevConfig;
use slater::content::parser::fallback_title;
use slater::render::builder::is_markdown;
use slater::SiteConfig;
use slater::dev::watch::WatchSet;
use slater::fs::{collect_files, ensure_parent_dir};
use slater::order::{path_before, sort_ranked, text_before};
use slater::paths::join;
use slater::text::{is_blank, is_whitespace, replace_char, replace_str, starts_with, trimmed};

#[test]
fn whitespace_matches_std() {
    for u in 0u32..0x3100 {
        if let Some(c) = char::from_u32(u) {
            assert_eq!(is_whitespace(c), c.is_whitespace(), "char {u:#x}");
        }
    }
    for c in ['\u{feff}', '\u{200b}', 'a', '\u{10ffff}'] {
        assert_eq!(is_whitespace(c), c.is_whitespace());
    }
}

#[test]
fn blank_and_trim_match_std() {
    for s in ["", " ", "\t\n", "a", " a ", "\u{3000}x\u{2028}", "x y", "\u{85}"] {
        assert_eq!(is_blank(s), s.trim().is_empty(), "{s:?}");
        assert_eq!(trimmed(s), s.trim(), "{s:?}");
    }
}

#[test]
fn replace_matches_std() {
    for (s, pat, by) in [("aaa", "aa", "b"), ("abcabc", "bc", ""), ("", "x", "y"), ("xyx", "x", "xx"), ("ééé", "é", "e")] {
        assert_eq!(replace_str(s, pat, by), s.replace(pat, by));
    }
    assert_eq!(replace_char("a b  c", ' ', '-'), "a-b--c");
    assert!(starts_with("https://x", "https://"));
    assert!(!starts_with("http", "https://"));
}

#[test]
fn paths_join_like_std() {
    for (b, p) in [("a", "b"), ("a/", "b"), ("", "b"), ("a", "/b"), ("/x/y", "z/w"), ("a", "")] {
        assert_eq!(join(b, p), std::path::Path::new(b).join(p).to_string_lossy());
    }
    assert_eq!(ensure_parent_dir("out/post/index.html").as_deref(), Some("out/post"));
    assert_eq!(ensure_parent_dir("index.html").as_deref(), Some(""));
    assert_eq!(ensure_parent_dir("/"), None);
}

#[test]
fn orders_match_std() {
    let words = ["", "a", "ab", "b", "B", "é", "a-b", "a/b", "a/c", "a.b", "z"];
    for x in words {
        for y in words {
            assert_eq!(text_before(x, y), x < y, "{x:?} {y:?}");
            assert_eq!(
                path_before(x, y),
                std::path::Path::new(x) < std::path::Path::new(y),
                "{x:?} {y:?}"
            );
        }
    }
}

#[test]
fn collect_files_sorts_like_std() {
    let found: Vec<String> = ["c/a.md", "a-b.md", "a/b.md", "a/a.md", "B.md", "b.md"]
        .iter()
        .map(|s| format!("root/{s}"))
        .collect();
    let mut expected: Vec<std::path::PathBuf> = found.iter().map(std::path::PathBuf::from).collect();
    expected.sort();
    let got = collect_files(true, found.clone());
    let got: Vec<std::path::PathBuf> = got.iter().map(std::path::PathBuf::from).collect();
    assert_eq!(got, expected);
    assert!(collect_files(false, found).is_empty());
}

#[test]
fn sort_is_stable_by_rank() {
    let v: Vec<String> = ["b", "a", "c", "a"].iter().map(|s| s.to_string()).collect();
    assert_eq!(sort_ranked(v), vec!["a", "a", "b", "c"]);
}

#[test]
fn watch_set_appends() {
    let mut w = WatchSet::default();
    w.add("content");
    w.add("templates");
    w.add("content");
    assert_eq!(w.paths, vec!["content", "templates", "content"]);
}

#[test]
fn path_names_match_std() {
    let paths = [
        "", ".", "..", "/", "a", "a/", "a/.", "a/./", "a/..", "./a.md", "a//b.md/", "x/.hidden",
        "x/.hidden.md", "x/a.b.md", "x/a.MD", "/usr/bin/", "foo.txt/.//", "x/..", "a.", "x/.md",
    ];
    for p in paths {
        let std_path = std::path::Path::new(p);
        assert_eq!(
            is_markdown(p),
            std_path.extension().and_then(|e| e.to_str()).map(|e| e.eq_ignore_ascii_case("md")).unwrap_or(false),
            "{p:?}"
        );
        assert_eq!(
            fallback_title(p),
            std_path.file_stem().and_then(|n| n.to_str()).map(|n| n.replace('-', " ")),
            "{p:?}"
        );
        let name_is_usable = std_path
            .file_name()
            .and_then(|n| n.to_str())
            .map(|n| !n.trim().is_empty() && n.trim() != ".")
            .unwrap_or(false);
        assert_eq!(default_site_title(p) == "My Blog", !name_is_usable || p.ends_with("my-blog"), "{p:?}");
    }
}

#[test]
fn path_equality_matches_std() {
    let paths = ["public", "public/", "./public", "public/.", "public//", "/public", "pub", "public/x/..", "a/./b", "a/b"];
    for a in paths {
        for b in paths {
            let config = SiteConfig {
                content_dir: a.to_string(),
                output_dir: b.to_string(),
                dev: DevConfig::default(),
                ..SiteConfig::default()
            };
            let same = config.validate().is_err();
            assert_eq!(same, std::path::Path::new(a) == std::path::Path::new(b), "{a:?} {b:?}");
        }
    }
}
