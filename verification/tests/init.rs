use slater::cmd::init::{
    capitalize_word, content_asset_dir, default_site_title, init_theme, planned_files_from_dir,
    render_init_config, theme_asset_dir, asset_read_error, init_config_asset_path, needs_cd, validate_plan, AssetFile, InitOptions, InitPlan,
    InitSources, PlannedFile,
};
use slater::cmd::new::{requested_title, NewOptions};
use slater::Error;

#[test]
fn default_title_from_directory_name() {
    assert_eq!(default_site_title("./my-blog"), "My Blog");
    assert_eq!(default_site_title("/home/me/cool_site name"), "Cool Site Name");
    assert_eq!(default_site_title("--weird__dir--"), "Weird Dir");
    assert_eq!(default_site_title("."), "My Blog");
    assert_eq!(default_site_title(""), "My Blog");
    assert_eq!(default_site_title(".."), "My Blog");
    assert_eq!(default_site_title("/"), "My Blog");
    assert_eq!(default_site_title("projects/ "), "My Blog");
    assert_eq!(default_site_title("ünïcode-straße"), "Ünïcode Straße");
    assert_eq!(default_site_title("---"), "");
}

#[test]
fn capitalize_word_uppercases_first_char_only() {
    assert_eq!(capitalize_word("hello"), "Hello");
    assert_eq!(capitalize_word("hELLO"), "HELLO");
    assert_eq!(capitalize_word(""), "");
    assert_eq!(capitalize_word("ßtraße"), "SStraße");
}

#[test]
fn render_init_config_fills_placeholders() {
    let template = "title = \"__SLATER_SITE_TITLE__\"\ntheme = \"__SLATER_THEME__\"\n# __SLATER_THEME__\n";
    assert_eq!(
        render_init_config(template, "My Blog", "minimal"),
        "title = \"My Blog\"\ntheme = \"minimal\"\n# minimal\n"
    );
    // a title that looks like the theme placeholder is itself replaced
    assert_eq!(render_init_config("__SLATER_SITE_TITLE__", "__SLATER_THEME__", "x"), "x");
    assert_eq!(render_init_config("plain", "a", "b"), "plain");
}

fn asset(path: &str, contents: &str) -> AssetFile {
    AssetFile { path: path.to_string(), contents: Ok(contents.to_string()) }
}

fn view(files: &[PlannedFile]) -> Vec<(String, String)> {
    files.iter().map(|f| (f.path.clone(), f.contents.clone())).collect()
}

#[test]
fn planned_files_keep_relative_layout() {
    let files = vec![
        asset("assets/init/common/content/about.md", "about"),
        asset("assets/init/common/content/posts/hello.md", "hello"),
    ];
    let planned = planned_files_from_dir("site/content", "assets/init/common/content", files).unwrap();
    assert_eq!(
        view(&planned),
        vec![
            ("site/content/about.md".to_string(), "about".to_string()),
            ("site/content/posts/hello.md".to_string(), "hello".to_string()),
        ]
    );
}

#[test]
fn planned_files_report_first_failure() {
    let files = vec![
        asset("elsewhere/x.md", "x"),
        AssetFile { path: "src/y.md".to_string(), contents: Err(Error::Io("boom".to_string())) },
    ];
    let err = planned_files_from_dir("t", "src", files).unwrap_err();
    assert_eq!(
        err,
        Error::Message("failed to resolve relative path for elsewhere/x.md: prefix not found".to_string())
    );
    let files = vec![
        asset("src/a.md", "a"),
        AssetFile { path: "src/y.md".to_string(), contents: Err(Error::Io("boom".to_string())) },
    ];
    assert_eq!(
        planned_files_from_dir("t", "src", files).unwrap_err(),
        Error::Message("failed to load init asset src/y.md: boom".to_string())
    );
}

fn sources(theme: &str) -> InitSources {
    InitSources {
        config_template: Ok("title = \"__SLATER_SITE_TITLE__\"\ntheme = \"__SLATER_THEME__\"\n".to_string()),
        content: Ok(vec![asset("assets/init/common/content/hello-world.md", "hi")]),
        templates: Ok(vec![asset(&format!("assets/themes/{theme}/templates/base.html"), "B")]),
        statics: Ok(vec![asset(&format!("assets/themes/{theme}/static/style.css"), "C")]),
    }
}

#[test]
fn plan_lists_config_content_templates_static() {
    let options = InitOptions { target_dir: Some("./my-blog".to_string()), title: None, theme: None, force: false };
    assert_eq!(init_theme(&options), "default");
    assert_eq!(content_asset_dir(), "assets/init/common/content");
    assert_eq!(theme_asset_dir("default", "templates"), "assets/themes/default/templates");
    let plan = InitPlan::from_options(options, sources("default")).unwrap();
    assert_eq!(plan.root_dir, "./my-blog");
    assert!(!plan.overwrite);
    assert_eq!(
        view(&plan.write_files),
        vec![
            ("./my-blog/slater.toml".to_string(), "title = \"My Blog\"\ntheme = \"default\"\n".to_string()),
            ("./my-blog/content/hello-world.md".to_string(), "hi".to_string()),
            ("./my-blog/templates/base.html".to_string(), "B".to_string()),
            ("./my-blog/static/style.css".to_string(), "C".to_string()),
        ]
    );
}

#[test]
fn plan_uses_given_title_theme_and_current_dir() {
    let options = InitOptions {
        target_dir: None,
        title: Some("Notes".to_string()),
        theme: Some("minimal".to_string()),
        force: true,
    };
    let plan = InitPlan::from_options(options, sources("minimal")).unwrap();
    assert_eq!(plan.root_dir, ".");
    assert!(plan.overwrite);
    assert_eq!(plan.write_files[0].path, "./slater.toml");
    assert_eq!(plan.write_files[0].contents, "title = \"Notes\"\ntheme = \"minimal\"\n");
    assert_eq!(plan.write_files[2].path, "./templates/base.html");
}

#[test]
fn plan_fails_on_unreadable_assets() {
    let mut s = sources("default");
    s.config_template = Err(Error::Io("missing".to_string()));
    let err = InitPlan::from_options(InitOptions::default(), s).unwrap_err();
    assert_eq!(
        err,
        Error::Message("failed to load init asset assets/init/common/slater.toml: missing".to_string())
    );
    let mut s = sources("default");
    s.statics = Err(Error::Io("no dir".to_string()));
    assert_eq!(InitPlan::from_options(InitOptions::default(), s).unwrap_err(), Error::Io("no dir".to_string()));
}

fn plan(overwrite: bool) -> InitPlan {
    InitPlan {
        root_dir: "site".to_string(),
        overwrite,
        write_files: vec![
            PlannedFile::new("site/a".to_string(), "1".to_string()),
            PlannedFile::new("site/b".to_string(), "2".to_string()),
        ],
    }
}

#[test]
fn validate_plan_refuses_non_empty_target_without_force() {
    let err = validate_plan(&plan(false), true, &vec![]).unwrap_err();
    assert_eq!(err.to_string(), "target directory is not empty; use --force to continue");
    assert!(validate_plan(&plan(true), true, &vec![true, true]).is_ok());
    assert!(validate_plan(&plan(false), false, &vec![false, false]).is_ok());
    let err = validate_plan(&plan(false), false, &vec![false, true]).unwrap_err();
    assert_eq!(err.to_string(), "file already exists: site/b");
    // missing answers count as "does not exist"
    assert!(validate_plan(&plan(false), false, &vec![]).is_ok());
}

#[test]
fn new_reports_requested_title() {
    assert_eq!(requested_title(&NewOptions { title: None }), "untitled-post");
    assert_eq!(requested_title(&NewOptions { title: Some("x".to_string()) }), "x");
}

#[test]
fn asset_errors_name_the_asset() {
    assert_eq!(init_config_asset_path(), "assets/init/common/slater.toml");
    assert_eq!(
        asset_read_error("a/b.md", &Error::Io("denied".to_string())),
        Error::Message("failed to load init asset a/b.md: denied".to_string())
    );
}

#[test]
fn next_steps_change_directory_unless_current() {
    assert!(!needs_cd("."));
    assert!(!needs_cd("./"));
    assert!(needs_cd("./my-blog"));
    assert!(needs_cd("my-blog"));
    assert!(needs_cd(".."));
}

#[test]
fn files_joined_under_the_source_always_plan() {
    let files = vec![asset("src/./a.md", "a"), asset("src//b/c.md", "c"), asset("src/d/../e.md", "e")];
    let planned = planned_files_from_dir("t", "src/", files).unwrap();
    assert_eq!(
        view(&planned),
        vec![
            ("t/a.md".to_string(), "a".to_string()),
            ("t/b/c.md".to_string(), "c".to_string()),
            ("t/d/../e.md".to_string(), "e".to_string()),
        ]
    );
}
