use slater::cmd::serve::ServeOptions;
use slater::config::{resolve_path, DevConfig};
use slater::{Error, SiteConfig};

fn minimal_config() -> SiteConfig {
    SiteConfig {
        title: "My Blog".to_string(),
        base_url: "http://127.0.0.1:3000".to_string(),
        ..SiteConfig::default()
    }
}

#[test]
fn loads_from_explicit_path() {
    let chosen = SiteConfig::load_config(Some("/tmp/site/slater.toml"), true);
    assert_eq!(chosen.as_deref(), Some("/tmp/site/slater.toml"));
    let config = SiteConfig::load_from_file("/tmp/site/slater.toml", Some(minimal_config()))
        .expect("load failed");
    assert_eq!(config.title, "My Blog");
    assert_eq!(config.base_url, "http://127.0.0.1:3000");
}

#[test]
fn fills_missing_fields() {
    let config = SiteConfig::load_from_file("/tmp/site/slater.toml", Some(minimal_config()))
        .expect("load failed");
    assert_eq!(config.content_dir, "/tmp/site/content");
    assert_eq!(config.output_dir, "/tmp/site/public");
    assert_eq!(config.template_dir, "/tmp/site/templates");
    assert_eq!(config.static_dir, "/tmp/site/static");
    assert_eq!(config.dev.host, "127.0.0.1");
    assert_eq!(config.dev.port, 3000);
    assert!(config.dev.live_reload);
}

#[test]
fn resolves_relative_paths() {
    let config = SiteConfig {
        content_dir: "posts".to_string(),
        output_dir: "dist".to_string(),
        template_dir: "views".to_string(),
        static_dir: "assets".to_string(),
        ..minimal_config()
    };
    let config = SiteConfig::load_from_file("/tmp/site/slater.toml", Some(config)).expect("load failed");
    assert_eq!(config.content_dir, "/tmp/site/posts");
    assert_eq!(config.output_dir, "/tmp/site/dist");
    assert_eq!(config.template_dir, "/tmp/site/views");
    assert_eq!(config.static_dir, "/tmp/site/assets");
}

#[test]
fn error_missing_config_file() {
    let error = SiteConfig::load_from_file("/tmp/site/missing.toml", None).expect_err("expected failure");
    assert!(
        error.to_string().contains("configuration file not found"),
        "unexpected error: {}",
        error.to_string()
    );
    assert_eq!(error.to_string(), "configuration file not found: /tmp/site/missing.toml");
}

#[test]
fn error_for_invalid_values() {
    let config = SiteConfig {
        content_dir: "site".to_string(),
        output_dir: "site".to_string(),
        ..minimal_config()
    };
    let error = SiteConfig::load_from_file("/tmp/x/slater.toml", Some(config))
        .expect_err("expected validation error");
    assert!(
        error.to_string().contains("content_dir and output_dir must be different"),
        "unexpected error: {}",
        error.to_string()
    );
}

// ----------------------------------------------------------------------------

#[test]
fn load_config_chooses_the_file() {
    assert_eq!(SiteConfig::load_config(None, true).as_deref(), Some("./slater.toml"));
    assert_eq!(SiteConfig::load_config(None, false), None);
    assert_eq!(SiteConfig::load_config(Some("a.toml"), false).as_deref(), Some("a.toml"));
}

#[test]
fn defaults_are_valid() {
    let config = SiteConfig::default();
    assert_eq!(config.title, "Slater");
    assert_eq!(config.base_url, "http://127.0.0.1:3000");
    assert_eq!(config.content_dir, "content");
    assert_eq!(config.output_dir, "public");
    assert_eq!(config.template_dir, "templates");
    assert_eq!(config.static_dir, "static");
    assert_eq!(config.theme, "default");
    assert!(config.validate().is_ok());
    let dev = DevConfig::default();
    assert_eq!((dev.host.as_str(), dev.port, dev.live_reload), ("127.0.0.1", 3000, true));
}

#[test]
fn config_in_bare_file_name_resolves_against_its_parent() {
    // `Path::parent` of a bare file name is the empty path.
    let config = SiteConfig::load_from_file("slater.toml", Some(minimal_config())).unwrap();
    assert_eq!(config.content_dir, "content");
    let config = SiteConfig::load_from_file("/", Some(minimal_config())).unwrap();
    assert_eq!(config.content_dir, "./content");
}

#[test]
fn resolve_path_keeps_absolute_paths() {
    assert_eq!(resolve_path("/base", "/abs/dir"), "/abs/dir");
    assert_eq!(resolve_path("/base/", "rel"), "/base/rel");
    assert_eq!(resolve_path("/base", "rel"), "/base/rel");
    assert_eq!(resolve_path("", "rel"), "rel");
}

fn message(config: &SiteConfig) -> Option<String> {
    config.validate().err().map(|e| {
        assert!(matches!(e, Error::Message(_)));
        e.to_string()
    })
}

#[test]
fn each_rule_has_its_message() {
    let ok = minimal_config();
    assert_eq!(message(&ok), None);
    let cases: Vec<(SiteConfig, &str)> = vec![
        (SiteConfig { title: " \t".to_string(), ..minimal_config() }, "site title cannot be empty"),
        (SiteConfig { base_url: "".to_string(), ..minimal_config() }, "base_url cannot be empty"),
        (SiteConfig { base_url: "ftp://x".to_string(), ..minimal_config() }, "base_url must start with `http://` or `https://`"),
        (SiteConfig { dev: DevConfig { host: "\n".to_string(), ..DevConfig::default() }, ..minimal_config() }, "dev.host cannot be empty"),
        (SiteConfig { dev: DevConfig { port: 0, ..DevConfig::default() }, ..minimal_config() }, "dev.port must be greater than 0"),
        (SiteConfig { template_dir: "public/".to_string(), ..minimal_config() }, "template_dir and output_dir must be different"),
        (SiteConfig { static_dir: "public/.".to_string(), ..minimal_config() }, "static_dir and output_dir must be different"),
    ];
    for (config, expected) in cases {
        assert_eq!(message(&config).as_deref(), Some(expected));
    }
    let https = SiteConfig { base_url: "https://example.org".to_string(), ..minimal_config() };
    assert_eq!(message(&https), None);
    // the first broken rule is the one reported
    let both = SiteConfig { title: "".to_string(), base_url: "".to_string(), ..minimal_config() };
    assert_eq!(message(&both).as_deref(), Some("site title cannot be empty"));
}

#[test]
fn serve_options_override_host_and_port() {
    let mut config = minimal_config();
    let options = ServeOptions { config_path: None, port: Some(8080), host: Some("0.0.0.0".to_string()) };
    options.apply(&mut config);
    assert_eq!(config.dev.port, 8080);
    assert_eq!(config.dev.host, "0.0.0.0");
    let mut config = minimal_config();
    ServeOptions::default().apply(&mut config);
    assert_eq!(config.dev.port, 3000);
    assert_eq!(config.dev.host, "127.0.0.1");
}
