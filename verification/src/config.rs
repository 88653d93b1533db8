//! The site configuration: its defaults, how its paths are resolved, and
//! the rules it must satisfy.
use vstd::prelude::*;

use crate::error::Error;
use crate::paths::{is_absolute, join, parent, same_path, spec_is_absolute, spec_join, spec_parent, spec_same_path};
use crate::text::{blank, concat, is_blank, owned, spec_is_whitespace, starts_with};

verus! {

/// The settings of a site.
#[derive(Debug, Clone)]
pub struct SiteConfig {
    pub title: String,
    pub base_url: String,
    pub content_dir: String,
    pub output_dir: String,
    pub template_dir: String,
    pub static_dir: String,
    /// The built-in theme whose templates stand in for missing project
    /// templates.
    pub theme: String,
    pub dev: DevConfig,
}

/// The settings of the development server.
#[derive(Debug, Clone)]
pub struct DevConfig {
    pub host: String,
    pub port: u16,
    pub live_reload: bool,
}

/// The settings of a site as plain values.
pub struct SiteConfigView {
    pub title: Seq<char>,
    pub base_url: Seq<char>,
    pub content_dir: Seq<char>,
    pub output_dir: Seq<char>,
    pub template_dir: Seq<char>,
    pub static_dir: Seq<char>,
    pub theme: Seq<char>,
    pub host: Seq<char>,
    pub port: u16,
    pub live_reload: bool,
}

impl View for SiteConfig {
    type V = SiteConfigView;

    open spec fn view(&self) -> SiteConfigView {
        SiteConfigView {
            title: self.title@,
            base_url: self.base_url@,
            content_dir: self.content_dir@,
            output_dir: self.output_dir@,
            template_dir: self.template_dir@,
            static_dir: self.static_dir@,
            theme: self.theme@,
            host: self.dev.host@,
            port: self.dev.port,
            live_reload: self.dev.live_reload,
        }
    }
}

impl SiteConfigView {
    /// The settings with the four directories resolved against `base`.
    pub open spec fn resolved_against(self, base: Seq<char>) -> SiteConfigView {
        SiteConfigView {
            content_dir: spec_resolve_path(base, self.content_dir),
            output_dir: spec_resolve_path(base, self.output_dir),
            template_dir: spec_resolve_path(base, self.template_dir),
            static_dir: spec_resolve_path(base, self.static_dir),
            ..self
        }
    }
}

impl Default for DevConfig {
    fn default() -> (r: Self)
        ensures
            r.host@ == "127.0.0.1"@,
            r.port == 3000,
            r.live_reload,
    {
        DevConfig { host: owned("127.0.0.1"), port: 3000, live_reload: true }
    }
}

impl Default for SiteConfig {
    fn default() -> (r: Self)
        ensures
            r@ == default_config(),
    {
        SiteConfig {
            title: owned("Slater"),
            base_url: owned("http://127.0.0.1:3000"),
            content_dir: owned("content"),
            output_dir: owned("public"),
            template_dir: owned("templates"),
            static_dir: owned("static"),
            theme: owned("default"),
            dev: DevConfig::default(),
        }
    }
}

/// The settings used when no configuration file is given.
pub open spec fn default_config() -> SiteConfigView {
    SiteConfigView {
        title: "Slater"@,
        base_url: "http://127.0.0.1:3000"@,
        content_dir: "content"@,
        output_dir: "public"@,
        template_dir: "templates"@,
        static_dir: "static"@,
        theme: "default"@,
        host: "127.0.0.1"@,
        port: 3000,
        live_reload: true,
    }
}

/// A relative path is taken relative to `base_dir`; an absolute one is kept.
pub open spec fn spec_resolve_path(base_dir: Seq<char>, p: Seq<char>) -> Seq<char> {
    if spec_is_absolute(p) {
        p
    } else {
        spec_join(base_dir, p)
    }
}

/// Resolves `path` against `base_dir`.
pub fn resolve_path(base_dir: &str, path: &str) -> (r: String)
    ensures
        r@ == spec_resolve_path(base_dir@, path@),
{
    if is_absolute(path) {
        owned(path)
    } else {
        join(base_dir, path)
    }
}

/// An absolute path is kept as it is; resolving against an absolute
/// directory always gives an absolute path; and resolving an already
/// resolved path again changes nothing.
pub proof fn lemma_resolve_path(base_dir: Seq<char>, p: Seq<char>)
    ensures
        spec_is_absolute(p) ==> spec_resolve_path(base_dir, p) == p,
        spec_is_absolute(base_dir) ==> spec_is_absolute(spec_resolve_path(base_dir, p)),
        spec_is_absolute(base_dir) ==> spec_resolve_path(base_dir, spec_resolve_path(base_dir, p))
            == spec_resolve_path(base_dir, p),
{
    if spec_is_absolute(base_dir) && !spec_is_absolute(p) {
        let r = spec_resolve_path(base_dir, p);
        assert(r[0] == base_dir[0]);
    }
}

/// The file the configuration is read from when no path is given.
pub open spec fn default_config_path() -> Seq<char> {
    "./slater.toml"@
}

/// What is wrong with the site fields, if anything.
pub open spec fn site_fields_problem(c: SiteConfigView) -> Option<Seq<char>> {
    if blank(c.title) {
        Some("site title cannot be empty"@)
    } else if blank(c.base_url) {
        Some("base_url cannot be empty"@)
    } else if !("http://"@.is_prefix_of(c.base_url) || "https://"@.is_prefix_of(c.base_url)) {
        Some("base_url must start with `http://` or `https://`"@)
    } else {
        None
    }
}

/// The site fields pass exactly when the title and the base address are not
/// blank and the base address begins with `http://` or `https://`, whatever
/// follows.
pub proof fn lemma_site_fields_accepted(c: SiteConfigView)
    ensures
        site_fields_problem(c) is None <==> {
            &&& exists|i: int| 0 <= i < c.title.len() && !spec_is_whitespace(#[trigger] c.title[i])
            &&& exists|i: int| 0 <= i < c.base_url.len() && !spec_is_whitespace(#[trigger] c.base_url[i])
            &&& (c.base_url.len() >= 7 && c.base_url.take(7) == seq!['h', 't', 't', 'p', ':', '/', '/']) || (
            c.base_url.len() >= 8 && c.base_url.take(8) == seq!['h', 't', 't', 'p', 's', ':', '/', '/'])
        },
{
    reveal_strlit("http://");
    reveal_strlit("https://");
    assert("http://"@ =~= seq!['h', 't', 't', 'p', ':', '/', '/']);
    assert("https://"@ =~= seq!['h', 't', 't', 'p', 's', ':', '/', '/']);
    if c.base_url.len() >= 7 {
        assert(c.base_url.subrange(0, 7) =~= c.base_url.take(7));
    }
    if c.base_url.len() >= 8 {
        assert(c.base_url.subrange(0, 8) =~= c.base_url.take(8));
    }
}

/// What is wrong with the development server settings, if anything.
pub open spec fn dev_config_problem(c: SiteConfigView) -> Option<Seq<char>> {
    if blank(c.host) {
        Some("dev.host cannot be empty"@)
    } else if c.port == 0 {
        Some("dev.port must be greater than 0"@)
    } else {
        None
    }
}

/// What is wrong with the directories, if anything: none of the inputs may
/// be the output directory.
pub open spec fn paths_problem(c: SiteConfigView) -> Option<Seq<char>> {
    if spec_same_path(c.content_dir, c.output_dir) {
        Some("content_dir and output_dir must be different"@)
    } else if spec_same_path(c.template_dir, c.output_dir) {
        Some("template_dir and output_dir must be different"@)
    } else if spec_same_path(c.static_dir, c.output_dir) {
        Some("static_dir and output_dir must be different"@)
    } else {
        None
    }
}

/// The first rule the configuration breaks, in the order they are checked.
pub open spec fn config_problem(c: SiteConfigView) -> Option<Seq<char>> {
    if site_fields_problem(c) is Some {
        site_fields_problem(c)
    } else if dev_config_problem(c) is Some {
        dev_config_problem(c)
    } else {
        paths_problem(c)
    }
}

/// The outcome of a check that finds `problem` (or nothing).
pub open spec fn reports(r: Result<(), Error>, problem: Option<Seq<char>>) -> bool {
    match problem {
        None => r is Ok,
        Some(m) => r matches Err(e) && e is Message && e.text() == m,
    }
}

fn fail(msg: &str) -> (r: Result<(), Error>)
    ensures
        r matches Err(e) && e is Message && e.text() == msg@,
{
    Err(Error::message(owned(msg)))
}

impl SiteConfig {
    /// Which configuration file to load: the given one, else `./slater.toml`
    /// when it exists, else none (the defaults are used).
    pub fn load_config(path: Option<&str>, default_exists: bool) -> (r: Option<String>)
        ensures
            match path {
                Some(p) => r matches Some(q) && q@ == p@,
                None => if default_exists {
                    r matches Some(q) && q@ == default_config_path()
                } else {
                    r is None
                },
            },
    {
        match path {
            Some(p) => Some(owned(p)),
            None => {
                if default_exists {
                    Some(owned("./slater.toml"))
                } else {
                    None
                }
            },
        }
    }

    /// Finishes loading the configuration file at `path`, given what was read
    /// from it (`None` when the file does not exist): relative directories
    /// are resolved against the file's directory and the result is validated.
    pub fn load_from_file(path: &str, loaded: Option<SiteConfig>) -> (r: Result<SiteConfig, Error>)
        ensures
            match loaded {
                None => r matches Err(e) && e is Message && e.text()
                    == "configuration file not found: "@ + path@,
                Some(c) => {
                    let base = match spec_parent(path@) {
                        Some(d) => d,
                        None => "."@,
                    };
                    let resolved = c@.resolved_against(base);
                    match config_problem(resolved) {
                        None => r matches Ok(out) && out@ == resolved,
                        Some(m) => r matches Err(e) && e is Message && e.text() == m,
                    }
                },
            },
    {
        match loaded {
            None => Err(Error::message(concat("configuration file not found: ", path))),
            Some(c) => {
                let mut config = c;
                let base = match parent(path) {
                    Some(d) => d,
                    None => owned("."),
                };
                config.resolve_paths(base.as_str());
                match config.validate() {
                    Ok(()) => Ok(config),
                    Err(e) => Err(e),
                }
            },
        }
    }

    /// Resolves the content, output, template and static directories against
    /// `base_dir`; nothing else changes.
    pub fn resolve_paths(&mut self, base_dir: &str)
        ensures
            final(self)@ == old(self)@.resolved_against(base_dir@),
    {
        self.content_dir = resolve_path(base_dir, self.content_dir.as_str());
        self.output_dir = resolve_path(base_dir, self.output_dir.as_str());
        self.template_dir = resolve_path(base_dir, self.template_dir.as_str());
        self.static_dir = resolve_path(base_dir, self.static_dir.as_str());
    }

    /// Checks every rule, in order, and reports the first one broken.
    pub fn validate(&self) -> (r: Result<(), Error>)
        ensures
            reports(r, config_problem(self@)),
    {
        match self.validate_site_fields() {
            Ok(()) => {},
            Err(e) => return Err(e),
        }
        match self.validate_dev_config() {
            Ok(()) => {},
            Err(e) => return Err(e),
        }
        self.validate_paths()
    }

    /// The title and base URL must not be blank, and the base URL must be an
    /// `http` or `https` URL.
    pub fn validate_site_fields(&self) -> (r: Result<(), Error>)
        ensures
            reports(r, site_fields_problem(self@)),
    {
        proof {
            reveal_strlit("http://");
            reveal_strlit("https://");
        }
        if is_blank(self.title.as_str()) {
            return fail("site title cannot be empty");
        }
        if is_blank(self.base_url.as_str()) {
            return fail("base_url cannot be empty");
        }
        if !(starts_with(self.base_url.as_str(), "http://") || starts_with(
            self.base_url.as_str(),
            "https://",
        )) {
            return fail("base_url must start with `http://` or `https://`");
        }
        Ok(())
    }

    /// The development host must not be blank and the port must not be 0.
    pub fn validate_dev_config(&self) -> (r: Result<(), Error>)
        ensures
            reports(r, dev_config_problem(self@)),
    {
        if is_blank(self.dev.host.as_str()) {
            return fail("dev.host cannot be empty");
        }
        if self.dev.port == 0 {
            return fail("dev.port must be greater than 0");
        }
        Ok(())
    }

    /// The content, template and static directories must each differ from
    /// the output directory.
    pub fn validate_paths(&self) -> (r: Result<(), Error>)
        ensures
            reports(r, paths_problem(self@)),
    {
        if same_path(self.content_dir.as_str(), self.output_dir.as_str()) {
            return fail("content_dir and output_dir must be different");
        }
        if same_path(self.template_dir.as_str(), self.output_dir.as_str()) {
            return fail("template_dir and output_dir must be different");
        }
        if same_path(self.static_dir.as_str(), self.output_dir.as_str()) {
            return fail("static_dir and output_dir must be different");
        }
        Ok(())
    }
}

} // verus!
