//! Planning the starter site that `init` writes: its directory, title,
//! configuration and files, and the checks made before anything is written.
use vstd::prelude::*;

use crate::error::{Error, ErrorView};
use crate::paths::{
    components, file_name, join, same_path, spec_file_name, spec_join, spec_same_path, spec_strip_prefix,
    strip_prefix,
};
use crate::text::{
    char_to_uppercase, chars_of, concat, owned, push_char, push_str, replace_all, replace_str,
    same_text, spec_char_to_uppercase, trim, trimmed,
};

verus! {

/// What the user asked `init` for.
#[derive(Debug, Clone, Default)]
pub struct InitOptions {
    /// Directory where the new site will be created.
    pub target_dir: Option<String>,
    /// Override of the site title written to `slater.toml`.
    pub title: Option<String>,
    /// Built-in theme to initialize.
    pub theme: Option<String>,
    /// Allow initialization in a non-empty directory.
    pub force: bool,
}

/// A file that `init` will write.
#[derive(Debug, Clone)]
pub struct PlannedFile {
    pub path: String,
    pub contents: String,
}

/// Everything `init` will do.
#[derive(Debug, Clone)]
pub struct InitPlan {
    pub root_dir: String,
    pub overwrite: bool,
    pub write_files: Vec<PlannedFile>,
}

/// A starter file found under an asset directory, with what reading it
/// gave (its text, or the error of the read).
#[derive(Debug)]
pub struct AssetFile {
    pub path: String,
    pub contents: Result<String, Error>,
}

/// What was read from the built-in assets: the configuration template and
/// the files found under the content, template and static asset
/// directories (or the error that listing them gave).
#[derive(Debug)]
pub struct InitSources {
    /// What reading `init_config_asset_path()` gave.
    pub config_template: Result<String, Error>,
    pub content: Result<Vec<AssetFile>, Error>,
    pub templates: Result<Vec<AssetFile>, Error>,
    pub statics: Result<Vec<AssetFile>, Error>,
}

impl PlannedFile {
    /// A file to write at `path` with `contents`.
    pub fn new(path: String, contents: String) -> (r: Self)
        ensures
            r.path == path,
            r.contents == contents,
    {
        PlannedFile { path, contents }
    }
}

/// The path and contents of each planned file.
pub open spec fn planned_view(v: Seq<PlannedFile>) -> Seq<(Seq<char>, Seq<char>)> {
    v.map_values(|f: PlannedFile| (f.path@, f.contents@))
}

// ---------------------------------------------------------------------------
// The site title
// ---------------------------------------------------------------------------

/// The characters that separate the words of a directory name.
pub open spec fn is_word_separator(c: char) -> bool {
    c == '-' || c == '_' || c == ' '
}

/// Reading `s` from the left: the words completed so far and the word in
/// progress.
pub open spec fn scan_words(s: Seq<char>) -> (Seq<Seq<char>>, Seq<char>)
    decreases s.len(),
{
    if s.len() == 0 {
        (Seq::empty(), Seq::empty())
    } else {
        let (done, cur) = scan_words(s.drop_last());
        let c = s.last();
        if is_word_separator(c) {
            if cur.len() > 0 {
                (done.push(cur), Seq::empty())
            } else {
                (done, Seq::empty())
            }
        } else {
            (done, cur.push(c))
        }
    }
}

/// The non-empty pieces of `s` between separators, in order.
pub open spec fn words(s: Seq<char>) -> Seq<Seq<char>> {
    let (done, cur) = scan_words(s);
    if cur.len() > 0 {
        done.push(cur)
    } else {
        done
    }
}

/// A word with its first character in upper case.
pub open spec fn spec_capitalize(w: Seq<char>) -> Seq<char> {
    if w.len() == 0 {
        Seq::empty()
    } else {
        spec_char_to_uppercase(w[0]) + w.drop_first()
    }
}

/// Words joined by single spaces.
pub open spec fn join_words(ws: Seq<Seq<char>>) -> Seq<char>
    decreases ws.len(),
{
    if ws.len() == 0 {
        Seq::empty()
    } else if ws.len() == 1 {
        ws[0]
    } else {
        join_words(ws.drop_last()) + seq![' '] + ws.last()
    }
}

/// The title made from a directory name: its words, capitalized and joined
/// by spaces.
pub open spec fn title_of_name(name: Seq<char>) -> Seq<char> {
    join_words(words(name).map_values(|w: Seq<char>| spec_capitalize(w)))
}

proof fn lemma_scan_one_word(s: Seq<char>)
    requires
        forall|i: int| 0 <= i < s.len() ==> #[trigger] s[i] != '-' && s[i] != '_' && s[i] != ' ',
    ensures
        scan_words(s) == (Seq::<Seq<char>>::empty(), s),
    decreases s.len(),
{
    if s.len() > 0 {
        let init = s.drop_last();
        assert forall|i: int| 0 <= i < init.len() implies #[trigger] init[i] != '-' && init[i] != '_' && init[i] != ' ' by {
            assert(init[i] == s[i]);
        }
        lemma_scan_one_word(init);
        assert(s[s.len() - 1] != '-' && s[s.len() - 1] != '_' && s[s.len() - 1] != ' ');
        assert(init.push(s.last()) =~= s);
    }
}

/// A directory name is split into words only at `-`, `_` and spaces: a
/// name holding none of them is one word, and its title is the name with
/// its first character in upper case.
pub proof fn lemma_title_of_single_word(name: Seq<char>)
    requires
        name.len() > 0,
        forall|i: int| 0 <= i < name.len() ==> #[trigger] name[i] != '-' && name[i] != '_' && name[i] != ' ',
    ensures
        title_of_name(name) == spec_char_to_uppercase(name[0]) + name.subrange(1, name.len() as int),
{
    lemma_scan_one_word(name);
    let ws = words(name);
    assert(ws =~= seq![name]);
    let f = |w: Seq<char>| spec_capitalize(w);
    assert(ws.map_values(f) =~= seq![spec_capitalize(name)]);
    assert(name.drop_first() =~= name.subrange(1, name.len() as int));
}

/// The title a new site gets from its directory: `My Blog` when the
/// directory has no usable name, else the title made from its name.
pub open spec fn spec_default_site_title(root_dir: Seq<char>) -> Seq<char> {
    match spec_file_name(root_dir) {
        None => "My Blog"@,
        Some(name) => {
            let t = trim(name);
            if t.len() == 0 || t == "."@ {
                "My Blog"@
            } else {
                title_of_name(t)
            }
        },
    }
}

/// A word with its first character in upper case (`capitalize_word`).
pub fn capitalize_word(word: &str) -> (r: String)
    ensures
        r@ == spec_capitalize(word@),
{
    let cs = chars_of(word);
    if cs.len() == 0 {
        return String::new();
    }
    let mut r = char_to_uppercase(cs[0]);
    let mut i: usize = 1;
    while i < cs.len()
        invariant
            cs@ == word@,
            1 <= i <= cs.len(),
            r@ == spec_char_to_uppercase(cs@[0]) + cs@.subrange(1, i as int),
        decreases cs.len() - i,
    {
        push_char(&mut r, cs[i]);
        assert(cs@.subrange(1, i + 1) =~= cs@.subrange(1, i as int).push(cs@[i as int]));
        i = i + 1;
    }
    assert(cs@.subrange(1, cs@.len() as int) =~= word@.drop_first());
    r
}

proof fn lemma_join_push(ws: Seq<Seq<char>>, w: Seq<char>)
    ensures
        join_words(ws.push(w)) == if ws.len() == 0 {
            w
        } else {
            join_words(ws) + seq![' '] + w
        },
{
    assert(ws.push(w).drop_last() =~= ws);
}

/// Appends a finished word, capitalized, to the title being built.
fn push_word(out: &mut String, count: usize, word: &String, Ghost(done): Ghost<Seq<Seq<char>>>)
    requires
        count == done.len(),
        old(out)@ == join_words(done.map_values(|w: Seq<char>| spec_capitalize(w))),
    ensures
        final(out)@ == join_words(
            done.push(word@).map_values(|w: Seq<char>| spec_capitalize(w)),
        ),
{
    let cap = capitalize_word(word.as_str());
    if count > 0 {
        push_char(out, ' ');
    }
    push_str(out, cap.as_str());
    proof {
        let f = |w: Seq<char>| spec_capitalize(w);
        assert(done.push(word@).map_values(f) =~= done.map_values(f).push(spec_capitalize(word@)));
        lemma_join_push(done.map_values(f), spec_capitalize(word@));
    }
}

/// The title made from a directory name.
pub fn title_from_name(name: &str) -> (r: String)
    ensures
        r@ == title_of_name(name@),
{
    let cs = chars_of(name);
    let mut out = String::new();
    let mut count: usize = 0;
    let mut cur = String::new();
    let mut i: usize = 0;
    let ghost f = |w: Seq<char>| spec_capitalize(w);
    assert(name@.take(0) =~= Seq::<char>::empty());
    assert(Seq::<Seq<char>>::empty().map_values(f) =~= Seq::<Seq<char>>::empty());
    while i < cs.len()
        invariant
            cs@ == name@,
            i <= cs.len(),
            f == (|w: Seq<char>| spec_capitalize(w)),
            scan_words(name@.take(i as int)).0.len() == count,
            count + cur@.len() <= i,
            scan_words(name@.take(i as int)).1 == cur@,
            out@ == join_words(scan_words(name@.take(i as int)).0.map_values(f)),
        decreases cs.len() - i,
    {
        let c = cs[i];
        let ghost before = name@.take(i as int);
        assert(name@.take(i + 1).drop_last() =~= before);
        let ghost done = scan_words(before).0;
        if c == '-' || c == '_' || c == ' ' {
            if !cur.as_str().is_empty() {
                assert(cur@.len() > 0);
                push_word(&mut out, count, &cur, Ghost(done));
                count = count + 1;
                cur = String::new();
            } else {
                assert(cur@.len() == 0) by {
                    assert(cur@.len() == 0);
                }
            }
        } else {
            push_char(&mut cur, c);
        }
        i = i + 1;
    }
    assert(name@.take(cs.len() as int) =~= name@);
    if !cur.as_str().is_empty() {
        let ghost done = scan_words(name@).0;
        push_word(&mut out, count, &cur, Ghost(done));
    }
    out
}

/// The title a new site gets from the name of its directory.
pub fn default_site_title(root_dir: &str) -> (r: String)
    ensures
        r@ == spec_default_site_title(root_dir@),
{
    let name = match file_name(root_dir) {
        Some(n) => n,
        None => return owned("My Blog"),
    };
    let t = trimmed(name.as_str());
    if t.as_str().is_empty() || same_text(t.as_str(), ".") {
        return owned("My Blog");
    }
    title_from_name(t.as_str())
}

// ---------------------------------------------------------------------------
// The configuration file
// ---------------------------------------------------------------------------

/// The starter configuration: the template with its title and theme
/// placeholders filled in.
pub open spec fn spec_render_init_config(
    template: Seq<char>,
    site_title: Seq<char>,
    theme: Seq<char>,
) -> Seq<char> {
    replace_all(
        replace_all(template, "__SLATER_SITE_TITLE__"@, site_title),
        "__SLATER_THEME__"@,
        theme,
    )
}

/// Fills the title and theme placeholders of the configuration template.
pub fn render_init_config(template: &str, site_title: &str, theme: &str) -> (r: String)
    ensures
        r@ == spec_render_init_config(template@, site_title@, theme@),
{
    proof {
        reveal_strlit("__SLATER_SITE_TITLE__");
        reveal_strlit("__SLATER_THEME__");
    }
    let titled = replace_str(template, "__SLATER_SITE_TITLE__", site_title);
    replace_str(titled.as_str(), "__SLATER_THEME__", theme)
}

// ---------------------------------------------------------------------------
// The plan
// ---------------------------------------------------------------------------

/// The directory a site is created in: the requested one, else the current
/// directory.
pub open spec fn spec_root_dir(target: Option<Seq<char>>) -> Seq<char> {
    match target {
        Some(t) => t,
        None => "."@,
    }
}

/// The theme a site is created with: the requested one, else `default`.
pub open spec fn spec_theme(theme: Option<Seq<char>>) -> Seq<char> {
    match theme {
        Some(t) => t,
        None => "default"@,
    }
}

/// The optional text as characters.
pub open spec fn opt_view(o: Option<String>) -> Option<Seq<char>> {
    match o {
        Some(s) => Some(s@),
        None => None,
    }
}

/// The directory holding the starter content shared by all themes.
pub open spec fn content_assets() -> Seq<char> {
    "assets/init/common/content"@
}

/// The directory of a built-in theme's `sub` directory.
pub open spec fn spec_theme_assets(theme: Seq<char>, sub: Seq<char>) -> Seq<char> {
    spec_join(spec_join("assets/themes"@, theme), sub)
}

/// The theme `init` uses for these options.
pub fn init_theme(options: &InitOptions) -> (r: String)
    ensures
        r@ == spec_theme(opt_view(options.theme)),
{
    match &options.theme {
        Some(t) => t.clone(),
        None => owned("default"),
    }
}

/// The asset directory of the starter content.
pub fn content_asset_dir() -> (r: String)
    ensures
        r@ == content_assets(),
{
    owned("assets/init/common/content")
}

/// The asset directory `sub` (`templates` or `static`) of a built-in theme.
pub fn theme_asset_dir(theme: &str, sub: &str) -> (r: String)
    ensures
        r@ == spec_theme_assets(theme@, sub@),
{
    let themes = join("assets/themes", theme);
    join(themes.as_str(), sub)
}

/// The message given when reading a starter asset failed.
pub open spec fn asset_read_message(path: Seq<char>, reason: Seq<char>) -> Seq<char> {
    "failed to load init asset "@ + path + ": "@ + reason
}

/// The error for a starter asset at `path` whose reading failed with
/// `error`.
pub fn asset_read_error(path: &str, error: &Error) -> (r: Error)
    ensures
        r@ == ErrorView::Message(asset_read_message(path@, error.text())),
{
    let mut msg = concat("failed to load init asset ", path);
    push_str(&mut msg, ": ");
    let reason = error.to_string();
    push_str(&mut msg, reason.as_str());
    proof {
        reveal_strlit("failed to load init asset ");
        reveal_strlit(": ");
    }
    Error::message(msg)
}

/// The starter configuration template.
pub open spec fn init_config_asset() -> Seq<char> {
    "assets/init/common/slater.toml"@
}

/// Where the starter configuration template is read from.
pub fn init_config_asset_path() -> (r: String)
    ensures
        r@ == init_config_asset(),
{
    owned("assets/init/common/slater.toml")
}

/// A found file lies under the asset directory `base` and can be placed
/// relative to it.
pub open spec fn strips_back(path: Seq<char>, base: Seq<char>) -> bool {
    spec_strip_prefix(path, base) matches Some(q) && spec_same_path(spec_join(base, q), path)
}

/// The message given when a found file is not under its asset directory.
pub open spec fn outside_assets_message(path: Seq<char>) -> Seq<char> {
    "failed to resolve relative path for "@ + path + ": prefix not found"@
}

/// The files planned from the assets found under `source_dir`: each goes
/// to the same place under `target_dir`, with what was read from it.  The
/// first failure, in file order, stops the plan.
pub open spec fn spec_planned(
    target_dir: Seq<char>,
    source_dir: Seq<char>,
    files: Seq<AssetFile>,
) -> Result<Seq<(Seq<char>, Seq<char>)>, ErrorView>
    decreases files.len(),
{
    if files.len() == 0 {
        Ok(Seq::empty())
    } else {
        let f = files[0];
        match spec_strip_prefix(f.path@, source_dir) {
            None => Err(ErrorView::Message(outside_assets_message(f.path@))),
            Some(rel) => match f.contents {
                Err(e) => Err(ErrorView::Message(asset_read_message(f.path@, e.text()))),
                Ok(c) => match spec_planned(target_dir, source_dir, files.drop_first()) {
                    Err(e) => Err(e),
                    Ok(rest) => Ok(seq![(spec_join(target_dir, rel), c@)] + rest),
                },
            },
        }
    }
}

/// `done` followed by the outcome `r`.
pub open spec fn after(done: Seq<(Seq<char>, Seq<char>)>, r: Result<Seq<(Seq<char>, Seq<char>)>, ErrorView>) -> Result<Seq<(Seq<char>, Seq<char>)>, ErrorView> {
    match r {
        Err(e) => Err(e),
        Ok(rest) => Ok(done + rest),
    }
}

/// Plans the files found under an asset directory.
pub fn planned_files_from_dir(target_dir: &str, source_dir: &str, files: Vec<AssetFile>) -> (r: Result<Vec<PlannedFile>, Error>)
    ensures
        match spec_planned(target_dir@, source_dir@, files@) {
            Err(e) => r matches Err(x) && x@ == e,
            Ok(v) => r matches Ok(out) && planned_view(out@) == v,
        },
        (forall|k: int| 0 <= k < files@.len() ==> (#[trigger] files@[k]).contents is Ok
            && components(source_dir@).is_prefix_of(components(files@[k].path@))) ==> r is Ok,
        r is Ok ==> forall|k: int| 0 <= k < files@.len() ==> strips_back((#[trigger] files@[k]).path@, source_dir@),
{
    let mut out: Vec<PlannedFile> = Vec::new();
    let mut i: usize = 0;
    assert(files@.skip(0) =~= files@);
    assert(planned_view(out@) + Seq::<(Seq<char>, Seq<char>)>::empty() =~= planned_view(out@));
    while i < files.len()
        invariant
            i <= files.len(),
            spec_planned(target_dir@, source_dir@, files@) == after(
                planned_view(out@),
                spec_planned(target_dir@, source_dir@, files@.skip(i as int)),
            ),
            forall|k: int| 0 <= k < i ==> strips_back((#[trigger] files@[k]).path@, source_dir@),
        decreases files.len() - i,
    {
        let f = &files[i];
        assert(files@.skip(i as int)[0] == files@[i as int]);
        assert(files@.skip(i as int).drop_first() =~= files@.skip(i + 1));
        let rel = match strip_prefix(f.path.as_str(), source_dir) {
            Some(rel) => rel,
            None => {
                let mut msg = concat("failed to resolve relative path for ", f.path.as_str());
                push_str(&mut msg, ": prefix not found");
                return Err(Error::message(msg));
            },
        };
        let contents = match &f.contents {
            Ok(c) => c.clone(),
            Err(e) => return Err(asset_read_error(f.path.as_str(), e)),
        };
        let ghost old_out = planned_view(out@);
        out.push(PlannedFile::new(join(target_dir, rel.as_str()), contents));
        proof {
            assert(planned_view(out@) =~= old_out.push((spec_join(target_dir@, rel@), contents@)));
            match spec_planned(target_dir@, source_dir@, files@.skip(i + 1)) {
                Err(e) => {},
                Ok(rest) => {
                    assert(old_out + (seq![(spec_join(target_dir@, rel@), contents@)] + rest)
                        =~= planned_view(out@) + rest);
                },
            }
        }
        i = i + 1;
    }
    assert(planned_view(out@) + Seq::<(Seq<char>, Seq<char>)>::empty() =~= planned_view(out@));
    Ok(out)
}

/// The plan for these options and sources: its root directory, whether it
/// may overwrite, and its files (the configuration first, then the starter
/// content, the theme's templates and the theme's static files), or the
/// first failure met while making it.
pub open spec fn spec_init_plan(options: InitOptions, sources: InitSources) -> Result<
    (Seq<char>, bool, Seq<(Seq<char>, Seq<char>)>),
    ErrorView,
> {
    let root = spec_root_dir(opt_view(options.target_dir));
    let title = match opt_view(options.title) {
        Some(t) => t,
        None => spec_default_site_title(root),
    };
    let theme = spec_theme(opt_view(options.theme));
    match sources.config_template {
        Err(e) => Err(ErrorView::Message(asset_read_message(init_config_asset(), e.text()))),
        Ok(template) => {
            let config = (spec_join(root, "slater.toml"@), spec_render_init_config(template@, title, theme));
            let content = match sources.content {
                Err(e) => Err(e@),
                Ok(files) => spec_planned(spec_join(root, "content"@), content_assets(), files@),
            };
            let templates = match sources.templates {
                Err(e) => Err(e@),
                Ok(files) => spec_planned(spec_join(root, "templates"@), spec_theme_assets(theme, "templates"@), files@),
            };
            let statics = match sources.statics {
                Err(e) => Err(e@),
                Ok(files) => spec_planned(spec_join(root, "static"@), spec_theme_assets(theme, "static"@), files@),
            };
            match (content, templates, statics) {
                (Err(e), _, _) => Err(e),
                (Ok(_), Err(e), _) => Err(e),
                (Ok(_), Ok(_), Err(e)) => Err(e),
                (Ok(c), Ok(t), Ok(s)) => Ok((root, options.force, seq![config] + c + t + s)),
            }
        },
    }
}

/// The files were listed, each was read, and each lies under `base`.
pub open spec fn readable_under(files: Result<Vec<AssetFile>, Error>, base: Seq<char>) -> bool {
    files matches Ok(v) && forall|k: int| 0 <= k < v@.len() ==> (#[trigger] v@[k]).contents is Ok
        && components(base).is_prefix_of(components(v@[k].path@))
}

fn planned_group(target: &str, source: &str, files: Result<Vec<AssetFile>, Error>) -> (r: Result<Vec<PlannedFile>, Error>)
    ensures
        readable_under(files, source@) ==> r is Ok,
        match files {
            Err(e) => r matches Err(x) && x@ == e@,
            Ok(v) => match spec_planned(target@, source@, v@) {
                Err(e) => r matches Err(x) && x@ == e,
                Ok(p) => r matches Ok(out) && planned_view(out@) == p,
            },
        },
{
    match files {
        Err(e) => Err(e),
        Ok(v) => planned_files_from_dir(target, source, v),
    }
}

fn append_planned(files: &mut Vec<PlannedFile>, more: Vec<PlannedFile>)
    ensures
        planned_view(final(files)@) == planned_view(old(files)@) + planned_view(more@),
{
    let mut more = more;
    let ghost start = planned_view(files@);
    let ghost all = planned_view(more@);
    files.append(&mut more);
    assert(planned_view(files@) =~= start + all);
}

impl InitPlan {
    /// Makes the plan for these options from the assets that were read.
    pub fn from_options(options: InitOptions, sources: InitSources) -> (r: Result<Self, Error>)
        ensures
            match spec_init_plan(options, sources) {
                Err(e) => r matches Err(x) && x@ == e,
                Ok((root, overwrite, files)) => r matches Ok(plan) && plan.root_dir@ == root
                    && plan.overwrite == overwrite && planned_view(plan.write_files@) == files,
            },
            ({
                let theme = spec_theme(opt_view(options.theme));
                &&& sources.config_template is Ok
                &&& readable_under(sources.content, content_assets())
                &&& readable_under(sources.templates, spec_theme_assets(theme, "templates"@))
                &&& readable_under(sources.statics, spec_theme_assets(theme, "static"@))
            }) ==> r is Ok,
    {
        let InitOptions { target_dir, title, theme, force } = options;
        let root_dir = match target_dir {
            Some(t) => t,
            None => owned("."),
        };
        let site_title = match title {
            Some(t) => t,
            None => default_site_title(root_dir.as_str()),
        };
        let theme = match theme {
            Some(t) => t,
            None => owned("default"),
        };
        let InitSources { config_template, content, templates, statics } = sources;
        let config = match config_template {
            Ok(t) => render_init_config(t.as_str(), site_title.as_str(), theme.as_str()),
            Err(e) => {
                let path = init_config_asset_path();
                return Err(asset_read_error(path.as_str(), &e));
            },
        };
        let mut write_files = vec![PlannedFile::new(join(root_dir.as_str(), "slater.toml"), config)];
        let content_target = join(root_dir.as_str(), "content");
        let content_source = content_asset_dir();
        let planned_content = planned_group(content_target.as_str(), content_source.as_str(), content);
        let planned_content = match planned_content {
            Ok(v) => v,
            Err(e) => return Err(e),
        };
        append_planned(&mut write_files, planned_content);
        let templates_target = join(root_dir.as_str(), "templates");
        let templates_source = theme_asset_dir(theme.as_str(), "templates");
        let planned_templates = match planned_group(templates_target.as_str(), templates_source.as_str(), templates) {
            Ok(v) => v,
            Err(e) => return Err(e),
        };
        append_planned(&mut write_files, planned_templates);
        let static_target = join(root_dir.as_str(), "static");
        let static_source = theme_asset_dir(theme.as_str(), "static");
        let planned_static = match planned_group(static_target.as_str(), static_source.as_str(), statics) {
            Ok(v) => v,
            Err(e) => return Err(e),
        };
        append_planned(&mut write_files, planned_static);
        proof {
            reveal_strlit("slater.toml");
            reveal_strlit("content");
            reveal_strlit("templates");
            reveal_strlit("static");
        }
        Ok(InitPlan { root_dir, overwrite: force, write_files })
    }
}

/// Whether the next steps after `init` begin by changing into the new
/// site's directory: they do unless it is the current directory (compared
/// as paths, component by component).
pub fn needs_cd(root_dir: &str) -> (r: bool)
    ensures
        r == !spec_same_path(root_dir@, "."@),
{
    !same_path(root_dir, ".")
}

// ---------------------------------------------------------------------------
// Checking the plan
// ---------------------------------------------------------------------------

/// The message given when the target directory already holds something.
pub open spec fn non_empty_message() -> Seq<char> {
    "target directory is not empty; use --force to continue"@
}

/// Whether the `i`-th planned file was found to exist (a missing answer
/// counts as not existing).
pub open spec fn found(existing: Seq<bool>, i: int) -> bool {
    0 <= i < existing.len() && existing[i]
}

/// What stops the plan, if anything: without `--force`, a target directory
/// that already holds entries, or else the first planned file that already
/// exists.
pub open spec fn plan_problem(plan: InitPlan, root_has_entries: bool, existing: Seq<bool>) -> Option<Seq<char>> {
    if plan.overwrite {
        None
    } else if root_has_entries {
        Some(non_empty_message())
    } else if exists|i: int| 0 <= i < plan.write_files@.len() && found(existing, i) {
        let i = choose|i: int| 0 <= i < plan.write_files@.len() && found(existing, i) && forall|j: int| 0 <= j < i ==> !found(existing, j);
        Some("file already exists: "@ + plan.write_files@[i].path@)
    } else {
        None
    }
}

/// Checks a plan against what is already on disk: whether the target
/// directory holds entries, and which planned files exist (`existing[i]`
/// for the `i`-th planned file).
pub fn validate_plan(plan: &InitPlan, root_has_entries: bool, existing: &Vec<bool>) -> (r: Result<(), Error>)
    ensures
        match plan_problem(*plan, root_has_entries, existing@) {
            None => r is Ok,
            Some(m) => r matches Err(e) && e is Message && e.text() == m,
        },
{
    if root_has_entries && !plan.overwrite {
        return Err(Error::message(owned("target directory is not empty; use --force to continue")));
    }
    let mut i: usize = 0;
    while i < plan.write_files.len()
        invariant
            i <= plan.write_files.len(),
            !(root_has_entries && !plan.overwrite),
            !plan.overwrite ==> forall|j: int| 0 <= j < i ==> !found(existing@, j),
        decreases plan.write_files.len() - i,
    {
        let present = i < existing.len() && existing[i];
        if present && !plan.overwrite {
            proof {
                assert(found(existing@, i as int));
                let k = choose|k: int| 0 <= k < plan.write_files@.len() && found(existing@, k) && forall|j: int| 0 <= j < k ==> !found(existing@, j);
                if k < i {
                } else if k > i {
                    assert(!found(existing@, i as int));
                }
            }
            return Err(Error::message(concat("file already exists: ", plan.write_files[i].path.as_str())));
        }
        i = i + 1;
    }
    Ok(())
}

/// With `--force` nothing on disk stops `init`; without it, a target
/// directory that holds entries always does.
pub proof fn lemma_force_overrides_checks(plan: InitPlan, root_has_entries: bool, existing: Seq<bool>)
    ensures
        plan.overwrite ==> plan_problem(plan, root_has_entries, existing) is None,
        !plan.overwrite && root_has_entries ==> plan_problem(plan, root_has_entries, existing)
            == Some(non_empty_message()),
{
}

} // verus!
