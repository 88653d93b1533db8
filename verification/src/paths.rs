//! File system paths, held as text.
//!
//! Joining, components, file names, stems, extensions and equality are
//! written out here as `std::path::Path` defines them on Unix; the parent of
//! a path and the removal of a leading path are answered by `Path`, and the
//! contracts below name those answers.
use std::path::Path;

use vstd::prelude::*;

use crate::text::{chars_of, concat, owned, push_char, push_str};

verus! {

/// A path is absolute when it starts at the root.
pub open spec fn spec_is_absolute(p: Seq<char>) -> bool {
    p.len() > 0 && p[0] == '/'
}

/// Whether `p` is absolute (`Path::is_absolute`).
pub fn is_absolute(p: &str) -> (r: bool)
    ensures
        r == spec_is_absolute(p@),
{
    let cs = chars_of(p);
    cs.len() > 0 && cs[0] == '/'
}

/// `base` joined with `p` (`Path::join`): an absolute `p` replaces `base`;
/// otherwise `p` is appended, with a separator unless `base` is empty or
/// already ends with one.
pub open spec fn spec_join(base: Seq<char>, p: Seq<char>) -> Seq<char> {
    if spec_is_absolute(p) {
        p
    } else if base.len() == 0 || base.last() == '/' {
        base + p
    } else {
        base + seq!['/'] + p
    }
}

/// Joins `p` onto `base`.
pub fn join(base: &str, p: &str) -> (r: String)
    ensures
        r@ == spec_join(base@, p@),
{
    if is_absolute(p) {
        return owned(p);
    }
    let bs = chars_of(base);
    if bs.len() == 0 || bs[bs.len() - 1] == '/' {
        concat(base, p)
    } else {
        let mut r = owned(base);
        push_char(&mut r, '/');
        push_str(&mut r, p);
        r
    }
}

/// A path without its final component, as `Path::parent` gives it.
pub uninterp spec fn spec_parent(p: Seq<char>) -> Option<Seq<char>>;

/// What remains of `p` once the leading components `base` are removed, as
/// `Path::strip_prefix` gives it (`None` where `base` is not a prefix).
pub uninterp spec fn spec_strip_prefix(p: Seq<char>, base: Seq<char>) -> Option<Seq<char>>;

/// `Path::parent`: the result depends on the path alone; the contract names
/// it and says no more.
#[verifier::external_body]
pub(crate) fn parent(p: &str) -> (r: Option<String>)
    ensures
        r matches Some(n) ==> spec_parent(p@) == Some(n@),
        r is None ==> spec_parent(p@) is None,
{
    Some(Path::new(p).parent()?.to_str()?.to_owned())
}

/// `Path::strip_prefix`: the result depends on the two paths alone and is
/// named.  As its documentation says, it fails exactly when `base` is not a
/// prefix of `p` (`Path::starts_with`, which matches whole components), and
/// what it returns, joined onto `base`, is a path equal to `p`.
#[verifier::external_body]
pub(crate) fn strip_prefix(p: &str, base: &str) -> (r: Option<String>)
    ensures
        r matches Some(n) ==> spec_strip_prefix(p@, base@) == Some(n@),
        r is None ==> spec_strip_prefix(p@, base@) is None,
        r is Some <==> components(base@).is_prefix_of(components(p@)),
        r matches Some(n) ==> spec_same_path(spec_join(base@, n@), p@),
{
    Some(Path::new(p).strip_prefix(base).ok()?.to_str()?.to_owned())
}

// ---------------------------------------------------------------------------
// Components
// ---------------------------------------------------------------------------

/// A component of a path (`std::path::Component` on Unix).
pub enum Component {
    RootDir,
    CurDir,
    ParentDir,
    Normal(Seq<char>),
}

/// The component a piece between separators stands for: none for an empty
/// piece or `.`, the parent for `..`, else the piece itself.
pub open spec fn piece_components(piece: Seq<char>) -> Seq<Component> {
    if piece.len() == 0 || piece == seq!['.'] {
        Seq::empty()
    } else if piece == seq!['.', '.'] {
        seq![Component::ParentDir]
    } else {
        seq![Component::Normal(piece)]
    }
}

/// Reading `s` from the left: the components of the pieces completed so
/// far, and the piece in progress.
pub open spec fn scan_components(s: Seq<char>) -> (Seq<Component>, Seq<char>)
    decreases s.len(),
{
    if s.len() == 0 {
        (Seq::empty(), Seq::empty())
    } else {
        let (done, cur) = scan_components(s.drop_last());
        if s.last() == '/' {
            (done + piece_components(cur), Seq::empty())
        } else {
            (done, cur.push(s.last()))
        }
    }
}

/// The components of the pieces of `s` between separators.
pub open spec fn body_components(s: Seq<char>) -> Seq<Component> {
    let (done, cur) = scan_components(s);
    done + piece_components(cur)
}

/// A path starts with `.` as a component of its own (and not at the root).
pub open spec fn starts_at_cur_dir(p: Seq<char>) -> bool {
    !spec_is_absolute(p) && p.len() > 0 && p[0] == '.' && (p.len() == 1 || p[1] == '/')
}

/// The components of a path, as `Path::components` gives them on Unix: the
/// root when the path starts with `/`, else `.` when it starts with `.` as
/// a component, then the components of the pieces between separators
/// (where empty pieces and `.` are dropped).
pub open spec fn components(p: Seq<char>) -> Seq<Component> {
    if spec_is_absolute(p) {
        seq![Component::RootDir] + body_components(p.skip(1))
    } else if starts_at_cur_dir(p) {
        seq![Component::CurDir] + body_components(p.skip(1))
    } else {
        body_components(p)
    }
}

/// The final component of a path when it is a name (`Path::file_name`).
pub open spec fn spec_file_name(p: Seq<char>) -> Option<Seq<char>> {
    let c = components(p);
    if c.len() > 0 && c.last() is Normal {
        Some(c.last()->Normal_0)
    } else {
        None
    }
}

/// Two paths are equal when their components are (`==` on `Path`).
pub open spec fn spec_same_path(a: Seq<char>, b: Seq<char>) -> bool {
    components(a) == components(b)
}

/// A path component, held as text.
pub enum PathComponent {
    RootDir,
    CurDir,
    ParentDir,
    Normal(String),
}

impl View for PathComponent {
    type V = Component;

    open spec fn view(&self) -> Component {
        match self {
            PathComponent::RootDir => Component::RootDir,
            PathComponent::CurDir => Component::CurDir,
            PathComponent::ParentDir => Component::ParentDir,
            PathComponent::Normal(s) => Component::Normal(s@),
        }
    }
}

/// The views of a list of components.
pub open spec fn components_view(v: Seq<PathComponent>) -> Seq<Component> {
    v.map_values(|c: PathComponent| c@)
}

fn push_piece(out: &mut Vec<PathComponent>, piece: &Vec<char>)
    ensures
        components_view(final(out)@) == components_view(old(out)@) + piece_components(piece@),
{
    let ghost start = components_view(out@);
    if piece.len() == 0 || (piece.len() == 1 && piece[0] == '.') {
        assert(piece@.len() == 0 || piece@ =~= seq!['.']);
        assert(start + piece_components(piece@) =~= start);
        return;
    }
    if piece.len() == 2 && piece[0] == '.' && piece[1] == '.' {
        assert(piece@ =~= seq!['.', '.']);
        out.push(PathComponent::ParentDir);
        assert(components_view(out@) =~= start + seq![Component::ParentDir]);
        return;
    }
    assert(piece@ != seq!['.'] && piece@ != seq!['.', '.']) by {
        if piece@ == seq!['.'] {
            assert(piece@.len() == 1 && piece@[0] == '.');
        }
        if piece@ == seq!['.', '.'] {
            assert(piece@.len() == 2 && piece@[0] == '.' && piece@[1] == '.');
        }
    }
    out.push(PathComponent::Normal(crate::text::string_from_chars(piece)));
    assert(components_view(out@) =~= start + seq![Component::Normal(piece@)]);
}

/// The components of the pieces of `cs[from..]`.
fn body_components_of(cs: &Vec<char>, from: usize, out: &mut Vec<PathComponent>)
    requires
        from <= cs.len(),
    ensures
        components_view(final(out)@) == components_view(old(out)@) + body_components(cs@.skip(from as int)),
{
    let ghost start = components_view(out@);
    let ghost s = cs@.skip(from as int);
    let mut piece: Vec<char> = Vec::new();
    let mut i = from;
    assert(s.take(0) =~= Seq::<char>::empty());
    assert(start + Seq::<Component>::empty() =~= start);
    while i < cs.len()
        invariant
            from <= i <= cs.len(),
            s == cs@.skip(from as int),
            components_view(out@) == start + scan_components(s.take(i - from)).0,
            piece@ == scan_components(s.take(i - from)).1,
        decreases cs.len() - i,
    {
        let c = cs[i];
        let ghost before = s.take(i - from);
        assert(s.take(i - from + 1).drop_last() =~= before);
        assert(s.take(i - from + 1).last() == c);
        if c == '/' {
            push_piece(out, &piece);
            assert(components_view(out@) =~= start + (scan_components(before).0 + piece_components(
                scan_components(before).1,
            )));
            piece = Vec::new();
        } else {
            piece.push(c);
        }
        i = i + 1;
    }
    assert(s.take(cs.len() - from) =~= s);
    push_piece(out, &piece);
    assert(components_view(out@) =~= start + body_components(s));
}

/// The components of `p`.
pub fn path_components(p: &str) -> (r: Vec<PathComponent>)
    ensures
        components_view(r@) == components(p@),
{
    let cs = chars_of(p);
    let mut out: Vec<PathComponent> = Vec::new();
    let absolute = cs.len() > 0 && cs[0] == '/';
    let cur = !absolute && cs.len() > 0 && cs[0] == '.' && (cs.len() == 1 || cs[1] == '/');
    if absolute {
        out.push(PathComponent::RootDir);
        assert(components_view(out@) =~= seq![Component::RootDir]);
        body_components_of(&cs, 1, &mut out);
    } else if cur {
        out.push(PathComponent::CurDir);
        assert(components_view(out@) =~= seq![Component::CurDir]);
        body_components_of(&cs, 1, &mut out);
    } else {
        assert(components_view(out@) =~= Seq::<Component>::empty());
        body_components_of(&cs, 0, &mut out);
        assert(cs@.skip(0) =~= cs@);
        assert(Seq::<Component>::empty() + body_components(p@) =~= body_components(p@));
    }
    out
}

/// The final component of `p`, when it is a name.
pub fn file_name(p: &str) -> (r: Option<String>)
    ensures
        match r {
            Some(n) => spec_file_name(p@) == Some(n@),
            None => spec_file_name(p@) is None,
        },
{
    let comps = path_components(p);
    if comps.len() == 0 {
        return None;
    }
    let ghost v = components_view(comps@);
    assert(v.last() == comps@[comps@.len() - 1]@);
    match &comps[comps.len() - 1] {
        PathComponent::Normal(n) => Some(n.clone()),
        _ => None,
    }
}

fn same_component(a: &PathComponent, b: &PathComponent) -> (r: bool)
    ensures
        r == (a@ == b@),
{
    match (a, b) {
        (PathComponent::RootDir, PathComponent::RootDir) => true,
        (PathComponent::CurDir, PathComponent::CurDir) => true,
        (PathComponent::ParentDir, PathComponent::ParentDir) => true,
        (PathComponent::Normal(x), PathComponent::Normal(y)) => crate::text::same_text(x.as_str(), y.as_str()),
        _ => false,
    }
}

/// Whether two paths have the same components.
pub fn same_path(a: &str, b: &str) -> (r: bool)
    ensures
        r == spec_same_path(a@, b@),
{
    let ca = path_components(a);
    let cb = path_components(b);
    if ca.len() != cb.len() {
        return false;
    }
    let mut i: usize = 0;
    while i < ca.len()
        invariant
            ca.len() == cb.len(),
            i <= ca.len(),
            components_view(ca@) == components(a@),
            components_view(cb@) == components(b@),
            forall|j: int| 0 <= j < i ==> ca@[j]@ == cb@[j]@,
        decreases ca.len() - i,
    {
        if !same_component(&ca[i], &cb[i]) {
            assert(components_view(ca@)[i as int] != components_view(cb@)[i as int]);
            return false;
        }
        i = i + 1;
    }
    assert(components_view(ca@) =~= components_view(cb@));
    true
}

/// Reading more text only adds components after those already completed.
proof fn lemma_scan_grows(s: Seq<char>, t: Seq<char>)
    ensures
        scan_components(s).0.is_prefix_of(scan_components(s + t).0),
    decreases t.len(),
{
    if t.len() == 0 {
        assert(s + t =~= s);
    } else {
        lemma_scan_grows(s, t.drop_last());
        assert((s + t).drop_last() =~= s + t.drop_last());
        let a = scan_components(s).0;
        let b = scan_components(s + t.drop_last()).0;
        let c = scan_components(s + t).0;
        assert(b.is_prefix_of(c));
        assert forall|k: int| 0 <= k < a.len() implies a[k] == c[k] by {
            assert(a[k] == a.subrange(0, a.len() as int)[k]);
            assert(b.subrange(0, a.len() as int)[k] == b[k]);
            assert(c.subrange(0, b.len() as int)[k] == c[k]);
        }
        assert(a =~= c.subrange(0, a.len() as int));
    }
}

/// A trailing separator adds no component.
proof fn lemma_body_trailing_separator(x: Seq<char>)
    ensures
        body_components(x.push('/')) == body_components(x),
{
    assert(x.push('/').drop_last() =~= x);
    let (done, cur) = scan_components(x);
    assert(piece_components(Seq::<char>::empty()) =~= Seq::<Component>::empty());
    assert(done + piece_components(cur) + Seq::<Component>::empty() =~= done + piece_components(cur));
}

/// The components of text that ends at a separator come first among the
/// components of any longer text.
proof fn lemma_body_extends(x: Seq<char>, y: Seq<char>)
    requires
        x.len() == 0 || x.last() == '/',
    ensures
        body_components(x).is_prefix_of(body_components(x + y)),
{
    let (done, cur) = scan_components(x);
    if x.len() == 0 {
        assert(body_components(x) =~= Seq::<Component>::empty());
    } else {
        assert(cur =~= Seq::<char>::empty());
        assert(piece_components(cur) =~= Seq::<Component>::empty());
        assert(body_components(x) =~= done);
    }
    lemma_scan_grows(x, y);
    let c = scan_components(x + y).0;
    let all = body_components(x + y);
    assert(all =~= c + piece_components(scan_components(x + y).1));
    assert forall|k: int| 0 <= k < done.len() implies done[k] == all[k] by {
        assert(c.subrange(0, done.len() as int)[k] == c[k]);
    }
    assert(body_components(x) =~= all.subrange(0, body_components(x).len() as int));
}

proof fn lemma_prefix_after(c: Component, a: Seq<Component>, b: Seq<Component>)
    requires
        a.is_prefix_of(b),
    ensures
        (seq![c] + a).is_prefix_of(seq![c] + b),
{
    assert forall|k: int| 0 <= k < a.len() + 1 implies (seq![c] + a)[k] == (seq![c] + b)[k] by {
        if k > 0 {
            assert(b.subrange(0, a.len() as int)[k - 1] == b[k - 1]);
        }
    }
    assert(seq![c] + a =~= (seq![c] + b).subrange(0, a.len() + 1int));
}

/// A separator at the end of a non-empty path changes none of its
/// components.
proof fn lemma_trailing_separator(base: Seq<char>)
    requires
        base.len() > 0,
    ensures
        components(base.push('/')) == components(base),
{
    let b2 = base.push('/');
    assert(b2[0] == base[0]);
    if base.len() > 1 {
        assert(b2[1] == base[1]);
    }
    if spec_is_absolute(base) || starts_at_cur_dir(base) {
        assert(b2.skip(1) =~= base.skip(1).push('/'));
        lemma_body_trailing_separator(base.skip(1));
    } else {
        lemma_body_trailing_separator(base);
    }
}

/// A relative path joined onto a base lies under it: the base's
/// components come first among the components of the joined path.
pub proof fn lemma_joined_path_lies_under(base: Seq<char>, rel: Seq<char>)
    requires
        !spec_is_absolute(rel),
    ensures
        components(base).is_prefix_of(components(spec_join(base, rel))),
{
    if base.len() == 0 {
        assert(components(base) =~= Seq::<Component>::empty());
    } else {
        let b2 = if base.last() == '/' { base } else { base.push('/') };
        assert(spec_join(base, rel) =~= b2 + rel);
        if base.last() != '/' {
            lemma_trailing_separator(base);
        }
        let j = b2 + rel;
        assert(b2.len() > 0 && b2.last() == '/');
        assert(j[0] == b2[0]);
        if b2.len() > 1 {
            assert(j[1] == b2[1]);
        }
        if spec_is_absolute(b2) || starts_at_cur_dir(b2) {
            assert(j.skip(1) =~= b2.skip(1) + rel);
            assert(b2.skip(1).len() == 0 || b2.skip(1).last() == '/');
            lemma_body_extends(b2.skip(1), rel);
            if spec_is_absolute(b2) {
                lemma_prefix_after(Component::RootDir, body_components(b2.skip(1)), body_components(j.skip(1)));
            } else {
                lemma_prefix_after(Component::CurDir, body_components(b2.skip(1)), body_components(j.skip(1)));
            }
        } else {
            lemma_body_extends(b2, rel);
        }
    }
}

// ---------------------------------------------------------------------------
// Stems and extensions
// ---------------------------------------------------------------------------

/// The index of the last `.` in a name.
pub open spec fn last_dot(name: Seq<char>) -> Option<int>
    decreases name.len(),
{
    if name.len() == 0 {
        None
    } else if name.last() == '.' {
        Some(name.len() - 1)
    } else {
        last_dot(name.drop_last())
    }
}

/// The stem of a file name (`Path::file_stem`): the whole name when it has
/// no `.` except possibly a leading one (or is `..`), else the part before
/// the last `.`.
pub open spec fn stem_of(name: Seq<char>) -> Seq<char> {
    if name == seq!['.', '.'] {
        name
    } else {
        match last_dot(name) {
            Some(i) if i > 0 => name.take(i),
            _ => name,
        }
    }
}

/// The extension of a file name (`Path::extension`): none when it has no
/// `.` except possibly a leading one (or is `..`), else the part after the
/// last `.`.
pub open spec fn extension_of(name: Seq<char>) -> Option<Seq<char>> {
    if name == seq!['.', '.'] {
        None
    } else {
        match last_dot(name) {
            Some(i) if i > 0 => Some(name.skip(i + 1)),
            _ => None,
        }
    }
}

/// The stem of a path's final component, as `Path::file_stem` gives it.
pub open spec fn spec_file_stem(p: Seq<char>) -> Option<Seq<char>> {
    match spec_file_name(p) {
        Some(n) => Some(stem_of(n)),
        None => None,
    }
}

/// The extension of a path's final component, as `Path::extension` gives it.
pub open spec fn spec_extension(p: Seq<char>) -> Option<Seq<char>> {
    match spec_file_name(p) {
        Some(n) => extension_of(n),
        None => None,
    }
}

fn find_last_dot(cs: &Vec<char>) -> (r: Option<usize>)
    ensures
        match r {
            Some(i) => i < cs.len() && last_dot(cs@) == Some(i as int),
            None => last_dot(cs@) is None,
        },
{
    let mut j = cs.len();
    assert(cs@.take(j as int) =~= cs@);
    while j > 0
        invariant
            j <= cs.len(),
            last_dot(cs@) == last_dot(cs@.take(j as int)),
        decreases j,
    {
        assert(cs@.take(j as int).last() == cs@[j - 1]);
        assert(cs@.take(j as int).drop_last() =~= cs@.take(j - 1));
        if cs[j - 1] == '.' {
            return Some(j - 1);
        }
        j = j - 1;
    }
    None
}

fn is_dot_dot(cs: &Vec<char>) -> (r: bool)
    ensures
        r == (cs@ == seq!['.', '.']),
{
    if cs.len() == 2 && cs[0] == '.' && cs[1] == '.' {
        assert(cs@ =~= seq!['.', '.']);
        true
    } else {
        false
    }
}

/// The stem of the final component of `p`.
pub fn file_stem(p: &str) -> (r: Option<String>)
    ensures
        match r {
            Some(s) => spec_file_stem(p@) == Some(s@),
            None => spec_file_stem(p@) is None,
        },
{
    let name = match file_name(p) {
        Some(n) => n,
        None => return None,
    };
    let cs = chars_of(name.as_str());
    if is_dot_dot(&cs) {
        return Some(name);
    }
    match find_last_dot(&cs) {
        Some(i) => {
            if i > 0 {
                Some(crate::text::string_from_range(&cs, 0, i))
            } else {
                Some(name)
            }
        },
        None => Some(name),
    }
}

/// The extension of the final component of `p`.
pub fn extension(p: &str) -> (r: Option<String>)
    ensures
        match r {
            Some(s) => spec_extension(p@) == Some(s@),
            None => spec_extension(p@) is None,
        },
{
    let name = match file_name(p) {
        Some(n) => n,
        None => return None,
    };
    let cs = chars_of(name.as_str());
    if is_dot_dot(&cs) {
        return None;
    }
    match find_last_dot(&cs) {
        Some(i) => {
            if i > 0 {
                let ext = crate::text::string_from_range(&cs, i + 1, cs.len());
                assert(ext@ =~= cs@.skip(i + 1));
                Some(ext)
            } else {
                None
            }
        },
        None => None,
    }
}

} // verus!
