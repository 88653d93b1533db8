//! Character-level string operations shared by the rest of the library.
//!
//! Every operation here is stated over the character sequence (`s@`) of
//! its argument.
use vstd::prelude::*;

verus! {

// ---------------------------------------------------------------------------
// Building strings
// ---------------------------------------------------------------------------

/// `String::push`: the contract claims that the string afterwards holds its
/// earlier characters followed by `c`, as the standard documentation says.
#[verifier::external_body]
pub(crate) fn push_char(s: &mut String, c: char)
    ensures
        final(s)@ == old(s)@.push(c),
{
    s.push(c);
}

/// The characters of `s`, in order.
pub fn chars_of(s: &str) -> (r: Vec<char>)
    ensures
        r@ == s@,
{
    let mut r: Vec<char> = Vec::new();
    for c in it: s.chars()
        invariant
            r@ == it.seq().take(it.index() as int),
            it.seq() == s@,
    {
        r.push(c);
    }
    r
}

/// The string made of the characters `cs[from..to]`.
pub fn string_from_range(cs: &Vec<char>, from: usize, to: usize) -> (r: String)
    requires
        from <= to <= cs.len(),
    ensures
        r@ == cs@.subrange(from as int, to as int),
{
    let mut r = String::new();
    let mut i = from;
    while i < to
        invariant
            from <= i <= to <= cs.len(),
            r@ == cs@.subrange(from as int, i as int),
        decreases to - i,
    {
        push_char(&mut r, cs[i]);
        assert(cs@.subrange(from as int, i + 1) =~= cs@.subrange(from as int, i as int).push(
            cs@[i as int],
        ));
        i = i + 1;
    }
    r
}

/// The string made of all the characters of `cs`.
pub fn string_from_chars(cs: &Vec<char>) -> (r: String)
    ensures
        r@ == cs@,
{
    let r = string_from_range(cs, 0, cs.len());
    assert(cs@.subrange(0, cs@.len() as int) =~= cs@);
    r
}

/// Appends the characters of `t` to `s`.
pub fn push_str(s: &mut String, t: &str)
    ensures
        final(s)@ == old(s)@ + t@,
{
    let ghost start = s@;
    for c in it: t.chars()
        invariant
            it.seq() == t@,
            s@ == start + t@.take(it.index() as int),
    {
        assert(t@.take(it.index() + 1) =~= t@.take(it.index() as int).push(c));
        push_char(s, c);
    }
    assert(t@.take(t@.len() as int) =~= t@);
}

/// A new string holding the characters of `s`.
pub fn owned(s: &str) -> (r: String)
    ensures
        r@ == s@,
{
    let mut r = String::new();
    push_str(&mut r, s);
    assert(Seq::<char>::empty() + s@ =~= s@);
    r
}

/// The concatenation of `a` and `b`.
pub fn concat(a: &str, b: &str) -> (r: String)
    ensures
        r@ == a@ + b@,
{
    let mut r = owned(a);
    push_str(&mut r, b);
    r
}

/// Whether two strings hold the same characters.
pub fn same_text(a: &str, b: &str) -> (r: bool)
    ensures
        r == (a@ == b@),
{
    let x = chars_of(a);
    let y = chars_of(b);
    if x.len() != y.len() {
        return false;
    }
    let mut i: usize = 0;
    while i < x.len()
        invariant
            x@ == a@,
            y@ == b@,
            x.len() == y.len(),
            i <= x.len(),
            forall|j: int| 0 <= j < i ==> x@[j] == y@[j],
        decreases x.len() - i,
    {
        if x[i] != y[i] {
            return false;
        }
        i = i + 1;
    }
    assert(x@ =~= y@);
    true
}

// ---------------------------------------------------------------------------
// Whitespace
// ---------------------------------------------------------------------------

/// The characters with the Unicode `White_Space` property, which is what
/// `char::is_whitespace` tests.
pub open spec fn spec_is_whitespace(c: char) -> bool {
    let u = c as u32;
    ||| 0x9 <= u <= 0xd
    ||| u == 0x20
    ||| u == 0x85
    ||| u == 0xa0
    ||| u == 0x1680
    ||| 0x2000 <= u <= 0x200a
    ||| u == 0x2028
    ||| u == 0x2029
    ||| u == 0x202f
    ||| u == 0x205f
    ||| u == 0x3000
}

/// Whether `c` is a whitespace character.
pub fn is_whitespace(c: char) -> (r: bool)
    ensures
        r == spec_is_whitespace(c),
{
    let u = c as u32;
    (0x9 <= u && u <= 0xd) || u == 0x20 || u == 0x85 || u == 0xa0 || u == 0x1680 || (0x2000 <= u
        && u <= 0x200a) || u == 0x2028 || u == 0x2029 || u == 0x202f || u == 0x205f || u == 0x3000
}

/// A text is blank when it holds nothing but whitespace: this is what
/// `s.trim().is_empty()` tests.
pub open spec fn blank(s: Seq<char>) -> bool {
    forall|i: int| 0 <= i < s.len() ==> spec_is_whitespace(#[trigger] s[i])
}

/// Whether `s` is blank (empty after trimming).
pub fn is_blank(s: &str) -> (r: bool)
    ensures
        r == blank(s@),
{
    let mut all = true;
    for c in it: s.chars()
        invariant
            it.seq() == s@,
            all == (forall|j: int| 0 <= j < it.index() ==> spec_is_whitespace(#[trigger] s@[j])),
    {
        if !is_whitespace(c) {
            all = false;
        }
    }
    all
}

/// `s` without its leading whitespace.
pub open spec fn trim_start(s: Seq<char>) -> Seq<char>
    decreases s.len(),
{
    if s.len() > 0 && spec_is_whitespace(s[0]) {
        trim_start(s.drop_first())
    } else {
        s
    }
}

/// `s` without its trailing whitespace.
pub open spec fn trim_end(s: Seq<char>) -> Seq<char>
    decreases s.len(),
{
    if s.len() > 0 && spec_is_whitespace(s.last()) {
        trim_end(s.drop_last())
    } else {
        s
    }
}

/// `s` without leading and trailing whitespace (`str::trim`).
pub open spec fn trim(s: Seq<char>) -> Seq<char> {
    trim_end(trim_start(s))
}

proof fn lemma_trim_start_empty(s: Seq<char>)
    ensures
        trim_start(s).len() == 0 <==> blank(s),
    decreases s.len(),
{
    if s.len() > 0 {
        lemma_trim_start_empty(s.drop_first());
        if spec_is_whitespace(s[0]) {
            assert forall|i: int| 0 <= i < s.len() && blank(s.drop_first()) implies spec_is_whitespace(
                #[trigger] s[i],
            ) by {
                if i > 0 {
                    assert(s[i] == s.drop_first()[i - 1]);
                }
            }
            if blank(s) {
                assert forall|i: int| 0 <= i < s.drop_first().len() implies spec_is_whitespace(
                    #[trigger] s.drop_first()[i],
                ) by {
                    assert(s.drop_first()[i] == s[i + 1]);
                }
            }
        }
    }
}

proof fn lemma_trim_start_first(s: Seq<char>)
    ensures
        trim_start(s).len() > 0 ==> !spec_is_whitespace(trim_start(s)[0]),
    decreases s.len(),
{
    if s.len() > 0 && spec_is_whitespace(s[0]) {
        lemma_trim_start_first(s.drop_first());
    }
}

proof fn lemma_trim_end_keeps_first(t: Seq<char>)
    requires
        t.len() > 0,
        !spec_is_whitespace(t[0]),
    ensures
        trim_end(t).len() > 0,
    decreases t.len(),
{
    if spec_is_whitespace(t.last()) {
        assert(t.len() > 1);
        assert(t.drop_last()[0] == t[0]);
        lemma_trim_end_keeps_first(t.drop_last());
    }
}

/// A text is blank exactly when trimming it leaves nothing, so testing
/// `blank` is testing `s.trim().is_empty()`.
pub proof fn lemma_blank_iff_trim_empty(s: Seq<char>)
    ensures
        blank(s) <==> trim(s).len() == 0,
{
    lemma_trim_start_empty(s);
    lemma_trim_start_first(s);
    let t = trim_start(s);
    if t.len() > 0 {
        lemma_trim_end_keeps_first(t);
    } else {
        assert(trim_end(t) == t);
    }
}

/// `s` without leading and trailing whitespace.
pub fn trimmed(s: &str) -> (r: String)
    ensures
        r@ == trim(s@),
{
    let cs = chars_of(s);
    let n = cs.len();
    let mut a: usize = 0;
    assert(cs@.subrange(0, n as int) =~= cs@);
    while a < n && is_whitespace(cs[a])
        invariant
            cs@ == s@,
            n == cs.len(),
            a <= n,
            trim_start(cs@.subrange(a as int, n as int)) == trim_start(s@),
        decreases n - a,
    {
        assert(cs@.subrange(a as int, n as int).drop_first() =~= cs@.subrange(a + 1, n as int));
        a = a + 1;
    }
    assert(trim_start(cs@.subrange(a as int, n as int)) == cs@.subrange(a as int, n as int));
    let mut b: usize = n;
    while b > a && is_whitespace(cs[b - 1])
        invariant
            cs@ == s@,
            n == cs.len(),
            a <= b <= n,
            trim_end(cs@.subrange(a as int, b as int)) == trim(s@),
        decreases b - a,
    {
        assert(cs@.subrange(a as int, b as int).drop_last() =~= cs@.subrange(a as int, b - 1));
        b = b - 1;
    }
    string_from_range(&cs, a, b)
}

// ---------------------------------------------------------------------------
// Prefixes and occurrences
// ---------------------------------------------------------------------------

/// Whether `s` starts with `prefix`.
pub fn starts_with(s: &str, prefix: &str) -> (r: bool)
    ensures
        r == prefix@.is_prefix_of(s@),
{
    let cs = chars_of(s);
    let ps = chars_of(prefix);
    if ps.len() > cs.len() {
        return false;
    }
    let mut i: usize = 0;
    while i < ps.len()
        invariant
            cs@ == s@,
            ps@ == prefix@,
            ps.len() <= cs.len(),
            i <= ps.len(),
            forall|j: int| 0 <= j < i ==> ps@[j] == cs@[j],
        decreases ps.len() - i,
    {
        if ps[i] != cs[i] {
            return false;
        }
        i = i + 1;
    }
    true
}

/// `pat` occurs in `s` starting at index `i`.
pub open spec fn occurs_at(s: Seq<char>, pat: Seq<char>, i: int) -> bool {
    0 <= i && i + pat.len() <= s.len() && s.subrange(i, i + pat.len()) == pat
}

/// `pat` occurs somewhere in `s`.
pub open spec fn occurs_in(s: Seq<char>, pat: Seq<char>) -> bool {
    exists|i: int| occurs_at(s, pat, i)
}

/// The index of the first occurrence of `pat` in `s` (`str::find`).
#[verifier::opaque]
pub open spec fn first_occurrence(s: Seq<char>, pat: Seq<char>) -> Option<int> {
    if occurs_in(s, pat) {
        Some(choose|i: int| occurs_at(s, pat, i) && forall|j: int| 0 <= j < i ==> !occurs_at(s, pat, j))
    } else {
        None
    }
}

/// Whether `pat` occurs in `s` at index `i`.
pub fn matches_at(s: &Vec<char>, pat: &Vec<char>, i: usize) -> (r: bool)
    requires
        i <= s.len(),
    ensures
        r == occurs_at(s@, pat@, i as int),
{
    if pat.len() > s.len() - i {
        return false;
    }
    let mut k: usize = 0;
    while k < pat.len()
        invariant
            i + pat.len() <= s.len(),
            k <= pat.len(),
            forall|j: int| 0 <= j < k ==> s@[i + j] == pat@[j],
        decreases pat.len() - k,
    {
        if s[i + k] != pat[k] {
            assert(s@.subrange(i as int, i + pat.len())[k as int] != pat@[k as int]);
            return false;
        }
        k = k + 1;
    }
    assert(s@.subrange(i as int, i + pat.len()) =~= pat@);
    true
}

/// The first index at or after `from` where `pat` occurs in `s`.
pub fn find_from(s: &Vec<char>, pat: &Vec<char>, from: usize) -> (r: Option<usize>)
    requires
        from <= s.len(),
    ensures
        match r {
            Some(i) => from <= i && occurs_at(s@, pat@, i as int) && forall|j: int|
                from <= j < i ==> !occurs_at(s@, pat@, j),
            None => forall|j: int| from <= j ==> !occurs_at(s@, pat@, j),
        },
{
    let mut i = from;
    loop
        invariant
            from <= i <= s.len(),
            forall|j: int| from <= j < i ==> !occurs_at(s@, pat@, j),
        decreases s.len() - i,
    {
        if matches_at(s, pat, i) {
            return Some(i);
        }
        if i == s.len() {
            assert forall|j: int| from <= j implies !occurs_at(s@, pat@, j) by {
                if j > i {
                    assert(!(j + pat@.len() <= s@.len()));
                }
            }
            return None;
        }
        i = i + 1;
    }
}

/// The first index where `pat` occurs in `s`.
pub fn find(s: &Vec<char>, pat: &Vec<char>) -> (r: Option<usize>)
    ensures
        match r {
            Some(i) => first_occurrence(s@, pat@) == Some(i as int) && occurs_at(s@, pat@, i as int),
            None => first_occurrence(s@, pat@) is None,
        },
{
    let r = find_from(s, pat, 0);
    proof {
        match r {
            Some(i) => lemma_first_occurrence_is(s@, pat@, i as int),
            None => lemma_first_occurrence_none(s@, pat@),
        }
    }
    r
}

/// What `first_occurrence` gives: the least index at which the pattern
/// occurs, or `None` when it occurs nowhere.
pub proof fn lemma_first_occurrence_facts(t: Seq<char>, pat: Seq<char>)
    ensures
        match first_occurrence(t, pat) {
            Some(i) => occurs_at(t, pat, i) && forall|j: int| 0 <= j < i ==> !occurs_at(t, pat, j),
            None => forall|j: int| !occurs_at(t, pat, j),
        },
{
    reveal(first_occurrence);
    if occurs_in(t, pat) {
        let k = choose|k: int| occurs_at(t, pat, k);
        lemma_least_occurrence(t, pat, k);
    }
}

proof fn lemma_least_occurrence(t: Seq<char>, pat: Seq<char>, k: int)
    requires
        occurs_at(t, pat, k),
    ensures
        exists|m: int| occurs_at(t, pat, m) && forall|j: int| 0 <= j < m ==> !occurs_at(t, pat, j),
    decreases k,
{
    if exists|j: int| 0 <= j < k && occurs_at(t, pat, j) {
        let j = choose|j: int| 0 <= j < k && occurs_at(t, pat, j);
        lemma_least_occurrence(t, pat, j);
    } else {
        assert(forall|j: int| 0 <= j < k ==> !occurs_at(t, pat, j));
    }
}

pub proof fn lemma_first_occurrence_is(t: Seq<char>, pat: Seq<char>, r: int)
    requires
        occurs_at(t, pat, r),
        forall|j: int| 0 <= j < r ==> !occurs_at(t, pat, j),
    ensures
        first_occurrence(t, pat) == Some(r),
{
    reveal(first_occurrence);
    assert(occurs_in(t, pat));
    let c = choose|c: int| occurs_at(t, pat, c) && forall|j: int| 0 <= j < c ==> !occurs_at(t, pat, j);
    if c < r {
        assert(!occurs_at(t, pat, c));
    } else if c > r {
        assert(!occurs_at(t, pat, r));
    }
}

proof fn lemma_first_occurrence_none(t: Seq<char>, pat: Seq<char>)
    requires
        forall|j: int| !occurs_at(t, pat, j),
    ensures
        first_occurrence(t, pat) is None,
{
    reveal(first_occurrence);
}

// ---------------------------------------------------------------------------
// Replacing
// ---------------------------------------------------------------------------

/// `s` with every `from` character replaced by `to` (`str::replace` with a
/// one-character pattern and a one-character replacement).
pub open spec fn replace_char_spec(s: Seq<char>, from: char, to: char) -> Seq<char> {
    s.map_values(|c: char| if c == from { to } else { c })
}

/// Replaces every `from` character of `s` by `to`.
pub fn replace_char(s: &str, from: char, to: char) -> (r: String)
    ensures
        r@ == replace_char_spec(s@, from, to),
{
    let mut r = String::new();
    for c in it: s.chars()
        invariant
            it.seq() == s@,
            r@ == replace_char_spec(s@.take(it.index() as int), from, to),
    {
        assert(replace_char_spec(s@.take(it.index() + 1), from, to) =~= replace_char_spec(
            s@.take(it.index() as int),
            from,
            to,
        ).push(if c == from { to } else { c }));
        if c == from {
            push_char(&mut r, to);
        } else {
            push_char(&mut r, c);
        }
    }
    assert(s@.take(s@.len() as int) =~= s@);
    r
}

/// `s` with every occurrence of `pat` replaced by `by`, scanning from left
/// to right without overlaps (`str::replace` with a non-empty pattern).
#[verifier::opaque]
pub open spec fn replace_all(s: Seq<char>, pat: Seq<char>, by: Seq<char>) -> Seq<char>
    decreases s.len(),
{
    if pat.len() == 0 {
        s
    } else {
        match first_occurrence(s, pat) {
            None => s,
            Some(i) => if 0 <= i && i + pat.len() <= s.len() {
                s.take(i) + by + replace_all(s.skip(i + pat.len()), pat, by)
            } else {
                s
            },
        }
    }
}

proof fn lemma_skip_occurs(s: Seq<char>, pat: Seq<char>, i: int, j: int)
    requires
        0 <= i <= s.len(),
        0 <= j,
    ensures
        occurs_at(s.skip(i), pat, j) == occurs_at(s, pat, j + i),
{
    if j + pat.len() <= s.skip(i).len() {
        assert(s.skip(i).subrange(j, j + pat.len()) =~= s.subrange(j + i, j + i + pat.len()));
    }
}

proof fn lemma_replace_found(t: Seq<char>, pat: Seq<char>, by: Seq<char>, rel: int)
    requires
        pat.len() > 0,
        first_occurrence(t, pat) == Some(rel),
        occurs_at(t, pat, rel),
    ensures
        replace_all(t, pat, by) == t.take(rel) + by + replace_all(t.skip(rel + pat.len()), pat, by),
{
    reveal(replace_all);
}

proof fn lemma_replace_none(t: Seq<char>, pat: Seq<char>, by: Seq<char>)
    requires
        first_occurrence(t, pat) is None,
    ensures
        replace_all(t, pat, by) == t,
{
    reveal(replace_all);
}

/// Replaces every occurrence of `pat` in `s` by `by`.
pub fn replace_str(s: &str, pat: &str, by: &str) -> (r: String)
    requires
        pat@.len() > 0,
    ensures
        r@ == replace_all(s@, pat@, by@),
{
    let cs = chars_of(s);
    let ps = chars_of(pat);
    let bs = chars_of(by);
    let mut r = String::new();
    let mut i: usize = 0;
    assert(cs@.skip(0) =~= cs@);
    while i <= cs.len()
        invariant
            cs@ == s@,
            ps@ == pat@,
            bs@ == by@,
            pat@.len() > 0,
            i <= cs.len(),
            r@ + replace_all(cs@.skip(i as int), pat@, by@) == replace_all(s@, pat@, by@),
        decreases cs.len() + 1 - i,
    {
        let found = find_from(&cs, &ps, i);
        let ghost t = cs@.skip(i as int);
        match found {
            None => {
                proof {
                    assert forall|j: int| !occurs_at(t, pat@, j) by {
                        if 0 <= j {
                            lemma_skip_occurs(cs@, pat@, i as int, j);
                        }
                    }
                    lemma_first_occurrence_none(t, pat@);
                }
                proof {
                    lemma_replace_none(t, pat@, by@);
                }
                let rest = string_from_range(&cs, i, cs.len());
                assert(rest@ =~= t);
                push_str(&mut r, rest.as_str());
                return r;
            },
            Some(k) => {
                let ghost rel = k - i;
                proof {
                    lemma_skip_occurs(cs@, pat@, i as int, rel);
                    assert forall|j: int| 0 <= j < rel implies !occurs_at(t, pat@, j) by {
                        lemma_skip_occurs(cs@, pat@, i as int, j);
                    }
                    lemma_first_occurrence_is(t, pat@, rel);
                    assert(t.take(rel) =~= cs@.subrange(i as int, k as int));
                    assert(t.skip(rel + pat@.len()) =~= cs@.skip(k + pat@.len()));
                }
                let ghost old_r = r@;
                let before = string_from_range(&cs, i, k);
                push_str(&mut r, before.as_str());
                push_str(&mut r, by);
                proof {
                    lemma_replace_found(t, pat@, by@, rel);
                    let rest = replace_all(cs@.skip(k + pat@.len()), pat@, by@);
                    assert(r@ == old_r + t.take(rel) + by@);
                    assert(old_r + (t.take(rel) + by@ + rest) =~= r@ + rest);
                }
                i = k + ps.len();
            },
        }
    }
    r
}

// ---------------------------------------------------------------------------
// Case mapping
// ---------------------------------------------------------------------------

/// The lowercase form of a text, as `str::to_lowercase` computes it.
pub uninterp spec fn spec_to_lowercase(s: Seq<char>) -> Seq<char>;

/// The uppercase form of one character, as `char::to_uppercase` computes it
/// (one to three characters).
pub uninterp spec fn spec_char_to_uppercase(c: char) -> Seq<char>;

/// `str::to_lowercase`: the result is a function of the text alone (the
/// Unicode lowercase mapping); this contract names it and says no more.
#[verifier::external_body]
pub(crate) fn to_lowercase(s: &str) -> (r: String)
    ensures
        r@ == spec_to_lowercase(s@),
{
    s.to_lowercase()
}

/// `char::to_uppercase`, collected into a string: the result is a function
/// of the character alone (the Unicode uppercase mapping); this contract
/// names it and says no more.
#[verifier::external_body]
pub(crate) fn char_to_uppercase(c: char) -> (r: String)
    ensures
        r@ == spec_char_to_uppercase(c),
{
    c.to_uppercase().collect::<String>()
}

} // verus!
