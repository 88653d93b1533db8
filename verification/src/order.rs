//! Orders and a stable sort.
//!
//! Texts are ordered character by character (which is the byte order of
//! their UTF-8 encoding); file paths are ordered component by component,
//! which for paths without empty or `.` components is the character order
//! with the separator `/` placed before every other character.
use vstd::prelude::*;

use crate::text::chars_of;

verus! {

broadcast use vstd::seq_lib::group_to_multiset_ensures;

/// Lexicographic order on sequences of integers: `a` comes strictly before
/// `b`.
pub open spec fn lex_lt(a: Seq<int>, b: Seq<int>) -> bool
    decreases a.len(),
{
    if a.len() == 0 {
        b.len() > 0
    } else if b.len() == 0 {
        false
    } else if a[0] < b[0] {
        true
    } else if a[0] > b[0] {
        false
    } else {
        lex_lt(a.drop_first(), b.drop_first())
    }
}

/// No sequence comes before itself.
pub proof fn lemma_lex_irreflexive(a: Seq<int>)
    ensures
        !lex_lt(a, a),
    decreases a.len(),
{
    if a.len() > 0 {
        lemma_lex_irreflexive(a.drop_first());
    }
}

/// The lexicographic order is transitive.
pub proof fn lemma_lex_transitive(a: Seq<int>, b: Seq<int>, c: Seq<int>)
    requires
        lex_lt(a, b),
        lex_lt(b, c),
    ensures
        lex_lt(a, c),
    decreases a.len(),
{
    if a.len() > 0 && b.len() > 0 && c.len() > 0 && a[0] == b[0] && b[0] == c[0] {
        lemma_lex_transitive(a.drop_first(), b.drop_first(), c.drop_first());
    }
}

/// Of two different sequences, one comes before the other.
pub proof fn lemma_lex_total(a: Seq<int>, b: Seq<int>)
    ensures
        a != b ==> lex_lt(a, b) || lex_lt(b, a),
    decreases a.len(),
{
    if a.len() > 0 && b.len() > 0 && a[0] == b[0] {
        lemma_lex_total(a.drop_first(), b.drop_first());
        if a.drop_first() == b.drop_first() {
            assert(a =~= seq![a[0]] + a.drop_first());
            assert(b =~= seq![b[0]] + b.drop_first());
        }
    } else if a.len() == 0 && b.len() == 0 {
        assert(a =~= b);
    }
}

/// Texts as integers: each character by its code point.
pub open spec fn text_key(s: Seq<char>) -> Seq<int> {
    s.map_values(|c: char| (c as u32) as int)
}

/// Paths as integers: the separator first, then each other character by
/// its code point.
pub open spec fn path_key(s: Seq<char>) -> Seq<int> {
    s.map_values(|c: char| if c == '/' { -1int } else { (c as u32) as int })
}

/// Whether `a` comes strictly before `b` in the lexicographic order.
pub fn keys_before(a: &Vec<i64>, b: &Vec<i64>) -> (r: bool)
    ensures
        r == lex_lt(a@.map_values(|x: i64| x as int), b@.map_values(|x: i64| x as int)),
{
    let ghost ka = a@.map_values(|x: i64| x as int);
    let ghost kb = b@.map_values(|x: i64| x as int);
    let mut i: usize = 0;
    assert(ka.skip(0) =~= ka);
    assert(kb.skip(0) =~= kb);
    while i < a.len() && i < b.len() && a[i] == b[i]
        invariant
            i <= a.len(),
            i <= b.len(),
            ka == a@.map_values(|x: i64| x as int),
            kb == b@.map_values(|x: i64| x as int),
            lex_lt(ka, kb) == lex_lt(ka.skip(i as int), kb.skip(i as int)),
        decreases a.len() - i,
    {
        assert(ka.skip(i as int).drop_first() =~= ka.skip(i + 1));
        assert(kb.skip(i as int).drop_first() =~= kb.skip(i + 1));
        i = i + 1;
    }
    if i == a.len() {
        i < b.len()
    } else if i == b.len() {
        false
    } else {
        a[i] < b[i]
    }
}

fn text_keys(s: &str) -> (r: Vec<i64>)
    ensures
        r@.map_values(|x: i64| x as int) == text_key(s@),
{
    let cs = chars_of(s);
    let mut r: Vec<i64> = Vec::new();
    let mut i: usize = 0;
    while i < cs.len()
        invariant
            cs@ == s@,
            i <= cs.len(),
            r@.len() == i,
            forall|j: int| 0 <= j < i ==> r@[j] as int == (s@[j] as u32) as int,
        decreases cs.len() - i,
    {
        let c = cs[i];
        let u = c as u32;
        r.push(u as i64);
        i = i + 1;
    }
    assert(r@.map_values(|x: i64| x as int) =~= text_key(s@));
    r
}

fn path_keys(s: &str) -> (r: Vec<i64>)
    ensures
        r@.map_values(|x: i64| x as int) == path_key(s@),
{
    let cs = chars_of(s);
    let mut r: Vec<i64> = Vec::new();
    let mut i: usize = 0;
    while i < cs.len()
        invariant
            cs@ == s@,
            i <= cs.len(),
            r@.len() == i,
            forall|j: int| 0 <= j < i ==> r@[j] as int == (if s@[j] == '/' { -1int } else { (s@[j] as u32) as int }),
        decreases cs.len() - i,
    {
        let c = cs[i];
        if c == '/' {
            r.push(-1);
        } else {
            let u = c as u32;
            r.push(u as i64);
        }
        i = i + 1;
    }
    assert(r@.map_values(|x: i64| x as int) =~= path_key(s@));
    r
}

/// Whether text `a` comes strictly before text `b`.
pub fn text_before(a: &str, b: &str) -> (r: bool)
    ensures
        r == lex_lt(text_key(a@), text_key(b@)),
{
    let ka = text_keys(a);
    let kb = text_keys(b);
    keys_before(&ka, &kb)
}

/// Whether path `a` comes strictly before path `b`.
pub fn path_before(a: &str, b: &str) -> (r: bool)
    ensures
        r == lex_lt(path_key(a@), path_key(b@)),
{
    let ka = path_keys(a);
    let kb = path_keys(b);
    keys_before(&ka, &kb)
}

/// A strict order in which values of equal rank are interchangeable: no
/// value comes before itself, the order is transitive, and whatever comes
/// before `c` comes before `b` or `b` comes before `c`.
pub trait Ranked: Sized {
    spec fn before(&self, other: &Self) -> bool;

    fn is_before(&self, other: &Self) -> (r: bool)
        ensures
            r == self.before(other),
    ;

    proof fn lemma_ranked(a: &Self, b: &Self, c: &Self)
        ensures
            !a.before(a),
            a.before(b) && b.before(c) ==> a.before(c),
            a.before(c) ==> a.before(b) || b.before(c),
    ;
}

/// File paths, ranked component by component.
impl Ranked for String {
    open spec fn before(&self, other: &Self) -> bool {
        lex_lt(path_key(self@), path_key(other@))
    }

    fn is_before(&self, other: &Self) -> (r: bool) {
        path_before(self.as_str(), other.as_str())
    }

    proof fn lemma_ranked(a: &Self, b: &Self, c: &Self) {
        let (ka, kb, kc) = (path_key(a@), path_key(b@), path_key(c@));
        lemma_lex_irreflexive(ka);
        if lex_lt(ka, kb) && lex_lt(kb, kc) {
            lemma_lex_transitive(ka, kb, kc);
        }
        if lex_lt(ka, kc) && !lex_lt(ka, kb) && !lex_lt(kb, kc) {
            lemma_lex_total(ka, kb);
            lemma_lex_total(kb, kc);
            if ka == kb {
            } else {
                lemma_lex_transitive(kb, ka, kc);
            }
        }
    }
}

/// No element comes before an earlier one.
pub open spec fn sorted<T: Ranked>(s: Seq<T>) -> bool {
    forall|i: int, j: int| 0 <= i < j < s.len() ==> !#[trigger] s[j].before(&#[trigger] s[i])
}

/// `r` is `v` reordered, `perm[k]` being the position in `v` of `r[k]`,
/// with values of equal rank in the order they had in `v`.
pub open spec fn stable_reordering<T: Ranked>(v: Seq<T>, r: Seq<T>, perm: Seq<int>) -> bool {
    &&& r.len() == v.len()
    &&& perm.len() == r.len()
    &&& forall|k: int| 0 <= k < r.len() ==> 0 <= #[trigger] perm[k] < v.len() && r[k] == v[perm[k]]
    &&& forall|k1: int, k2: int| 0 <= k1 < k2 < r.len() ==> #[trigger] perm[k1] != #[trigger] perm[k2]
    &&& forall|k1: int, k2: int|
        0 <= k1 < k2 < r.len() && !r[k1].before(&r[k2]) && !r[k2].before(&r[k1]) ==> #[trigger] perm[k1]
            < #[trigger] perm[k2]
}

/// Sorts by rank, keeping values of equal rank in the order they were given.
pub fn sort_ranked<T: Ranked>(v: Vec<T>) -> (r: Vec<T>)
    ensures
        r@.to_multiset() == v@.to_multiset(),
        sorted(r@),
        exists|perm: Seq<int>| stable_reordering(v@, r@, perm),
{
    let mut input = v;
    let mut out: Vec<T> = Vec::new();
    let ghost mut perm: Seq<int> = Seq::empty();
    assert(input@.take(input@.len() as int) =~= input@);
    while input.len() > 0
        invariant
            out@.to_multiset().add(input@.to_multiset()) == v@.to_multiset(),
            sorted(out@),
            input@ == v@.take(input@.len() as int),
            out@.len() + input@.len() == v@.len(),
            perm.len() == out@.len(),
            forall|k: int| 0 <= k < out@.len() ==> input@.len() <= #[trigger] perm[k] < v@.len() && out@[k] == v@[perm[k]],
            forall|k1: int, k2: int| 0 <= k1 < k2 < out@.len() ==> #[trigger] perm[k1] != #[trigger] perm[k2],
            forall|k1: int, k2: int|
                0 <= k1 < k2 < out@.len() && !out@[k1].before(&out@[k2]) && !out@[k2].before(&out@[k1])
                    ==> #[trigger] perm[k1] < #[trigger] perm[k2],
        decreases input.len(),
    {
        let ghost before_pop = input@;
        let x = input.pop().unwrap();
        let ghost xi = input@.len() as int;
        assert(before_pop =~= input@.push(x));
        assert(x == v@[xi]);
        assert(input@ =~= v@.take(input@.len() as int));
        let mut k: usize = 0;
        while k < out.len() && out[k].is_before(&x)
            invariant
                k <= out.len(),
                forall|m: int| 0 <= m < k ==> #[trigger] out@[m].before(&x),
            decreases out.len() - k,
        {
            k = k + 1;
        }
        let ghost old_out = out@;
        let ghost old_perm = perm;
        proof {
            assert forall|m: int| k <= m < old_out.len() implies !#[trigger] old_out[m].before(&x) by {
                if m > k {
                    T::lemma_ranked(&old_out[m], &old_out[k as int], &x);
                }
            }
        }
        out.insert(k, x);
        proof {
            perm = old_perm.insert(k as int, xi);
            assert forall|i: int, j: int| 0 <= i < j < out@.len() implies !#[trigger] out@[j].before(
                &#[trigger] out@[i],
            ) by {
                if i == k {
                    assert(out@[j] == old_out[j - 1]);
                } else if j == k {
                    assert(out@[i] == old_out[i]);
                    T::lemma_ranked(&x, &old_out[i], &x);
                } else {
                    let oi = if i < k { i } else { i - 1 };
                    let oj = if j < k { j } else { j - 1 };
                    assert(out@[i] == old_out[oi]);
                    assert(out@[j] == old_out[oj]);
                }
            }
            assert forall|m: int| 0 <= m < out@.len() implies input@.len() <= #[trigger] perm[m] < v@.len()
                && out@[m] == v@[perm[m]] by {
                if m < k {
                    assert(perm[m] == old_perm[m]);
                } else if m > k {
                    assert(perm[m] == old_perm[m - 1]);
                }
            }
            assert forall|k1: int, k2: int| 0 <= k1 < k2 < out@.len() implies #[trigger] perm[k1]
                != #[trigger] perm[k2] by {
                let o1 = if k1 < k { k1 } else { k1 - 1 };
                let o2 = if k2 < k { k2 } else { k2 - 1 };
                if k1 != k && k2 != k {
                    assert(perm[k1] == old_perm[o1]);
                    assert(perm[k2] == old_perm[o2]);
                } else if k1 == k {
                    assert(perm[k2] == old_perm[o2]);
                } else {
                    assert(perm[k1] == old_perm[o1]);
                }
            }
            assert forall|k1: int, k2: int|
                0 <= k1 < k2 < out@.len() && !out@[k1].before(&out@[k2]) && !out@[k2].before(&out@[k1])
                    implies #[trigger] perm[k1] < #[trigger] perm[k2] by {
                let o1 = if k1 < k { k1 } else { k1 - 1 };
                let o2 = if k2 < k { k2 } else { k2 - 1 };
                if k1 != k && k2 != k {
                    assert(perm[k1] == old_perm[o1]);
                    assert(perm[k2] == old_perm[o2]);
                    assert(out@[k1] == old_out[o1]);
                    assert(out@[k2] == old_out[o2]);
                } else if k1 == k {
                    assert(perm[k2] == old_perm[o2]);
                } else {
                    assert(out@[k1] == old_out[k1]);
                    assert(old_out[k1].before(&x));
                }
            }
        }
    }
    assert(input@ =~= Seq::<T>::empty());
    assert(stable_reordering(v@, out@, perm));
    out
}

/// A sequence of `n` distinct positions below `n` holds every position
/// below `n`.
proof fn lemma_positions_onto(p: Seq<int>, j: int)
    requires
        forall|k: int| 0 <= k < p.len() ==> 0 <= #[trigger] p[k] < p.len(),
        forall|k1: int, k2: int| 0 <= k1 < k2 < p.len() ==> #[trigger] p[k1] != #[trigger] p[k2],
        0 <= j < p.len(),
    ensures
        exists|k: int| 0 <= k < p.len() && p[k] == j,
{
    let n = p.len() as int;
    assert(p.no_duplicates()) by {
        assert forall|a: int, b: int| 0 <= a < p.len() && 0 <= b < p.len() && a != b implies p[a] != p[b] by {
            if a < b {
                assert(p[a] != p[b]);
            } else {
                assert(p[b] != p[a]);
            }
        }
    }
    p.unique_seq_to_set();
    vstd::set_lib::lemma_int_range(0, n);
    let range = vstd::set_lib::set_int_range(0, n);
    assert(p.to_set().subset_of(range)) by {
        assert forall|x: int| p.to_set().contains(x) implies range.contains(x) by {
            assert(p.contains(x));
            let k = choose|k: int| 0 <= k < p.len() && p[k] == x;
            assert(0 <= p[k] < n);
        }
    }
    vstd::set_lib::lemma_subset_equality(p.to_set(), range);
    assert(range.contains(j));
    assert(p.to_set().contains(j));
    assert(p.contains(j));
}

/// The stable sort is determined by its input: two reorderings of the same
/// values that are both sorted and both keep values of equal rank in their
/// given order are the same sequence.
pub proof fn lemma_stable_sort_unique<T: Ranked>(
    v: Seq<T>,
    r1: Seq<T>,
    r2: Seq<T>,
    p1: Seq<int>,
    p2: Seq<int>,
)
    requires
        sorted(r1),
        sorted(r2),
        stable_reordering(v, r1, p1),
        stable_reordering(v, r2, p2),
    ensures
        r1 == r2,
{
    lemma_same_positions(v, r1, r2, p1, p2, r1.len() as int);
    assert forall|k: int| 0 <= k < r1.len() implies r1[k] == r2[k] by {
        assert(p1[k] == p2[k]);
    }
    assert(r1 =~= r2);
}

proof fn lemma_same_positions<T: Ranked>(
    v: Seq<T>,
    r1: Seq<T>,
    r2: Seq<T>,
    p1: Seq<int>,
    p2: Seq<int>,
    m: int,
)
    requires
        sorted(r1),
        sorted(r2),
        stable_reordering(v, r1, p1),
        stable_reordering(v, r2, p2),
        0 <= m <= r1.len(),
    ensures
        forall|k: int| 0 <= k < m ==> #[trigger] p1[k] == p2[k],
    decreases m,
{
    if m > 0 {
        lemma_same_positions(v, r1, r2, p1, p2, m - 1);
        let k = m - 1;
        let a = p1[k];
        let b = p2[k];
        if a != b {
            lemma_positions_onto(p1, b);
            lemma_positions_onto(p2, a);
            let k1 = choose|i: int| 0 <= i < p1.len() && p1[i] == b;
            let k2 = choose|i: int| 0 <= i < p2.len() && p2[i] == a;
            if k1 < k {
                assert(p2[k1] == p1[k1]);
                assert(p2[k1] != p2[k]);
            }
            if k2 < k {
                assert(p1[k2] == p2[k2]);
                assert(p1[k2] != p1[k]);
            }
            assert(k < k1 && k < k2);
            assert(r1[k] == v[a] && r1[k1] == v[b]);
            assert(r2[k] == v[b] && r2[k2] == v[a]);
            assert(!r1[k1].before(&r1[k]));
            assert(!r2[k2].before(&r2[k]));
            assert(p1[k] < p1[k1]);
            assert(p2[k] < p2[k2]);
        }
    }
}

} // verus!
