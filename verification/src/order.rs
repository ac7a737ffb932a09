//! The order of `String` (code point by code point, which is the order of
//! their UTF-8 bytes), sorted sets of strings, and sorting with deduplication.

use vstd::prelude::*;
use crate::text::chars_of;

verus! {

/// `a < b` for strings.
pub open spec fn str_lt(a: Seq<char>, b: Seq<char>) -> bool
    decreases a.len(),
{
    if a.len() == 0 {
        b.len() > 0
    } else if b.len() == 0 {
        false
    } else if a[0] == b[0] {
        str_lt(a.drop_first(), b.drop_first())
    } else {
        a[0] < b[0]
    }
}

/// The characters of each string.
pub open spec fn views(v: Seq<String>) -> Seq<Seq<char>> {
    v.map_values(|s: String| s@)
}

/// Strictly increasing: sorted, with no element twice.
pub open spec fn strictly_sorted(s: Seq<Seq<char>>) -> bool {
    forall|i: int, j: int| 0 <= i < j < s.len() ==> str_lt(#[trigger] s[i], #[trigger] s[j])
}

pub proof fn lemma_str_lt_irreflexive(a: Seq<char>)
    ensures
        !str_lt(a, a),
    decreases a.len(),
{
    if a.len() > 0 {
        lemma_str_lt_irreflexive(a.drop_first());
    }
}

pub proof fn lemma_str_lt_transitive(a: Seq<char>, b: Seq<char>, c: Seq<char>)
    requires
        str_lt(a, b),
        str_lt(b, c),
    ensures
        str_lt(a, c),
    decreases a.len(),
{
    if a.len() > 0 && b.len() > 0 && c.len() > 0 {
        if a[0] == b[0] && b[0] == c[0] {
            lemma_str_lt_transitive(a.drop_first(), b.drop_first(), c.drop_first());
        }
    }
}

pub proof fn lemma_str_lt_total(a: Seq<char>, b: Seq<char>)
    ensures
        a == b || str_lt(a, b) || str_lt(b, a),
    decreases a.len(),
{
    if a.len() > 0 && b.len() > 0 {
        if a[0] == b[0] {
            lemma_str_lt_total(a.drop_first(), b.drop_first());
            if a.drop_first() == b.drop_first() {
                assert(a =~= seq![a[0]] + a.drop_first());
                assert(b =~= seq![b[0]] + b.drop_first());
            }
        }
    } else if a.len() == 0 && b.len() == 0 {
        assert(a =~= b);
    }
}

/// Two strictly sorted sequences with the same elements are the same
/// sequence: a set of strings has one sorted form.
pub proof fn lemma_sorted_unique_by_set(a: Seq<Seq<char>>, b: Seq<Seq<char>>)
    requires
        strictly_sorted(a),
        strictly_sorted(b),
        a.to_set() == b.to_set(),
    ensures
        a == b,
    decreases a.len(),
{
    if a.len() == 0 || b.len() == 0 {
        if a.len() > 0 {
            assert(a.to_set().contains(a[0]));
            assert(b.to_set().contains(a[0]));
        }
        if b.len() > 0 {
            assert(b.to_set().contains(b[0]));
            assert(a.to_set().contains(b[0]));
        }
        assert(a =~= b);
    } else {
        let x = a[0];
        let y = b[0];
        assert(a.to_set().contains(x));
        assert(b.to_set().contains(x));
        assert(b.to_set().contains(y));
        assert(a.to_set().contains(y));
        let j = choose|j: int| 0 <= j < b.len() && b[j] == x;
        let i = choose|i: int| 0 <= i < a.len() && a[i] == y;
        if x != y {
            assert(j > 0 && i > 0);
            assert(str_lt(b[0], b[j]));
            assert(str_lt(a[0], a[i]));
            lemma_str_lt_transitive(x, y, x);
            lemma_str_lt_irreflexive(x);
        }
        let a1 = a.drop_first();
        let b1 = b.drop_first();
        assert(strictly_sorted(a1)) by {
            assert forall|p: int, q: int| 0 <= p < q < a1.len() implies str_lt(#[trigger] a1[p], #[trigger] a1[q]) by {
                assert(a1[p] == a[p + 1] && a1[q] == a[q + 1]);
            }
        }
        assert(strictly_sorted(b1)) by {
            assert forall|p: int, q: int| 0 <= p < q < b1.len() implies str_lt(#[trigger] b1[p], #[trigger] b1[q]) by {
                assert(b1[p] == b[p + 1] && b1[q] == b[q + 1]);
            }
        }
        assert forall|z: Seq<char>| a1.to_set().contains(z) <==> b1.to_set().contains(z) by {
            if a1.contains(z) {
                let p = choose|p: int| 0 <= p < a1.len() && a1[p] == z;
                assert(a[p + 1] == z);
                assert(str_lt(a[0], a[p + 1]));
                lemma_str_lt_irreflexive(z);
                assert(a.to_set().contains(z));
                assert(b.contains(z));
                let q = choose|q: int| 0 <= q < b.len() && b[q] == z;
                assert(q != 0);
                assert(b1[q - 1] == z);
            }
            if b1.contains(z) {
                let p = choose|p: int| 0 <= p < b1.len() && b1[p] == z;
                assert(b[p + 1] == z);
                assert(str_lt(b[0], b[p + 1]));
                lemma_str_lt_irreflexive(z);
                assert(b.to_set().contains(z));
                assert(a.contains(z));
                let q = choose|q: int| 0 <= q < a.len() && a[q] == z;
                assert(q != 0);
                assert(a1[q - 1] == z);
            }
        }
        assert(a1.to_set() =~= b1.to_set());
        lemma_sorted_unique_by_set(a1, b1);
        assert(a =~= b) by {
            assert forall|k: int| 0 <= k < a.len() implies a[k] == b[k] by {
                if k > 0 {
                    assert(a[k] == a1[k - 1]);
                    assert(b[k] == b1[k - 1]);
                }
            }
        }
    }
}

/// Whether `a < b`, comparing two character sequences.
pub fn chars_lt(a: &[char], b: &[char]) -> (r: bool)
    ensures
        r == str_lt(a@, b@),
{
    let mut i: usize = 0;
    assert(a@.skip(0) =~= a@);
    assert(b@.skip(0) =~= b@);
    while i < a.len() && i < b.len()
        invariant
            i <= a@.len(),
            i <= b@.len(),
            str_lt(a@, b@) == str_lt(a@.skip(i as int), b@.skip(i as int)),
        decreases a@.len() - i,
    {
        let ghost sa = a@.skip(i as int);
        let ghost sb = b@.skip(i as int);
        assert(sa[0] == a@[i as int]);
        assert(sb[0] == b@[i as int]);
        if a[i] != b[i] {
            return a[i] < b[i];
        }
        assert(sa.drop_first() =~= a@.skip(i + 1));
        assert(sb.drop_first() =~= b@.skip(i + 1));
        i = i + 1;
    }
    i == a.len() && i < b.len()
}

/// Whether two character sequences are equal.
pub fn chars_eq(a: &[char], b: &[char]) -> (r: bool)
    ensures
        r == (a@ == b@),
{
    if a.len() != b.len() {
        return false;
    }
    let mut i: usize = 0;
    while i < a.len()
        invariant
            a@.len() == b@.len(),
            i <= a@.len(),
            forall|j: int| 0 <= j < i ==> a@[j] == b@[j],
        decreases a@.len() - i,
    {
        if a[i] != b[i] {
            return false;
        }
        i = i + 1;
    }
    assert(a@ =~= b@);
    true
}

/// Whether two strings are equal.
pub fn str_eq(a: &str, b: &str) -> (r: bool)
    ensures
        r == (a@ == b@),
{
    let ca = chars_of(a);
    let cb = chars_of(b);
    chars_eq(ca.as_slice(), cb.as_slice())
}

/// A strictly sorted sequence with one distinct element is that element alone.
pub proof fn lemma_sorted_singleton(s: Seq<Seq<char>>, x: Seq<char>)
    requires
        strictly_sorted(s),
        s.to_set() == set![x],
    ensures
        s == seq![x],
{
    assert(s.to_set().contains(x));
    assert(s.len() >= 1);
    if s.len() >= 2 {
        assert(s.to_set().contains(s[0]));
        assert(s.to_set().contains(s[1]));
        assert(str_lt(s[0], s[1]));
        lemma_str_lt_irreflexive(x);
    }
    assert(s.to_set().contains(s[0]));
    assert(s =~= seq![x]);
}

/// Whether `a < b`, comparing two strings as `String`'s `Ord` does.
pub fn string_lt(a: &str, b: &str) -> (r: bool)
    ensures
        r == str_lt(a@, b@),
{
    let ca = chars_of(a);
    let cb = chars_of(b);
    chars_lt(ca.as_slice(), cb.as_slice())
}

/// The index at which `x` belongs in the strictly sorted `v`: every
/// element before it is smaller than `x`, and the element there, if any, is not.
pub fn insertion_point(v: &Vec<String>, x: &str) -> (r: usize)
    requires
        strictly_sorted(views(v@)),
    ensures
        r <= v@.len(),
        forall|i: int| 0 <= i < r ==> str_lt(#[trigger] v@[i]@, x@),
        forall|i: int| r <= i < v@.len() ==> !str_lt(#[trigger] v@[i]@, x@),
{
    let mut lo: usize = 0;
    let mut hi: usize = v.len();
    while lo < hi
        invariant
            lo <= hi <= v@.len(),
            strictly_sorted(views(v@)),
            forall|i: int| 0 <= i < lo ==> str_lt(#[trigger] v@[i]@, x@),
            forall|i: int| hi <= i < v@.len() ==> !str_lt(#[trigger] v@[i]@, x@),
        decreases hi - lo,
    {
        let mid = lo + (hi - lo) / 2;
        if string_lt(v[mid].as_str(), x) {
            assert forall|i: int| 0 <= i < mid + 1 implies str_lt(#[trigger] v@[i]@, x@) by {
                if i < mid {
                    assert(str_lt(views(v@)[i], views(v@)[mid as int]));
                    lemma_str_lt_transitive(v@[i]@, v@[mid as int]@, x@);
                }
            }
            lo = mid + 1;
        } else {
            assert forall|i: int| mid <= i < v@.len() implies !str_lt(#[trigger] v@[i]@, x@) by {
                if i > mid {
                    assert(str_lt(views(v@)[mid as int], views(v@)[i]));
                    if str_lt(v@[i]@, x@) {
                        lemma_str_lt_transitive(v@[mid as int]@, v@[i]@, x@);
                    }
                }
            }
            hi = mid;
        }
    }
    lo
}

proof fn lemma_insert_sorted(s: Seq<Seq<char>>, p: int, x: Seq<char>)
    requires
        strictly_sorted(s),
        0 <= p <= s.len(),
        forall|i: int| 0 <= i < p ==> str_lt(#[trigger] s[i], x),
        forall|i: int| p <= i < s.len() ==> str_lt(x, #[trigger] s[i]),
    ensures
        strictly_sorted(s.insert(p, x)),
{
    let t = s.insert(p, x);
    assert forall|i: int, j: int| 0 <= i < j < t.len() implies str_lt(#[trigger] t[i], #[trigger] t[j]) by {
        if i < p && j < p {
            assert(t[i] == s[i] && t[j] == s[j]);
        } else if i < p && j == p {
        } else if i < p && j > p {
            assert(t[i] == s[i] && t[j] == s[j - 1]);
        } else if i == p {
            assert(t[j] == s[j - 1]);
        } else {
            assert(t[i] == s[i - 1] && t[j] == s[j - 1]);
        }
    }
}

/// Adds `x` to the strictly sorted `v`, unless it is there already.
pub fn insert_sorted(v: &mut Vec<String>, x: String)
    requires
        strictly_sorted(views(old(v)@)),
    ensures
        strictly_sorted(views(final(v)@)),
        views(final(v)@).to_set() == views(old(v)@).to_set().insert(x@),
        views(old(v)@).contains(x@) ==> final(v)@ == old(v)@,
{
    let p = insertion_point(v, x.as_str());
    let ghost old_v = views(v@);
    if p < v.len() && !string_lt(x.as_str(), v[p].as_str()) {
        proof {
            lemma_str_lt_total(v@[p as int]@, x@);
            assert(old_v[p as int] == x@);
            assert(old_v.to_set().insert(x@) =~= old_v.to_set());
        }
        return;
    }
    proof {
        assert forall|i: int| p <= i < old_v.len() implies str_lt(x@, #[trigger] old_v[i]) by {
            lemma_str_lt_total(old_v[i], x@);
            if i > p {
                assert(str_lt(old_v[p as int], old_v[i]));
                if old_v[i] == x@ {
                } else if str_lt(old_v[i], x@) {
                }
            } else {
                if old_v[i] == x@ {
                }
            }
            assert(views(v@)[i] == v@[i]@);
        }
        assert forall|i: int| 0 <= i < p implies str_lt(#[trigger] old_v[i], x@) by {
            assert(views(v@)[i] == v@[i]@);
        }
        lemma_insert_sorted(old_v, p as int, x@);
        if old_v.contains(x@) {
            let k = choose|k: int| 0 <= k < old_v.len() && old_v[k] == x@;
            if k < p {
                lemma_str_lt_irreflexive(x@);
            } else {
                lemma_str_lt_irreflexive(x@);
            }
        }
    }
    v.insert(p, x);
    proof {
        assert(views(v@) =~= old_v.insert(p as int, x@));
        assert(views(v@).to_set() =~= old_v.to_set().insert(x@)) by {
            assert forall|y: Seq<char>| views(v@).to_set().contains(y) implies old_v.to_set().insert(x@).contains(y) by {
                let k = choose|k: int| 0 <= k < views(v@).len() && views(v@)[k] == y;
                if k < p {
                    assert(old_v[k] == y);
                } else if k > p {
                    assert(old_v[k - 1] == y);
                }
            }
            assert forall|y: Seq<char>| old_v.to_set().insert(x@).contains(y) implies views(v@).to_set().contains(y) by {
                if y == x@ {
                    assert(views(v@)[p as int] == y);
                } else {
                    let k = choose|k: int| 0 <= k < old_v.len() && old_v[k] == y;
                    if k < p {
                        assert(views(v@)[k] == y);
                    } else {
                        assert(views(v@)[k + 1] == y);
                    }
                }
            }
        }
    }
}

proof fn lemma_to_set_push(s: Seq<Seq<char>>, a: Seq<char>)
    ensures
        s.push(a).to_set() == s.to_set().insert(a),
{
    assert forall|y: Seq<char>| s.push(a).to_set().contains(y) implies s.to_set().insert(a).contains(y) by {
        let k = choose|k: int| 0 <= k < s.push(a).len() && s.push(a)[k] == y;
        if k < s.len() {
            assert(s[k] == y);
        }
    }
    assert forall|y: Seq<char>| s.to_set().insert(a).contains(y) implies s.push(a).to_set().contains(y) by {
        if y == a {
            assert(s.push(a)[s.len() as int] == y);
        } else {
            let k = choose|k: int| 0 <= k < s.len() && s[k] == y;
            assert(s.push(a)[k] == y);
        }
    }
    assert(s.push(a).to_set() =~= s.to_set().insert(a));
}

/// The distinct strings of `items`, in increasing order (`sort` then `dedup`).
pub fn sort_dedup(items: Vec<String>) -> (r: Vec<String>)
    ensures
        strictly_sorted(views(r@)),
        views(r@).to_set() == views(items@).to_set(),
{
    let mut out: Vec<String> = Vec::new();
    let mut i: usize = 0;
    let n = items.len();
    assert(views(out@).to_set() =~= views(items@.subrange(0, 0)).to_set());
    while i < n
        invariant
            n == items@.len(),
            i <= n,
            strictly_sorted(views(out@)),
            views(out@).to_set() == views(items@.subrange(0, i as int)).to_set(),
        decreases n - i,
    {
        let x = items[i].clone();
        insert_sorted(&mut out, x);
        proof {
            assert(views(items@.subrange(0, i + 1)) =~= views(items@.subrange(0, i as int)).push(
                items@[i as int]@,
            ));
            lemma_to_set_push(views(items@.subrange(0, i as int)), items@[i as int]@);
        }
        i = i + 1;
    }
    assert(items@.subrange(0, n as int) =~= items@);
    out
}

/// Whether the strictly sorted `v` holds `x`.
pub fn sorted_contains(v: &Vec<String>, x: &str) -> (r: bool)
    requires
        strictly_sorted(views(v@)),
    ensures
        r == views(v@).contains(x@),
{
    let p = insertion_point(v, x);
    if p < v.len() && !string_lt(x, v[p].as_str()) {
        proof {
            lemma_str_lt_total(v@[p as int]@, x@);
            assert(views(v@)[p as int] == x@);
        }
        true
    } else {
        proof {
            if views(v@).contains(x@) {
                let k = choose|k: int| 0 <= k < views(v@).len() && views(v@)[k] == x@;
                lemma_str_lt_irreflexive(x@);
                assert(v@[k]@ == x@);
                if k >= p && p < v@.len() {
                    if k > p {
                        assert(str_lt(views(v@)[p as int], views(v@)[k]));
                    }
                }
            }
        }
        false
    }
}

} // verus!
