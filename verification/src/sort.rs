//! Stable sorting by a key, as `slice::sort_by` does it.
//!
//! A stable sort is pinned down by two facts: the result is ordered by the
//! key, and for every key the items with that key come in the order they had.
use vstd::prelude::*;
use crate::text::chars_of;

verus! {

/// Keys under a total preorder.
pub trait SortKey: Sized {
    spec fn key_le(self, other: Self) -> bool;

    proof fn lemma_le_total(a: Self, b: Self)
        ensures
            a.key_le(b) || b.key_le(a),
    ;

    proof fn lemma_le_trans(a: Self, b: Self, c: Self)
        requires
            a.key_le(b),
            b.key_le(c),
        ensures
            a.key_le(c),
    ;

    fn le(&self, other: &Self) -> (r: bool)
        ensures
            r == self.key_le(*other),
    ;
}

/// The items whose key is equivalent to `k`.
pub open spec fn same_key<K: SortKey, T>(k: K) -> spec_fn((K, T)) -> bool {
    |p: (K, T)| p.0.key_le(k) && k.key_le(p.0)
}

/// The items are ordered by their keys.
pub open spec fn sorted_by_key<K: SortKey, T>(s: Seq<(K, T)>) -> bool {
    forall|i: int, j: int| 0 <= i < j < s.len() ==> (#[trigger] s[i]).0.key_le((#[trigger] s[j]).0)
}

/// `r` is the stable sort of `s` by key.
pub open spec fn stably_sorted<K: SortKey, T>(r: Seq<(K, T)>, s: Seq<(K, T)>) -> bool {
    &&& r.len() == s.len()
    &&& sorted_by_key(r)
    &&& forall|k: K| #[trigger] r.filter(same_key::<K, T>(k)) == s.filter(same_key::<K, T>(k))
}

proof fn lemma_filter_none<K: SortKey, T>(s: Seq<(K, T)>, k: K)
    requires
        forall|i: int| 0 <= i < s.len() ==> !(#[trigger] same_key::<K, T>(k)(s[i])),
    ensures
        s.filter(same_key::<K, T>(k)) =~= Seq::<(K, T)>::empty(),
    decreases s.len(),
{
    reveal(Seq::filter);
    if s.len() > 0 {
        lemma_filter_none(s.drop_last(), k);
        assert(!same_key::<K, T>(k)(s.drop_last().push(s.last()).last()));
        assert(s.drop_last().push(s.last()) =~= s);
    }
}

proof fn lemma_insert_keeps<K: SortKey, T>(s: Seq<(K, T)>, p: int, x: (K, T))
    requires
        0 <= p <= s.len(),
        sorted_by_key(s),
        forall|i: int| 0 <= i < p ==> (#[trigger] s[i]).0.key_le(x.0),
        forall|i: int| p <= i < s.len() ==> !(#[trigger] s[i]).0.key_le(x.0),
    ensures
        sorted_by_key(s.insert(p, x)),
        forall|k: K| #[trigger]
            s.insert(p, x).filter(same_key::<K, T>(k)) == (if same_key::<K, T>(k)(x) {
                s.filter(same_key::<K, T>(k)).push(x)
            } else {
                s.filter(same_key::<K, T>(k))
            }),
{
    let n = s.insert(p, x);
    let left = s.subrange(0, p);
    let right = s.subrange(p, s.len() as int);
    assert(s =~= left + right);
    assert(n =~= left + seq![x] + right);
    assert forall|i: int, j: int| 0 <= i < j < n.len() implies (#[trigger] n[i]).0.key_le(
        (#[trigger] n[j]).0,
    ) by {
        if j < p {
            assert(n[i] == s[i] && n[j] == s[j]);
        } else if j == p {
            assert(n[i] == s[i]);
        } else if i < p {
            assert(n[i] == s[i] && n[j] == s[j - 1]);
        } else if i == p {
            assert(n[j] == s[j - 1]);
            K::lemma_le_total(s[j - 1].0, x.0);
        } else {
            assert(n[i] == s[i - 1] && n[j] == s[j - 1]);
        }
    }
    assert forall|k: K| #[trigger]
        n.filter(same_key::<K, T>(k)) == (if same_key::<K, T>(k)(x) {
            s.filter(same_key::<K, T>(k)).push(x)
        } else {
            s.filter(same_key::<K, T>(k))
        }) by {
        let f = same_key::<K, T>(k);
        broadcast use Seq::filter_distributes_over_add;

        assert((left + seq![x]).filter(f) == left.filter(f) + seq![x].filter(f));
        assert(n.filter(f) == (left + seq![x]).filter(f) + right.filter(f));
        assert(s.filter(f) == left.filter(f) + right.filter(f));
        reveal(Seq::filter);
        Seq::<(K, T)>::empty().lemma_filter_push(x, f);
        assert(Seq::<(K, T)>::empty().push(x) =~= seq![x]);
        assert(Seq::<(K, T)>::empty().filter(f) =~= Seq::<(K, T)>::empty());
        if f(x) {
            assert forall|i: int| 0 <= i < right.len() implies !(#[trigger] f(right[i])) by {
                if f(right[i]) {
                    K::lemma_le_trans(right[i].0, k, x.0);
                    assert(right[i] == s[p + i]);
                }
            }
            lemma_filter_none(right, k);
            assert(seq![x].filter(f) =~= seq![x]);
            assert(n.filter(f) =~= s.filter(f).push(x));
        } else {
            assert(seq![x].filter(f) =~= Seq::<(K, T)>::empty());
            assert(n.filter(f) =~= s.filter(f));
        }
    }
}

proof fn lemma_filter_last<K: SortKey, T>(s: Seq<(K, T)>, f: spec_fn((K, T)) -> bool)
    requires
        s.len() > 0,
    ensures
        s.filter(f) == (if f(s.last()) {
            s.drop_last().filter(f).push(s.last())
        } else {
            s.drop_last().filter(f)
        }),
{
    reveal(Seq::filter);
}

proof fn lemma_sorted_unique<K: SortKey, T>(r1: Seq<(K, T)>, r2: Seq<(K, T)>)
    requires
        r1.len() == r2.len(),
        sorted_by_key(r1),
        sorted_by_key(r2),
        forall|k: K| #[trigger] r1.filter(same_key::<K, T>(k)) == r2.filter(same_key::<K, T>(k)),
    ensures
        r1 == r2,
    decreases r1.len(),
{
    if r1.len() > 0 {
        let x = r1.last();
        let y = r2.last();
        let n = r1.len() as int;
        K::lemma_le_total(x.0, x.0);
        K::lemma_le_total(y.0, y.0);
        // The last item of each is one of the other, so their keys are equivalent.
        let py = same_key::<K, T>(y.0);
        r2.lemma_filter_contains(py, n - 1);
        assert(r1.filter(py) == r2.filter(py));
        r1.lemma_filter_contains_rev(py, y);
        let m = choose|m: int| 0 <= m < r1.len() && r1[m] == y;
        if m < n - 1 {
            assert(r1[m].0.key_le(r1[n - 1].0));
        }
        assert(y.0.key_le(x.0));
        let px = same_key::<K, T>(x.0);
        r1.lemma_filter_contains(px, n - 1);
        assert(r1.filter(px) == r2.filter(px));
        r2.lemma_filter_contains_rev(px, x);
        let q = choose|q: int| 0 <= q < r2.len() && r2[q] == x;
        if q < n - 1 {
            assert(r2[q].0.key_le(r2[n - 1].0));
        }
        assert(x.0.key_le(y.0));
        // Both filters of that key end with the last items, which are equal.
        lemma_filter_last(r1, px);
        lemma_filter_last(r2, px);
        assert(px(y));
        assert(r1.filter(px).last() == x);
        assert(r2.filter(px).last() == y);
        assert(x == y);
        let a = r1.drop_last();
        let b = r2.drop_last();
        assert forall|k: K| #[trigger] a.filter(same_key::<K, T>(k)) == b.filter(same_key::<K, T>(k)) by {
            let f = same_key::<K, T>(k);
            lemma_filter_last(r1, f);
            lemma_filter_last(r2, f);
            assert(r1.filter(f) == r2.filter(f));
            if f(x) {
                assert(a.filter(f) =~= r1.filter(f).drop_last());
                assert(b.filter(f) =~= r2.filter(f).drop_last());
            }
        }
        assert(sorted_by_key(a)) by {
            assert forall|i: int, j: int| 0 <= i < j < a.len() implies (#[trigger] a[i]).0.key_le(
                (#[trigger] a[j]).0,
            ) by {
                assert(a[i] == r1[i] && a[j] == r1[j]);
            }
        }
        assert(sorted_by_key(b)) by {
            assert forall|i: int, j: int| 0 <= i < j < b.len() implies (#[trigger] b[i]).0.key_le(
                (#[trigger] b[j]).0,
            ) by {
                assert(b[i] == r2[i] && b[j] == r2[j]);
            }
        }
        lemma_sorted_unique(a, b);
        assert(r1 =~= a.push(x));
        assert(r2 =~= b.push(y));
    }
}

/// A stable sort has one result: two sequences that are both the stable
/// sort of `s` by key are equal.
pub proof fn lemma_stable_sort_unique<K: SortKey, T>(r1: Seq<(K, T)>, r2: Seq<(K, T)>, s: Seq<(K, T)>)
    requires
        stably_sorted(r1, s),
        stably_sorted(r2, s),
    ensures
        r1 == r2,
{
    assert forall|k: K| #[trigger] r1.filter(same_key::<K, T>(k)) == r2.filter(same_key::<K, T>(k)) by {
        assert(r1.filter(same_key::<K, T>(k)) == s.filter(same_key::<K, T>(k)));
        assert(r2.filter(same_key::<K, T>(k)) == s.filter(same_key::<K, T>(k)));
    }
    lemma_sorted_unique(r1, r2);
}

/// Sorting what is sorted already changes nothing: the stable sort of a
/// sequence ordered by key is that sequence.
pub proof fn lemma_stable_sort_idempotent<K: SortKey, T>(r: Seq<(K, T)>, s: Seq<(K, T)>)
    requires
        sorted_by_key(s),
        stably_sorted(r, s),
    ensures
        r == s,
{
    assert(stably_sorted(s, s));
    lemma_stable_sort_unique(r, s, s);
}

/// Sorts the items by key; items with equivalent keys keep their order.
pub fn stable_sort<K: SortKey, T>(items: Vec<(K, T)>) -> (r: Vec<(K, T)>)
    ensures
        stably_sorted(r@, items@),
{
    let mut items = items;
    let ghost orig = items@;
    let mut out: Vec<(K, T)> = Vec::new();
    let ghost mut done: int = 0;
    while items.len() > 0
        invariant
            0 <= done <= orig.len(),
            items@ == orig.subrange(done, orig.len() as int),
            out@.len() == done,
            sorted_by_key(out@),
            forall|k: K| #[trigger]
                out@.filter(same_key::<K, T>(k)) == orig.subrange(0, done).filter(
                    same_key::<K, T>(k),
                ),
        decreases items.len(),
    {
        let x = items.remove(0);
        assert(x == orig[done]);
        let mut p: usize = 0;
        while p < out.len() && out[p].0.le(&x.0)
            invariant
                p <= out@.len(),
                forall|i: int| 0 <= i < p ==> (#[trigger] out@[i]).0.key_le(x.0),
            decreases out.len() - p,
        {
            p = p + 1;
        }
        assert forall|i: int| p <= i < out@.len() implies !(#[trigger] out@[i]).0.key_le(x.0) by {
            if out@[i].0.key_le(x.0) {
                K::lemma_le_trans(out@[p as int].0, out@[i].0, x.0);
            }
        }
        let ghost before = out@;
        proof {
            lemma_insert_keeps(before, p as int, x);
        }
        out.insert(p, x);
        proof {
            assert forall|k: K| #[trigger]
                out@.filter(same_key::<K, T>(k)) == orig.subrange(0, done + 1).filter(
                    same_key::<K, T>(k),
                ) by {
                orig.subrange(0, done).lemma_filter_push(orig[done], same_key::<K, T>(k));
                assert(orig.subrange(0, done + 1) =~= orig.subrange(0, done).push(orig[done]));
            }
            done = done + 1;
            assert(items@ =~= orig.subrange(done, orig.len() as int));
        }
    }
    assert(orig.subrange(0, done) =~= orig);
    out
}

// ---------------------------------------------------------------------
// Keys
// ---------------------------------------------------------------------

/// Lexicographic order of texts by code point, which is the order of
/// `str::cmp` (UTF-8 preserves the order of code points).
pub open spec fn lex_le(a: Seq<char>, b: Seq<char>) -> bool
    decreases a.len(),
{
    if a.len() == 0 {
        true
    } else if b.len() == 0 {
        false
    } else if a[0] != b[0] {
        a[0] < b[0]
    } else {
        lex_le(a.drop_first(), b.drop_first())
    }
}

proof fn lemma_lex_total(a: Seq<char>, b: Seq<char>)
    ensures
        lex_le(a, b) || lex_le(b, a),
    decreases a.len(),
{
    if a.len() > 0 && b.len() > 0 && a[0] == b[0] {
        lemma_lex_total(a.drop_first(), b.drop_first());
    }
}

proof fn lemma_lex_trans(a: Seq<char>, b: Seq<char>, c: Seq<char>)
    requires
        lex_le(a, b),
        lex_le(b, c),
    ensures
        lex_le(a, c),
    decreases a.len(),
{
    if a.len() > 0 && b.len() > 0 && c.len() > 0 && a[0] == b[0] && b[0] == c[0] {
        lemma_lex_trans(a.drop_first(), b.drop_first(), c.drop_first());
    }
}

fn lex_le_exec(a: &[char], b: &[char]) -> (r: bool)
    ensures
        r == lex_le(a@, b@),
{
    let mut i: usize = 0;
    assert(a@.subrange(0, a@.len() as int) =~= a@);
    assert(b@.subrange(0, b@.len() as int) =~= b@);
    while i < a.len() && i < b.len() && a[i] == b[i]
        invariant
            i <= a@.len(),
            i <= b@.len(),
            lex_le(a@, b@) == lex_le(a@.subrange(i as int, a@.len() as int), b@.subrange(i as int, b@.len() as int)),
        decreases a.len() - i,
    {
        assert(a@.subrange(i as int, a@.len() as int).drop_first() =~= a@.subrange(i + 1, a@.len() as int));
        assert(b@.subrange(i as int, b@.len() as int).drop_first() =~= b@.subrange(i + 1, b@.len() as int));
        i = i + 1;
    }
    if i == a.len() {
        true
    } else if i == b.len() {
        false
    } else {
        a[i] < b[i]
    }
}

impl SortKey for String {
    open spec fn key_le(self, other: Self) -> bool {
        lex_le(self@, other@)
    }

    proof fn lemma_le_total(a: Self, b: Self) {
        lemma_lex_total(a@, b@);
    }

    proof fn lemma_le_trans(a: Self, b: Self, c: Self) {
        lemma_lex_trans(a@, b@, c@);
    }

    fn le(&self, other: &Self) -> (r: bool) {
        let a = chars_of(self.as_str());
        let b = chars_of(other.as_str());
        lex_le_exec(a.as_slice(), b.as_slice())
    }
}

/// A rank that orders before every absent one.
impl SortKey for Option<u64> {
    open spec fn key_le(self, other: Self) -> bool {
        match (self, other) {
            (Some(a), Some(b)) => a <= b,
            (Some(_), None) => true,
            (None, Some(_)) => false,
            (None, None) => true,
        }
    }

    proof fn lemma_le_total(a: Self, b: Self) {
    }

    proof fn lemma_le_trans(a: Self, b: Self, c: Self) {
    }

    fn le(&self, other: &Self) -> (r: bool) {
        match (self, other) {
            (Some(a), Some(b)) => *a <= *b,
            (Some(_), None) => true,
            (None, Some(_)) => false,
            (None, None) => true,
        }
    }
}

} // verus!
