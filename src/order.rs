//! Lexicographic order on names, and sorting by it.
use vstd::prelude::*;
use crate::text::views;

verus! {

broadcast use vstd::seq_lib::group_to_multiset_ensures;

/// `a` comes no later than `b` in lexicographic order by code point, the order
/// of `String`'s `Ord`.
pub open spec fn lex_le(a: Seq<char>, b: Seq<char>) -> bool
    decreases a.len(),
{
    if a.len() == 0 {
        true
    } else if b.len() == 0 {
        false
    } else if a[0] != b[0] {
        a[0] < b[0]
    } else {
        lex_le(a.drop_first(), b.drop_first())
    }
}

pub proof fn lemma_lex_total(a: Seq<char>, b: Seq<char>)
    ensures
        lex_le(a, b) || lex_le(b, a),
    decreases a.len(),
{
    if a.len() > 0 && b.len() > 0 && a[0] == b[0] {
        lemma_lex_total(a.drop_first(), b.drop_first());
    }
}

pub proof fn lemma_lex_antisymmetric(a: Seq<char>, b: Seq<char>)
    requires
        lex_le(a, b),
        lex_le(b, a),
    ensures
        a == b,
    decreases a.len(),
{
    if a.len() > 0 && b.len() > 0 {
        lemma_lex_antisymmetric(a.drop_first(), b.drop_first());
        assert(a =~= seq![a[0]] + a.drop_first());
        assert(b =~= seq![b[0]] + b.drop_first());
    } else {
        assert(a =~= b);
    }
}

pub proof fn lemma_lex_transitive(a: Seq<char>, b: Seq<char>, c: Seq<char>)
    requires
        lex_le(a, b),
        lex_le(b, c),
    ensures
        lex_le(a, c),
    decreases a.len(),
{
    if a.len() > 0 && b.len() > 0 && c.len() > 0 && a[0] == b[0] && b[0] == c[0] {
        lemma_lex_transitive(a.drop_first(), b.drop_first(), c.drop_first());
    }
}

/// Each name comes no later than every name after it.
pub open spec fn sorted(s: Seq<Seq<char>>) -> bool {
    forall|i: int, j: int| 0 <= i < j < s.len() ==> lex_le(#[trigger] s[i], #[trigger] s[j])
}

/// `p` holds the names of `s` in ascending order.
pub open spec fn is_sorting_of(p: Seq<Seq<char>>, s: Seq<Seq<char>>) -> bool {
    sorted(p) && p.to_multiset() == s.to_multiset()
}

/// Names in ascending order are determined by the names alone: two sorted
/// sequences that hold the same names are equal.
pub proof fn lemma_sorting_unique(p: Seq<Seq<char>>, q: Seq<Seq<char>>)
    requires
        sorted(p),
        sorted(q),
        p.to_multiset() == q.to_multiset(),
    ensures
        p == q,
    decreases p.len(),
{
    vstd::seq_lib::to_multiset_len(p);
    vstd::seq_lib::to_multiset_len(q);
    if p.len() == 0 {
        assert(p =~= q);
    } else {
        let n = p.len() - 1;
        let x = p.last();
        let y = q.last();
        assert(p.to_multiset().count(x) > 0);
        assert(q.contains(x));
        let k = choose|k: int| 0 <= k < q.len() && q[k] == x;
        assert(p.contains(y)) by {
            assert(q.to_multiset().count(y) > 0);
        }
        let l = choose|l: int| 0 <= l < p.len() && p[l] == y;
        if k < n && l < n {
            assert(lex_le(q[k], q[n]));
            assert(lex_le(p[l], p[n]));
            lemma_lex_antisymmetric(x, y);
        }
        assert(x == y);
        vstd::seq_lib::to_multiset_remove(p, n);
        vstd::seq_lib::to_multiset_remove(q, n);
        assert(p.remove(n) =~= p.drop_last());
        assert(q.remove(n) =~= q.drop_last());
        lemma_sorting_unique(p.drop_last(), q.drop_last());
        assert(p =~= p.drop_last().push(x));
        assert(q =~= q.drop_last().push(y));
    }
}

/// Compares two names lexicographically.
pub fn name_le(a: &str, b: &str) -> (r: bool)
    ensures
        r == lex_le(a@, b@),
{
    let n = a.unicode_len();
    let m = b.unicode_len();
    let mut i: usize = 0;
    assert(a@.skip(0) =~= a@ && b@.skip(0) =~= b@);
    while i < n && i < m
        invariant
            n == a@.len(),
            m == b@.len(),
            i <= n,
            i <= m,
            lex_le(a@, b@) == lex_le(a@.skip(i as int), b@.skip(i as int)),
        decreases n - i,
    {
        let x = a.get_char(i);
        let y = b.get_char(i);
        if x != y {
            return x < y;
        }
        assert(a@.skip(i as int).drop_first() =~= a@.skip(i + 1));
        assert(b@.skip(i as int).drop_first() =~= b@.skip(i + 1));
        i = i + 1;
    }
    i == n
}

/// Sorts names in ascending lexicographic order.
pub fn sort_names(v: &Vec<String>) -> (r: Vec<String>)
    ensures
        is_sorting_of(views(r@), views(v@)),
{
    let mut out: Vec<String> = Vec::new();
    let mut i: usize = 0;
    while i < v.len()
        invariant
            i <= v@.len(),
            sorted(views(out@)),
            views(out@).to_multiset() == views(v@.take(i as int)).to_multiset(),
        decreases v@.len() - i,
    {
        let x = v[i].clone();
        let mut k: usize = 0;
        while k < out.len() && name_le(out[k].as_str(), x.as_str())
            invariant
                k <= out@.len(),
                forall|j: int| 0 <= j < k ==> lex_le(#[trigger] out@[j]@, x@),
            decreases out@.len() - k,
        {
            k = k + 1;
        }
        let ghost before = views(out@);
        proof {
            if k < out@.len() {
                lemma_lex_total(out@[k as int]@, x@);
                assert forall|j: int| k <= j < before.len() implies lex_le(x@, #[trigger] before[j]) by {
                    if j > k {
                        assert(lex_le(before[k as int], before[j]));
                        lemma_lex_transitive(x@, before[k as int], before[j]);
                    }
                }
            }
        }
        out.insert(k, x);
        proof {
            assert(views(out@) =~= before.insert(k as int, x@));
            assert(views(v@.take(i + 1)) =~= views(v@.take(i as int)).push(x@));
            let now = views(out@);
            assert forall|a: int, b: int| 0 <= a < b < now.len() implies lex_le(
                #[trigger] now[a],
                #[trigger] now[b],
            ) by {
                if a < k && b > k {
                    lemma_lex_transitive(now[a], x@, now[b]);
                }
            }
        }
        i = i + 1;
    }
    assert(v@.take(v@.len() as int) =~= v@);
    out
}

} // verus!
