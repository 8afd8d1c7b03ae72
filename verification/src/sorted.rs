//! Sorted sets of strings, kept in a `Vec` in strictly increasing order.

use vstd::prelude::*;

use crate::text::{lemma_seq_lt_asymmetric, lemma_seq_lt_irreflexive, lemma_seq_lt_total, lemma_seq_lt_transitive, seq_lt, str_lt};

verus! {

/// The texts of a sequence of strings.
pub open spec fn texts(v: Seq<String>) -> Seq<Seq<char>> {
    v.map_values(|s: String| s@)
}

/// Each text sorts strictly before the next: a set listed in `String` order.
pub open spec fn strictly_sorted(s: Seq<Seq<char>>) -> bool {
    forall|i: int, j: int| 0 <= i < j < s.len() ==> seq_lt(#[trigger] s[i], #[trigger] s[j])
}

/// A strictly sorted sequence has no duplicates.
pub proof fn lemma_sorted_unique(s: Seq<Seq<char>>, i: int, j: int)
    requires
        strictly_sorted(s),
        0 <= i < s.len(),
        0 <= j < s.len(),
        s[i] == s[j],
    ensures
        i == j,
{
    if i < j {
        lemma_seq_lt_irreflexive(s[i]);
    } else if j < i {
        lemma_seq_lt_irreflexive(s[i]);
    }
}

/// Two strictly sorted sequences with the same elements are equal.
pub proof fn lemma_sorted_same_set_equal(a: Seq<Seq<char>>, b: Seq<Seq<char>>)
    requires
        strictly_sorted(a),
        strictly_sorted(b),
        forall|x: Seq<char>| a.contains(x) <==> b.contains(x),
    ensures
        a == b,
    decreases a.len() + b.len(),
{
    if a.len() == 0 {
        if b.len() > 0 {
            assert(b.contains(b[0]));
        }
        assert(a =~= b);
    } else if b.len() == 0 {
        assert(a.contains(a[0]));
    } else {
        // Both first elements are the least element of the common set.
        assert(a.contains(a[0]));
        assert(b.contains(b[0]));
        let ia = choose|i: int| 0 <= i < a.len() && a[i] == b[0];
        let ib = choose|i: int| 0 <= i < b.len() && b[i] == a[0];
        if a[0] != b[0] {
            assert(ia > 0);
            assert(ib > 0);
            assert(seq_lt(a[0], a[ia]));
            assert(seq_lt(b[0], b[ib]));
            lemma_seq_lt_asymmetric(a[0], b[0]);
        }
        let a1 = a.drop_first();
        let b1 = b.drop_first();
        assert forall|x: Seq<char>| a1.contains(x) <==> b1.contains(x) by {
            if a1.contains(x) {
                let k = choose|k: int| 0 <= k < a1.len() && a1[k] == x;
                assert(a[k + 1] == x);
                assert(seq_lt(a[0], a[k + 1]));
                assert(b.contains(x));
                let m = choose|m: int| 0 <= m < b.len() && b[m] == x;
                if m == 0 {
                    lemma_seq_lt_irreflexive(x);
                }
                assert(b1[m - 1] == x);
            }
            if b1.contains(x) {
                let k = choose|k: int| 0 <= k < b1.len() && b1[k] == x;
                assert(b[k + 1] == x);
                assert(seq_lt(b[0], b[k + 1]));
                assert(a.contains(x));
                let m = choose|m: int| 0 <= m < a.len() && a[m] == x;
                if m == 0 {
                    lemma_seq_lt_irreflexive(x);
                }
                assert(a1[m - 1] == x);
            }
        }
        lemma_sorted_same_set_equal(a1, b1);
        assert(a =~= seq![a[0]] + a1);
        assert(b =~= seq![b[0]] + b1);
    }
}

/// The position of `key` in `v`, if it is there.
pub fn find_text(v: &Vec<String>, key: &String) -> (r: Option<usize>)
    ensures
        match r {
            Some(i) => i < v@.len() && v@[i as int]@ == key@,
            None => forall|i: int| 0 <= i < v@.len() ==> v@[i]@ != key@,
        },
{
    let n = v.len();
    let mut i: usize = 0;
    while i < n
        invariant
            n == v@.len(),
            i <= n,
            forall|k: int| 0 <= k < i ==> v@[k]@ != key@,
        decreases n - i,
    {
        if v[i] == *key {
            return Some(i);
        }
        i = i + 1;
    }
    None
}

/// Adds `x` to the sorted set `v`; `true` when it was not there before
/// (`BTreeSet::insert`).
pub fn sorted_insert(v: &mut Vec<String>, x: String) -> (added: bool)
    requires
        strictly_sorted(texts(old(v)@)),
    ensures
        strictly_sorted(texts(final(v)@)),
        forall|s: Seq<char>| texts(final(v)@).contains(s) <==> (texts(old(v)@).contains(s) || s == x@),
        added == !texts(old(v)@).contains(x@),
{
    let ghost old_t = texts(v@);
    let n = v.len();
    let mut p: usize = 0;
    while p < n && str_lt(v[p].as_str(), x.as_str())
        invariant
            n == v@.len(),
            p <= n,
            v@ == old(v)@,
            forall|k: int| 0 <= k < p ==> seq_lt(#[trigger] v@[k]@, x@),
        decreases n - p,
    {
        p = p + 1;
    }
    if p < n && v[p] == x {
        proof {
            assert(old_t[p as int] == x@);
            assert forall|s: Seq<char>| texts(v@).contains(s) <==> (old_t.contains(s) || s == x@) by {
                if s == x@ {
                    assert(old_t.contains(s));
                }
            }
        }
        return false;
    }
    proof {
        // Everything from `p` on sorts after `x`.
        assert forall|k: int| p <= k < n implies seq_lt(x@, #[trigger] old_t[k]) by {
            assert(old_t[p as int] == v@[p as int]@);
            if old_t[p as int] != x@ {
                lemma_seq_lt_total(old_t[p as int], x@);
            }
            if k > p {
                lemma_seq_lt_transitive(x@, old_t[p as int], old_t[k]);
            }
        }
        assert forall|k: int| 0 <= k < n implies old_t[k] != x@ by {
            if k < p {
                assert(seq_lt(v@[k]@, x@));
                lemma_seq_lt_irreflexive(x@);
            } else {
                assert(seq_lt(x@, old_t[k]));
                lemma_seq_lt_irreflexive(x@);
            }
        }
    }
    let ghost xv = x@;
    v.insert(p, x);
    proof {
        let t = texts(v@);
        assert(t =~= old_t.insert(p as int, xv));
        assert forall|i: int, j: int| 0 <= i < j < t.len() implies seq_lt(#[trigger] t[i], #[trigger] t[j]) by {
            if j < p {
                assert(t[i] == old_t[i] && t[j] == old_t[j]);
            } else if j == p {
                assert(t[i] == old_t[i]);
                assert(seq_lt(v@[i]@, xv));
            } else if i == p {
                assert(t[j] == old_t[j - 1]);
            } else if i < p {
                assert(t[i] == old_t[i] && t[j] == old_t[j - 1]);
                assert(seq_lt(old_t[i], xv));
                lemma_seq_lt_transitive(old_t[i], xv, old_t[j - 1]);
            } else {
                assert(t[i] == old_t[i - 1] && t[j] == old_t[j - 1]);
            }
        }
        assert forall|s: Seq<char>| t.contains(s) <==> (old_t.contains(s) || s == xv) by {
            if t.contains(s) {
                let k = choose|k: int| 0 <= k < t.len() && t[k] == s;
                if k < p {
                    assert(old_t[k] == s);
                } else if k > p {
                    assert(old_t[k - 1] == s);
                }
            }
            if old_t.contains(s) {
                let k = choose|k: int| 0 <= k < old_t.len() && old_t[k] == s;
                if k < p {
                    assert(t[k] == s);
                } else {
                    assert(t[k + 1] == s);
                }
            }
            if s == xv {
                assert(t[p as int] == s);
            }
        }
    }
    true
}

} // verus!
