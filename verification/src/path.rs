//! Repository-relative paths, held as their components.
//!
//! A path is the sequence of its components (`Path::components`), each as
//! text; the current directory `.` is the single component `"."`. Paths
//! compare component by component, which is how `Path` orders paths made of
//! plain names.

use vstd::prelude::*;

use crate::sorted::texts;
use crate::text::{
    chars_lt, chars_of, lemma_seq_lt_asymmetric, lemma_seq_lt_irreflexive, lemma_seq_lt_total,
    lemma_seq_lt_transitive, seq_lt,
};

verus! {

/// The components of a path, as text.
pub open spec fn path_view(p: Seq<String>) -> Seq<Seq<char>> {
    texts(p)
}

/// The path `.`.
pub open spec fn is_cur_dir(p: Seq<Seq<char>>) -> bool {
    p == seq![seq!['.']]
}

/// `file` lies under `dir`: the components of `dir` begin those of `file`
/// (`Path::starts_with`).
pub open spec fn path_starts_with(file: Seq<Seq<char>>, dir: Seq<Seq<char>>) -> bool {
    dir.len() <= file.len() && file.take(dir.len() as int) == dir
}

/// Component-wise order of paths.
pub open spec fn path_lt(a: Seq<Seq<char>>, b: Seq<Seq<char>>) -> bool
    decreases a.len(),
{
    if a.len() == 0 {
        b.len() > 0
    } else if b.len() == 0 {
        false
    } else if a[0] != b[0] {
        seq_lt(a[0], b[0])
    } else {
        path_lt(a.drop_first(), b.drop_first())
    }
}

/// `path_lt` is irreflexive.
pub proof fn lemma_path_lt_irreflexive(a: Seq<Seq<char>>)
    ensures
        !path_lt(a, a),
    decreases a.len(),
{
    if a.len() > 0 {
        lemma_path_lt_irreflexive(a.drop_first());
    }
}

/// `path_lt` is transitive.
pub proof fn lemma_path_lt_transitive(a: Seq<Seq<char>>, b: Seq<Seq<char>>, c: Seq<Seq<char>>)
    requires
        path_lt(a, b),
        path_lt(b, c),
    ensures
        path_lt(a, c),
    decreases a.len(),
{
    if a.len() > 0 && b.len() > 0 && c.len() > 0 {
        if a[0] == b[0] && b[0] == c[0] {
            lemma_path_lt_transitive(a.drop_first(), b.drop_first(), c.drop_first());
        } else if a[0] == b[0] {
        } else if b[0] == c[0] {
        } else {
            lemma_seq_lt_transitive(a[0], b[0], c[0]);
            if a[0] == c[0] {
                lemma_seq_lt_asymmetric(a[0], b[0]);
            }
        }
    }
}

/// Two different paths are ordered one way or the other.
pub proof fn lemma_path_lt_total(a: Seq<Seq<char>>, b: Seq<Seq<char>>)
    requires
        a != b,
    ensures
        path_lt(a, b) || path_lt(b, a),
    decreases a.len(),
{
    if a.len() == 0 {
        if b.len() == 0 {
            assert(a =~= b);
        }
    } else if b.len() > 0 && a[0] == b[0] {
        if a.drop_first() == b.drop_first() {
            assert(a =~= seq![a[0]] + a.drop_first());
            assert(b =~= seq![b[0]] + b.drop_first());
        }
        lemma_path_lt_total(a.drop_first(), b.drop_first());
    } else if b.len() > 0 {
        lemma_seq_lt_total(a[0], b[0]);
    }
}

/// `path_lt` is asymmetric.
pub proof fn lemma_path_lt_asymmetric(a: Seq<Seq<char>>, b: Seq<Seq<char>>)
    requires
        path_lt(a, b),
    ensures
        !path_lt(b, a),
{
    if path_lt(b, a) {
        lemma_path_lt_transitive(a, b, a);
        lemma_path_lt_irreflexive(a);
    }
}

/// Whether path `a` sorts before path `b`.
pub fn path_less(a: &Vec<String>, b: &Vec<String>) -> (r: bool)
    ensures
        r == path_lt(path_view(a@), path_view(b@)),
{
    let n = a.len();
    let m = b.len();
    let ghost pa = path_view(a@);
    let ghost pb = path_view(b@);
    let mut k: usize = 0;
    assert(pa.skip(0) =~= pa);
    assert(pb.skip(0) =~= pb);
    while k < n && k < m && a[k] == b[k]
        invariant
            n == a@.len(),
            m == b@.len(),
            pa == path_view(a@),
            pb == path_view(b@),
            k <= n,
            k <= m,
            path_lt(pa, pb) == path_lt(pa.skip(k as int), pb.skip(k as int)),
        decreases n - k,
    {
        assert(pa.skip(k as int).drop_first() =~= pa.skip(k + 1));
        assert(pb.skip(k as int).drop_first() =~= pb.skip(k + 1));
        assert(pa.skip(k as int)[0] == pa[k as int]);
        assert(pb.skip(k as int)[0] == pb[k as int]);
        k = k + 1;
    }
    if k == n {
        k < m
    } else if k == m {
        false
    } else {
        assert(pa.skip(k as int)[0] == pa[k as int]);
        assert(pb.skip(k as int)[0] == pb[k as int]);
        let x = chars_of(a[k].as_str());
        let y = chars_of(b[k].as_str());
        chars_lt(x.as_slice(), y.as_slice())
    }
}

/// Whether two paths are the same.
pub fn path_eq(a: &Vec<String>, b: &Vec<String>) -> (r: bool)
    ensures
        r == (path_view(a@) == path_view(b@)),
{
    let n = a.len();
    if n != b.len() {
        return false;
    }
    let mut k: usize = 0;
    while k < n
        invariant
            n == a@.len(),
            n == b@.len(),
            k <= n,
            forall|j: int| 0 <= j < k ==> a@[j]@ == b@[j]@,
        decreases n - k,
    {
        if a[k] != b[k] {
            assert(path_view(a@)[k as int] != path_view(b@)[k as int]);
            return false;
        }
        k = k + 1;
    }
    assert(path_view(a@) =~= path_view(b@));
    true
}

/// Whether `file` lies under `dir` (`Path::starts_with`).
pub fn path_has_prefix(file: &Vec<String>, dir: &Vec<String>) -> (r: bool)
    ensures
        r == path_starts_with(path_view(file@), path_view(dir@)),
{
    let n = dir.len();
    if n > file.len() {
        return false;
    }
    let mut k: usize = 0;
    while k < n
        invariant
            n == dir@.len(),
            n <= file@.len(),
            k <= n,
            forall|j: int| 0 <= j < k ==> file@[j]@ == dir@[j]@,
        decreases n - k,
    {
        if file[k] != dir[k] {
            assert(path_view(file@).take(n as int)[k as int] != path_view(dir@)[k as int]);
            return false;
        }
        k = k + 1;
    }
    assert(path_view(file@).take(n as int) =~= path_view(dir@));
    true
}

/// Whether `p` is the path `.`.
pub fn path_is_cur_dir(p: &Vec<String>) -> (r: bool)
    ensures
        r == is_cur_dir(path_view(p@)),
{
    if p.len() != 1 {
        proof {
            if is_cur_dir(path_view(p@)) {
                assert(path_view(p@).len() == 1);
            }
        }
        return false;
    }
    let c = chars_of(p[0].as_str());
    let r = c.len() == 1 && c[0] == '.';
    proof {
        if r {
            assert(path_view(p@)[0] =~= seq!['.']);
            assert(path_view(p@) =~= seq![seq!['.']]);
        }
        if is_cur_dir(path_view(p@)) {
            assert(path_view(p@)[0] == seq!['.']);
        }
    }
    r
}

/// A copy of a path.
pub fn copy_path(p: &Vec<String>) -> (r: Vec<String>)
    ensures
        r@ == p@,
{
    let n = p.len();
    let mut r: Vec<String> = Vec::new();
    for i in 0..n
        invariant
            n == p@.len(),
            r@ == p@.take(i as int),
    {
        r.push(p[i].clone());
        assert(r@ =~= p@.take(i + 1));
    }
    assert(p@.take(n as int) =~= p@);
    r
}

/// The path `.`.
pub fn cur_dir() -> (p: Vec<String>)
    ensures
        is_cur_dir(path_view(p@)),
{
    let mut p: Vec<String> = Vec::new();
    let mut dot = String::new();
    crate::text::push_char(&mut dot, '.');
    p.push(dot);
    assert(path_view(p@) =~= seq![seq!['.']]);
    p
}

/// Paths listed in increasing order, each once.
pub open spec fn paths_strictly_sorted(s: Seq<Seq<Seq<char>>>) -> bool {
    forall|i: int, j: int| 0 <= i < j < s.len() ==> path_lt(#[trigger] s[i], #[trigger] s[j])
}

/// The component views of a list of paths.
pub open spec fn paths_view(v: Seq<Vec<String>>) -> Seq<Seq<Seq<char>>> {
    v.map_values(|p: Vec<String>| path_view(p@))
}

/// Adds path `x` to the sorted set `v`.
pub fn path_set_insert(v: &mut Vec<Vec<String>>, x: Vec<String>)
    requires
        paths_strictly_sorted(paths_view(old(v)@)),
    ensures
        paths_strictly_sorted(paths_view(final(v)@)),
        forall|s: Seq<Seq<char>>|
            paths_view(final(v)@).contains(s) <==> (paths_view(old(v)@).contains(s) || s == path_view(x@)),
{
    let ghost old_t = paths_view(v@);
    let ghost xv = path_view(x@);
    let n = v.len();
    let mut p: usize = 0;
    while p < n && path_less(&v[p], &x)
        invariant
            n == v@.len(),
            p <= n,
            v@ == old(v)@,
            old_t == paths_view(v@),
            xv == path_view(x@),
            forall|k: int| 0 <= k < p ==> path_lt(#[trigger] old_t[k], xv),
        decreases n - p,
    {
        assert(old_t[p as int] == path_view(v@[p as int]@));
        p = p + 1;
    }
    if p < n && path_eq(&v[p], &x) {
        proof {
            assert(old_t[p as int] == xv);
            assert forall|s: Seq<Seq<char>>| paths_view(v@).contains(s) <==> (old_t.contains(s) || s == xv) by {
                if s == xv {
                    assert(old_t.contains(s));
                }
            }
        }
        return;
    }
    proof {
        assert forall|k: int| p <= k < n implies path_lt(xv, #[trigger] old_t[k]) by {
            assert(old_t[p as int] == path_view(v@[p as int]@));
            if old_t[p as int] != xv {
                lemma_path_lt_total(old_t[p as int], xv);
            }
            if k > p {
                lemma_path_lt_transitive(xv, old_t[p as int], old_t[k]);
            }
        }
    }
    v.insert(p, x);
    proof {
        let t = paths_view(v@);
        assert(t =~= old_t.insert(p as int, xv));
        assert forall|i: int, j: int| 0 <= i < j < t.len() implies path_lt(#[trigger] t[i], #[trigger] t[j]) by {
            if j < p {
                assert(t[i] == old_t[i] && t[j] == old_t[j]);
            } else if j == p {
                assert(t[i] == old_t[i]);
            } else if i == p {
                assert(t[j] == old_t[j - 1]);
            } else if i < p {
                assert(t[i] == old_t[i] && t[j] == old_t[j - 1]);
                lemma_path_lt_transitive(old_t[i], xv, old_t[j - 1]);
            } else {
                assert(t[i] == old_t[i - 1] && t[j] == old_t[j - 1]);
            }
        }
        assert forall|s: Seq<Seq<char>>| t.contains(s) <==> (old_t.contains(s) || s == xv) by {
            if t.contains(s) {
                let k = choose|k: int| 0 <= k < t.len() && t[k] == s;
                if k < p {
                    assert(old_t[k] == s);
                } else if k > p {
                    assert(old_t[k - 1] == s);
                }
            }
            if old_t.contains(s) {
                let k = choose|k: int| 0 <= k < old_t.len() && old_t[k] == s;
                if k < p {
                    assert(t[k] == s);
                } else {
                    assert(t[k + 1] == s);
                }
            }
            if s == xv {
                assert(t[p as int] == s);
            }
        }
    }
}

/// The paths of `v` in increasing order, each once (`sort` then `dedup`).
pub fn sorted_unique_paths(v: Vec<Vec<String>>) -> (r: Vec<Vec<String>>)
    ensures
        paths_strictly_sorted(paths_view(r@)),
        forall|s: Seq<Seq<char>>| paths_view(r@).contains(s) <==> paths_view(v@).contains(s),
{
    let n = v.len();
    let mut r: Vec<Vec<String>> = Vec::new();
    assert(paths_view(r@) =~= Seq::<Seq<Seq<char>>>::empty());
    for i in 0..n
        invariant
            n == v@.len(),
            paths_strictly_sorted(paths_view(r@)),
            forall|s: Seq<Seq<char>>|
                paths_view(r@).contains(s) <==> paths_view(v@.take(i as int)).contains(s),
    {
        let x = copy_path(&v[i]);
        path_set_insert(&mut r, x);
        proof {
            let prev = paths_view(v@.take(i as int));
            let next = paths_view(v@.take(i + 1));
            assert(next =~= prev.push(path_view(v@[i as int]@)));
            assert forall|s: Seq<Seq<char>>| paths_view(r@).contains(s) <==> next.contains(s) by {
                if next.contains(s) {
                    let k = choose|k: int| 0 <= k < next.len() && next[k] == s;
                    if k < i {
                        assert(prev[k] == s);
                    }
                }
                if prev.contains(s) {
                    let k = choose|k: int| 0 <= k < prev.len() && prev[k] == s;
                    assert(next[k] == s);
                }
                if s == path_view(v@[i as int]@) {
                    assert(next[i as int] == s);
                }
            }
        }
    }
    assert(v@.take(n as int) =~= v@);
    r
}

} // verus!
