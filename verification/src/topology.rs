//! The dependency graph between the crates of a workspace, and the set of
//! crates a release has to cover.

use vstd::prelude::*;

use crate::sorted::{find_text, lemma_sorted_same_set_equal, lemma_sorted_unique, sorted_insert, strictly_sorted, texts};
use crate::text::{chars_of, seq_lt, string_from_chars};

verus! {

/// A crate of the workspace and the workspace crates it depends on.
#[derive(Debug, PartialEq, Eq)]
pub struct WorkspaceCrate {
    pub name: String,
    pub local_dependencies: Vec<String>,
}

/// The crates of a workspace, each with the workspace crates it depends on
/// (itself and crates outside the workspace left out) and the crates that
/// depend on it.
#[derive(Debug)]
pub struct WorkspaceGraph {
    /// Crate names in `String` order, each once.
    names: Vec<String>,
    /// `dependencies[i]`: the positions of the crates `names[i]` depends on, increasing.
    dependencies: Vec<Vec<usize>>,
    /// `reverse_dependencies[j]`: the positions of the crates depending on `names[j]`, increasing.
    reverse_dependencies: Vec<Vec<usize>>,
}

/// The crates a release covers: those changed directly and every crate that
/// depends on one of them, directly or transitively.
#[derive(Debug)]
pub struct ReleaseTopology {
    directly_affected: Vec<String>,
    release_crates: Vec<String>,
}

/// The names of a list of crates.
pub open spec fn crate_names(cs: Seq<WorkspaceCrate>) -> Seq<Seq<char>> {
    cs.map_values(|c: WorkspaceCrate| c.name@)
}

/// The position of the last crate named `n`, `-1` when there is none.
pub open spec fn last_named(cs: Seq<WorkspaceCrate>, n: Seq<char>) -> int
    decreases cs.len(),
{
    if cs.len() == 0 {
        -1
    } else if cs.last().name@ == n {
        cs.len() - 1
    } else {
        last_named(cs.drop_last(), n)
    }
}

/// The dependencies declared for `n`: those of the last crate of that name
/// (a later entry replaces an earlier one).
pub open spec fn declared_dependencies(cs: Seq<WorkspaceCrate>, n: Seq<char>) -> Seq<Seq<char>> {
    let k = last_named(cs, n);
    if k < 0 {
        Seq::empty()
    } else {
        texts(cs[k].local_dependencies@)
    }
}

/// The texts of a list of string slices.
pub open spec fn str_texts(v: Seq<&str>) -> Seq<Seq<char>> {
    v.map_values(|s: &str| s@)
}

/// The number of `true` entries.
pub open spec fn count_true(s: Seq<bool>) -> nat
    decreases s.len(),
{
    if s.len() == 0 {
        0
    } else {
        count_true(s.drop_last()) + if s.last() {
            1nat
        } else {
            0nat
        }
    }
}

proof fn lemma_count_true_bound(s: Seq<bool>)
    ensures
        count_true(s) <= s.len(),
    decreases s.len(),
{
    if s.len() > 0 {
        lemma_count_true_bound(s.drop_last());
    }
}

proof fn lemma_count_true_set(s: Seq<bool>, i: int)
    requires
        0 <= i < s.len(),
        !s[i],
    ensures
        count_true(s.update(i, true)) == count_true(s) + 1,
    decreases s.len(),
{
    let t = s.update(i, true);
    if i == s.len() - 1 {
        assert(t.drop_last() =~= s.drop_last());
    } else {
        lemma_count_true_set(s.drop_last(), i);
        assert(t.drop_last() =~= s.drop_last().update(i, true));
    }
}

/// No two crates share a name.
pub open spec fn distinct_names(cs: Seq<WorkspaceCrate>) -> bool {
    forall|i: int, j: int| 0 <= i < j < cs.len() ==> (#[trigger] cs[i]).name@ != (#[trigger] cs[j]).name@
}

/// When names are distinct, the dependencies declared for a crate are those
/// of its own entry, wherever it stands in the list: the order of the crates
/// does not matter.
pub proof fn lemma_declared_dependencies_of(cs: Seq<WorkspaceCrate>, k: int)
    requires
        distinct_names(cs),
        0 <= k < cs.len(),
    ensures
        declared_dependencies(cs, cs[k].name@) == texts(cs[k].local_dependencies@),
{
    let n = cs[k].name@;
    lemma_last_named(cs, n);
    assert(crate_names(cs)[k] == n);
    let j = last_named(cs, n);
    if j != k {
        if j < k {
            assert(cs[j].name@ != cs[k].name@);
        } else {
            assert(cs[k].name@ != cs[j].name@);
        }
    }
}

proof fn lemma_last_named(cs: Seq<WorkspaceCrate>, n: Seq<char>)
    ensures
        -1 <= last_named(cs, n) < cs.len(),
        last_named(cs, n) >= 0 ==> cs[last_named(cs, n)].name@ == n,
        last_named(cs, n) < 0 <==> !crate_names(cs).contains(n),
    decreases cs.len(),
{
    if cs.len() > 0 {
        lemma_last_named(cs.drop_last(), n);
        if cs.last().name@ == n {
            assert(crate_names(cs)[cs.len() - 1] == n);
        } else {
            assert(crate_names(cs).drop_last() =~= crate_names(cs.drop_last()));
            if crate_names(cs).contains(n) {
                let k = choose|k: int| 0 <= k < cs.len() && crate_names(cs)[k] == n;
                assert(k < cs.len() - 1);
                assert(crate_names(cs.drop_last())[k] == n);
            }
            if crate_names(cs.drop_last()).contains(n) {
                let k = choose|k: int| 0 <= k < cs.len() - 1 && crate_names(cs.drop_last())[k] == n;
                assert(crate_names(cs)[k] == n);
            }
        }
    }
}

impl WorkspaceGraph {
    /// The crate names, in `String` order.
    pub closed spec fn node_names(&self) -> Seq<Seq<char>> {
        texts(self.names@)
    }

    /// The crate at position `i` depends on the crate at position `j`.
    pub closed spec fn edge(&self, i: int, j: int) -> bool {
        &&& 0 <= i < self.names@.len()
        &&& 0 <= j < self.names@.len()
        &&& self.dependencies@[i]@.contains(j as usize)
    }

    #[verifier::type_invariant]
    spec fn well_formed(&self) -> bool {
        let n = self.names@.len();
        &&& strictly_sorted(texts(self.names@))
        &&& self.dependencies@.len() == n
        &&& self.reverse_dependencies@.len() == n
        &&& forall|i: int, q: int|
            0 <= i < n && 0 <= q < self.dependencies@[i]@.len() ==> #[trigger] self.dependencies@[i]@[q]
                < n
        &&& forall|j: int, q: int|
            0 <= j < n && 0 <= q < self.reverse_dependencies@[j]@.len() ==> #[trigger] self.reverse_dependencies@[j]@[q]
                < n
        &&& forall|i: usize, j: usize|
            #![trigger self.reverse_dependencies@[j as int]@.contains(i)]
            #![trigger self.dependencies@[i as int]@.contains(j)]
            i < n && j < n ==> (self.reverse_dependencies@[j as int]@.contains(i)
                <==> self.dependencies@[i as int]@.contains(j))
    }

    /// `n` is a crate of the workspace.
    pub open spec fn has_crate(&self, n: Seq<char>) -> bool {
        self.node_names().contains(n)
    }

    /// Crate `a` depends directly on crate `b`.
    pub open spec fn depends_on(&self, a: Seq<char>, b: Seq<char>) -> bool {
        exists|i: int, j: int|
            #![trigger self.node_names()[i], self.node_names()[j]]
            0 <= i < self.node_names().len() && 0 <= j < self.node_names().len()
                && self.node_names()[i] == a && self.node_names()[j] == b && self.edge(i, j)
    }

    /// The crate at position `i` reaches the one at position `j` in at most
    /// `k` dependency steps.
    pub open spec fn reaches(&self, i: int, j: int, k: nat) -> bool
        decreases k,
    {
        if k == 0 {
            i == j && 0 <= i < self.node_names().len()
        } else {
            self.reaches(i, j, (k - 1) as nat) || exists|x: int|
                #![trigger self.edge(i, x)]
                self.edge(i, x) && self.reaches(x, j, (k - 1) as nat)
        }
    }

    /// Crate `a` is `b` or depends on it through a chain of dependencies.
    pub open spec fn depends_transitively(&self, a: Seq<char>, b: Seq<char>) -> bool {
        exists|i: int, j: int, k: nat|
            #![trigger self.node_names()[i], self.node_names()[j], self.reaches(i, j, k)]
            0 <= i < self.node_names().len() && 0 <= j < self.node_names().len()
                && self.node_names()[i] == a && self.node_names()[j] == b && self.reaches(i, j, k)
    }

    /// The graph of these crates: their names are its crates, and a crate
    /// depends on another crate of the workspace, other than itself, that
    /// its (last) entry declares.
    pub open spec fn is_graph_of(&self, crates: Seq<WorkspaceCrate>) -> bool {
        &&& forall|n: Seq<char>| self.has_crate(n) <==> crate_names(crates).contains(n)
        &&& forall|a: Seq<char>, b: Seq<char>|
            self.depends_on(a, b) <==> (self.has_crate(a) && self.has_crate(b) && a != b
                && declared_dependencies(crates, a).contains(b))
    }

    /// Two lists of crates with the same names, whose entries declare the
    /// same dependencies among the other crates of the workspace, give
    /// graphs with the same crates and direct dependencies: self
    /// dependencies and dependencies outside the workspace do not count.
    pub proof fn lemma_same_workspace_same_graph(
        g1: WorkspaceGraph,
        cs1: Seq<WorkspaceCrate>,
        g2: WorkspaceGraph,
        cs2: Seq<WorkspaceCrate>,
    )
        requires
            g1.is_graph_of(cs1),
            g2.is_graph_of(cs2),
            forall|n: Seq<char>| crate_names(cs1).contains(n) <==> crate_names(cs2).contains(n),
            forall|a: Seq<char>, b: Seq<char>|
                crate_names(cs1).contains(a) && crate_names(cs1).contains(b) && a != b ==> (declared_dependencies(
                    cs1,
                    a,
                ).contains(b) <==> declared_dependencies(cs2, a).contains(b)),
        ensures
            forall|n: Seq<char>| g1.has_crate(n) <==> g2.has_crate(n),
            forall|a: Seq<char>, b: Seq<char>| g1.depends_on(a, b) <==> g2.depends_on(a, b),
    {
    }

    /// `t` is the release of the crates named in `affected`: the named crates
    /// of the workspace, and every crate that depends on one of them,
    /// directly or transitively, each list in `String` order.
    pub open spec fn is_release_topology(&self, affected: Seq<Seq<char>>, t: ReleaseTopology) -> bool {
        &&& strictly_sorted(t.directly_view())
        &&& strictly_sorted(t.release_view())
        &&& forall|d: Seq<char>|
            t.directly_view().contains(d) <==> (self.has_crate(d) && affected.contains(d))
        &&& forall|c: Seq<char>|
            t.release_view().contains(c) <==> exists|d: Seq<char>|
                #[trigger] t.directly_view().contains(d) && self.depends_by_chain(c, d)
    }

    /// Crate `a` reaches crate `b` in at most `k` steps of direct
    /// dependency: `a` is `b` (a crate of the workspace), or `a` depends on
    /// a crate that reaches `b` in fewer steps.
    pub open spec fn depends_within(&self, a: Seq<char>, b: Seq<char>, k: nat) -> bool
        decreases k,
    {
        if k == 0 {
            a == b && self.has_crate(a)
        } else {
            self.depends_within(a, b, (k - 1) as nat) || exists|x: Seq<char>|
                #![trigger self.depends_on(a, x)]
                self.depends_on(a, x) && self.depends_within(x, b, (k - 1) as nat)
        }
    }

    /// Crate `a` is crate `b` or reaches it through a chain of direct
    /// dependencies `a = c0, c1, ..., ck = b`.
    pub open spec fn depends_by_chain(&self, a: Seq<char>, b: Seq<char>) -> bool {
        exists|k: nat| self.depends_within(a, b, k)
    }

    /// A crate that reaches another in steps is a crate of the workspace, and
    /// so is the one it reaches.
    proof fn lemma_within_crates(&self, a: Seq<char>, b: Seq<char>, k: nat)
        requires
            self.depends_within(a, b, k),
        ensures
            self.has_crate(a),
            self.has_crate(b),
        decreases k,
    {
        if k > 0 {
            if self.depends_within(a, b, (k - 1) as nat) {
                self.lemma_within_crates(a, b, (k - 1) as nat);
            } else {
                let x = choose|x: Seq<char>| #![trigger self.depends_on(a, x)]
                    self.depends_on(a, x) && self.depends_within(x, b, (k - 1) as nat);
                self.lemma_within_crates(x, b, (k - 1) as nat);
                let (i, j) = choose|i: int, j: int|
                    #![trigger self.node_names()[i], self.node_names()[j]]
                    0 <= i < self.node_names().len() && 0 <= j < self.node_names().len()
                        && self.node_names()[i] == a && self.node_names()[j] == x && self.edge(i, j);
                assert(self.node_names().contains(a));
            }
        }
    }

    /// Over distinct crate names, reaching by positions is reaching by names.
    proof fn lemma_reaches_within(&self, i: int, j: int, k: nat)
        requires
            strictly_sorted(self.node_names()),
            0 <= i < self.node_names().len(),
            0 <= j < self.node_names().len(),
        ensures
            self.reaches(i, j, k) <==> self.depends_within(self.node_names()[i], self.node_names()[j], k),
        decreases k,
    {
        let nt = self.node_names();
        if k == 0 {
            if nt[i] == nt[j] {
                lemma_sorted_unique(nt, i, j);
            }
            assert(nt.contains(nt[i]));
        } else {
            let k1 = (k - 1) as nat;
            self.lemma_reaches_within(i, j, k1);
            if self.reaches(i, j, k) && !self.reaches(i, j, k1) {
                let x = choose|x: int| #![trigger self.edge(i, x)] self.edge(i, x) && self.reaches(x, j, k1);
                self.lemma_reaches_within(x, j, k1);
                assert(self.depends_on(nt[i], nt[x]));
            }
            if self.depends_within(nt[i], nt[j], k) && !self.depends_within(nt[i], nt[j], k1) {
                let y = choose|y: Seq<char>| #![trigger self.depends_on(nt[i], y)]
                    self.depends_on(nt[i], y) && self.depends_within(y, nt[j], k1);
                let (p, q) = choose|p: int, q: int|
                    #![trigger self.node_names()[p], self.node_names()[q]]
                    0 <= p < nt.len() && 0 <= q < nt.len() && nt[p] == nt[i] && nt[q] == y
                        && self.edge(p, q);
                lemma_sorted_unique(nt, p, i);
                self.lemma_reaches_within(q, j, k1);
                assert(self.edge(i, q) && self.reaches(q, j, k1));
            }
        }
    }

    /// Over distinct crate names, depending transitively by positions is
    /// depending through a chain of names.
    proof fn lemma_transitive_is_chain(&self, c: Seq<char>, d: Seq<char>)
        requires
            strictly_sorted(self.node_names()),
        ensures
            self.depends_transitively(c, d) <==> self.depends_by_chain(c, d),
    {
        let nt = self.node_names();
        if self.depends_transitively(c, d) {
            let (i, j, k) = choose|i: int, j: int, k: nat|
                #![trigger self.node_names()[i], self.node_names()[j], self.reaches(i, j, k)]
                0 <= i < nt.len() && 0 <= j < nt.len() && nt[i] == c && nt[j] == d && self.reaches(i, j, k);
            self.lemma_reaches_within(i, j, k);
        }
        if self.depends_by_chain(c, d) {
            let k = choose|k: nat| self.depends_within(c, d, k);
            self.lemma_within_crates(c, d, k);
            let i = choose|i: int| 0 <= i < nt.len() && nt[i] == c;
            let j = choose|j: int| 0 <= j < nt.len() && nt[j] == d;
            self.lemma_reaches_within(i, j, k);
            assert(self.reaches(i, j, k));
        }
    }

    /// Graphs with the same crates and the same direct dependencies reach
    /// alike.
    proof fn lemma_within_same_graph(g1: WorkspaceGraph, g2: WorkspaceGraph, a: Seq<char>, b: Seq<char>, k: nat)
        requires
            forall|n: Seq<char>| g1.has_crate(n) <==> g2.has_crate(n),
            forall|x: Seq<char>, y: Seq<char>| g1.depends_on(x, y) <==> g2.depends_on(x, y),
        ensures
            g1.depends_within(a, b, k) <==> g2.depends_within(a, b, k),
        decreases k,
    {
        if k > 0 {
            let k1 = (k - 1) as nat;
            Self::lemma_within_same_graph(g1, g2, a, b, k1);
            if g1.depends_within(a, b, k) && !g1.depends_within(a, b, k1) {
                let x = choose|x: Seq<char>| #![trigger g1.depends_on(a, x)]
                    g1.depends_on(a, x) && g1.depends_within(x, b, k1);
                Self::lemma_within_same_graph(g1, g2, x, b, k1);
                assert(g2.depends_on(a, x));
            }
            if g2.depends_within(a, b, k) && !g2.depends_within(a, b, k1) {
                let x = choose|x: Seq<char>| #![trigger g2.depends_on(a, x)]
                    g2.depends_on(a, x) && g2.depends_within(x, b, k1);
                Self::lemma_within_same_graph(g1, g2, x, b, k1);
                assert(g1.depends_on(a, x));
            }
        }
    }

    /// A release depends only on the workspace's crates and their direct
    /// dependencies: two graphs that agree on those (such as the graphs of
    /// one workspace listed in another order, or with self and unknown
    /// dependencies left out) release the same crates for the same changes.
    pub proof fn lemma_release_same_graph(
        g1: WorkspaceGraph,
        g2: WorkspaceGraph,
        affected: Seq<Seq<char>>,
        t1: ReleaseTopology,
        t2: ReleaseTopology,
    )
        requires
            forall|n: Seq<char>| g1.has_crate(n) <==> g2.has_crate(n),
            forall|x: Seq<char>, y: Seq<char>| g1.depends_on(x, y) <==> g2.depends_on(x, y),
            g1.is_release_topology(affected, t1),
            g2.is_release_topology(affected, t2),
        ensures
            t1.directly_view() == t2.directly_view(),
            t1.release_view() == t2.release_view(),
    {
        assert forall|d: Seq<char>| t1.directly_view().contains(d) <==> t2.directly_view().contains(d) by {
            assert(g1.has_crate(d) <==> g2.has_crate(d));
        }
        lemma_sorted_same_set_equal(t1.directly_view(), t2.directly_view());
        assert forall|c: Seq<char>| t1.release_view().contains(c) <==> t2.release_view().contains(c) by {
            if t1.release_view().contains(c) {
                let d = choose|d: Seq<char>| #[trigger] t1.directly_view().contains(d) && g1.depends_by_chain(c, d);
                let k = choose|k: nat| g1.depends_within(c, d, k);
                Self::lemma_within_same_graph(g1, g2, c, d, k);
                assert(t2.directly_view().contains(d) && g2.depends_by_chain(c, d));
            }
            if t2.release_view().contains(c) {
                let d = choose|d: Seq<char>| #[trigger] t2.directly_view().contains(d) && g2.depends_by_chain(c, d);
                let k = choose|k: nat| g2.depends_within(c, d, k);
                Self::lemma_within_same_graph(g1, g2, c, d, k);
                assert(t1.directly_view().contains(d) && g1.depends_by_chain(c, d));
            }
        }
        lemma_sorted_same_set_equal(t1.release_view(), t2.release_view());
    }

    /// A release depends only on which crates changed: neither the order in
    /// which they are named nor repeated names change what it covers.
    pub proof fn lemma_release_ignores_order(
        &self,
        a: Seq<Seq<char>>,
        b: Seq<Seq<char>>,
        ta: ReleaseTopology,
        tb: ReleaseTopology,
    )
        requires
            forall|x: Seq<char>| a.contains(x) <==> b.contains(x),
            self.is_release_topology(a, ta),
            self.is_release_topology(b, tb),
        ensures
            ta.directly_view() == tb.directly_view(),
            ta.release_view() == tb.release_view(),
    {
        assert forall|d: Seq<char>| ta.directly_view().contains(d) <==> tb.directly_view().contains(d) by {
            assert(a.contains(d) <==> b.contains(d));
        }
        lemma_sorted_same_set_equal(ta.directly_view(), tb.directly_view());
        assert forall|c: Seq<char>| ta.release_view().contains(c) <==> tb.release_view().contains(c) by {
            if ta.release_view().contains(c) {
                let d = choose|d: Seq<char>| #[trigger] ta.directly_view().contains(d) && self.depends_by_chain(c, d);
                assert(tb.directly_view().contains(d));
            }
            if tb.release_view().contains(c) {
                let d = choose|d: Seq<char>| #[trigger] tb.directly_view().contains(d) && self.depends_by_chain(c, d);
                assert(ta.directly_view().contains(d));
            }
        }
        lemma_sorted_same_set_equal(ta.release_view(), tb.release_view());
    }

    /// The graph of a workspace: one node per crate name (a later crate of the
    /// same name replaces an earlier one), with an edge to each declared
    /// dependency that is another crate of the workspace.
    pub fn from_crates(crates: Vec<WorkspaceCrate>) -> (g: WorkspaceGraph)
        ensures
            g.is_graph_of(crates@),
    {
        let m = crates.len();
        let mut names: Vec<String> = Vec::new();
        for k in 0..m
            invariant
                m == crates@.len(),
                strictly_sorted(texts(names@)),
                forall|s: Seq<char>|
                    texts(names@).contains(s) <==> crate_names(crates@.take(k as int)).contains(s),
        {
            let ghost before = texts(names@);
            sorted_insert(&mut names, crates[k].name.clone());
            proof {
                let cn = crate_names(crates@.take(k + 1));
                let cp = crate_names(crates@.take(k as int));
                assert(cn =~= cp.push(crates@[k as int].name@));
                assert forall|s: Seq<char>| texts(names@).contains(s) <==> cn.contains(s) by {
                    assert(texts(names@).contains(s) <==> (before.contains(s) || s == crates@[k as int].name@));
                    assert(before.contains(s) <==> cp.contains(s));
                    if cn.contains(s) {
                        let q = choose|q: int| 0 <= q < cn.len() && cn[q] == s;
                        if q < k {
                            assert(cp[q] == s);
                        }
                    }
                    if cp.contains(s) {
                        let q = choose|q: int| 0 <= q < cp.len() && cp[q] == s;
                        assert(cn[q] == s);
                    }
                    if s == crates@[k as int].name@ {
                        assert(cn[k as int] == s);
                    }
                }
            }
        }
        assert(crates@.take(m as int) =~= crates@);
        let n = names.len();
        let ghost nt = texts(names@);

        // The dependencies of each name, by position.
        let mut dependencies: Vec<Vec<usize>> = Vec::new();
        for i in 0..n
            invariant
                n == names@.len(),
                m == crates@.len(),
                nt == texts(names@),
                strictly_sorted(nt),
                forall|s: Seq<char>| nt.contains(s) <==> crate_names(crates@).contains(s),
                dependencies@.len() == i,
                forall|a: int, q: int|
                    0 <= a < i && 0 <= q < dependencies@[a]@.len() ==> #[trigger] dependencies@[a]@[q] < n,
                forall|a: int, b: int|
                    0 <= a < i && 0 <= b < n ==> (#[trigger] dependencies@[a]@.contains(b as usize) <==> (a
                        != b && declared_dependencies(crates@, nt[a]).contains(nt[b]))),
        {
            // The last crate with this name.
            let mut w: usize = 0;
            let mut found = false;
            for k in 0..m
                invariant
                    m == crates@.len(),
                    n == names@.len(),
                    i < n,
                    found ==> w < m,
                    found <==> last_named(crates@.take(k as int), names@[i as int]@) >= 0,
                    found ==> w == last_named(crates@.take(k as int), names@[i as int]@),
            {
                assert(crates@.take(k + 1).drop_last() =~= crates@.take(k as int));
                if crates[k].name == names[i] {
                    w = k;
                    found = true;
                }
            }
            proof {
                assert(crates@.take(m as int) =~= crates@);
                lemma_last_named(crates@, nt[i as int]);
                assert(nt.contains(nt[i as int]));
                assert(names@[i as int]@ == nt[i as int]);
            }
            let decl = &crates[w].local_dependencies;
            let mut deps: Vec<usize> = Vec::new();
            for j in 0..n
                invariant
                    n == names@.len(),
                    nt == texts(names@),
                    i < n,
                    w < m,
                    m == crates@.len(),
                    decl == crates@[w as int].local_dependencies,
                    declared_dependencies(crates@, nt[i as int]) == texts(decl@),
                    forall|q: int| 0 <= q < deps@.len() ==> #[trigger] deps@[q] < j,
                    forall|b: int|
                        0 <= b < j ==> (#[trigger] deps@.contains(b as usize) <==> (i != b && texts(
                            decl@,
                        ).contains(nt[b]))),
            {
                let hit = find_text(decl, &names[j]);
                proof {
                    if texts(decl@).contains(nt[j as int]) {
                        let q = choose|q: int| 0 <= q < decl@.len() && texts(decl@)[q] == nt[j as int];
                        assert(decl@[q]@ == names@[j as int]@);
                    }
                    match hit {
                        Some(q) => {
                            assert(texts(decl@)[q as int] == nt[j as int]);
                        },
                        None => {},
                    }
                }
                let ghost before = deps@;
                if j != i && hit.is_some() {
                    deps.push(j);
                }
                proof {
                    assert forall|b: int| 0 <= b < j + 1 implies (#[trigger] deps@.contains(b as usize) <==> (
                    i != b && texts(decl@).contains(nt[b]))) by {
                        if b < j {
                            if deps@.contains(b as usize) {
                                let q = choose|q: int| 0 <= q < deps@.len() && deps@[q] == b as usize;
                                if q < before.len() {
                                    assert(before[q] == b as usize);
                                }
                            }
                            if before.contains(b as usize) {
                                let q = choose|q: int| 0 <= q < before.len() && before[q] == b as usize;
                                assert(deps@[q] == b as usize);
                            }
                        } else {
                            if deps@.contains(b as usize) {
                                let q = choose|q: int| 0 <= q < deps@.len() && deps@[q] == b as usize;
                                if q < before.len() {
                                    assert(before[q] < j);
                                }
                            }
                            if i != b && texts(decl@).contains(nt[b]) {
                                assert(deps@[deps@.len() - 1] == b as usize);
                            }
                        }
                    }
                }
            }
            dependencies.push(deps);
            proof {
                assert forall|a: int, b: int| 0 <= a < i + 1 && 0 <= b < n implies (
                #[trigger] dependencies@[a]@.contains(b as usize) <==> (a != b
                    && declared_dependencies(crates@, nt[a]).contains(nt[b]))) by {
                    if a < i {
                    }
                }
            }
        }

        // The dependents of each name, by position.
        let mut reverse_dependencies: Vec<Vec<usize>> = Vec::new();
        for j in 0..n
            invariant
                n == names@.len(),
                dependencies@.len() == n,
                reverse_dependencies@.len() == j,
                forall|a: int, q: int|
                    0 <= a < n && 0 <= q < dependencies@[a]@.len() ==> #[trigger] dependencies@[a]@[q] < n,
                forall|c: int, q: int|
                    0 <= c < j && 0 <= q < reverse_dependencies@[c]@.len() ==> #[trigger] reverse_dependencies@[c]@[q] < n,
                forall|a: usize, c: usize|
                    #![trigger reverse_dependencies@[c as int]@.contains(a)]
                    #![trigger dependencies@[a as int]@.contains(c)]
                    a < n && c < j ==> (reverse_dependencies@[c as int]@.contains(a)
                        <==> dependencies@[a as int]@.contains(c)),
        {
            let mut rev: Vec<usize> = Vec::new();
            for a in 0..n
                invariant
                    n == names@.len(),
                    j < n,
                    dependencies@.len() == n,
                    forall|q: int| 0 <= q < rev@.len() ==> #[trigger] rev@[q] < a,
                    forall|b: usize|
                        b < a ==> (#[trigger] rev@.contains(b) <==> dependencies@[b as int]@.contains(j)),
            {
                let ghost before = rev@;
                if contains_index(&dependencies[a], j) {
                    rev.push(a);
                }
                proof {
                    assert forall|b: usize| b < a + 1 implies (#[trigger] rev@.contains(b)
                        <==> dependencies@[b as int]@.contains(j)) by {
                        if rev@.contains(b) {
                            let q = choose|q: int| 0 <= q < rev@.len() && rev@[q] == b;
                            if q < before.len() {
                                assert(before[q] == b);
                            }
                        }
                        if b < a && before.contains(b) {
                            let q = choose|q: int| 0 <= q < before.len() && before[q] == b;
                            assert(rev@[q] == b);
                        }
                        if b == a && dependencies@[b as int]@.contains(j) {
                            assert(rev@[rev@.len() - 1] == b);
                        }
                    }
                }
            }
            reverse_dependencies.push(rev);
            proof {
                assert forall|a: usize, c: usize| a < n && c < j + 1 implies (
                #[trigger] reverse_dependencies@[c as int]@.contains(a)
                    <==> dependencies@[a as int]@.contains(c)) by {
                    if c < j {
                    } else {
                        assert(rev@.contains(a) <==> dependencies@[a as int]@.contains(j));
                    }
                }
            }
        }

        let g = WorkspaceGraph { names, dependencies, reverse_dependencies };
        proof {
            assert(g.node_names() == nt);
            assert forall|a: Seq<char>, b: Seq<char>|
                g.depends_on(a, b) <==> (g.has_crate(a) && g.has_crate(b) && a != b
                    && declared_dependencies(crates@, a).contains(b)) by {
                if g.depends_on(a, b) {
                    let (i, j) = choose|i: int, j: int|
                        #![trigger g.node_names()[i], g.node_names()[j]]
                        0 <= i < g.node_names().len() && 0 <= j < g.node_names().len()
                            && g.node_names()[i] == a && g.node_names()[j] == b && g.edge(i, j);
                    assert(dependencies@[i]@.contains(j as usize));
                    assert(i != j && declared_dependencies(crates@, nt[i]).contains(nt[j]));
                    if a == b {
                        lemma_sorted_unique(nt, i, j);
                    }
                    assert(nt.contains(a));
                    assert(nt.contains(b));
                }
                if g.has_crate(a) && g.has_crate(b) && a != b && declared_dependencies(crates@, a).contains(b) {
                    let i = choose|i: int| 0 <= i < nt.len() && nt[i] == a;
                    let j = choose|j: int| 0 <= j < nt.len() && nt[j] == b;
                    assert(i != j);
                    assert(dependencies@[i]@.contains(j as usize));
                    assert(g.edge(i, j));
                    assert(g.node_names()[i] == a && g.node_names()[j] == b);
                }
            }
        }
        g
    }

    /// The position of crate `name`, if it is a crate of the workspace.
    fn position(&self, name: &str) -> (r: Option<usize>)
        ensures
            match r {
                Some(i) => i < self.node_names().len() && self.node_names()[i as int] == name@,
                None => !self.has_crate(name@),
            },
    {
        let key = string_from_chars(chars_of(name).as_slice());
        let r = find_text(&self.names, &key);
        proof {
            if r is None && self.has_crate(name@) {
                let k = choose|k: int| 0 <= k < self.node_names().len() && self.node_names()[k] == name@;
                assert(self.names@[k]@ == key@);
            }
        }
        r
    }

    /// The crates a release covers when `directly_affected` changed: those of
    /// them that are crates of the workspace, and every crate that depends on
    /// one of those, directly or transitively.
    pub fn release_topology(&self, directly_affected: &[&str]) -> (t: ReleaseTopology)
        ensures
            self.is_release_topology(str_texts(directly_affected@), t),
    {
        proof {
            use_type_invariant(self);
        }
        let n = self.names.len();
        let ghost nt = self.node_names();

        // Mark the directly affected crates.
        let mut direct: Vec<bool> = Vec::new();
        for i in 0..n
            invariant
                direct@.len() == i,
                forall|k: int| 0 <= k < i ==> !direct@[k],
        {
            direct.push(false);
        }
        let dn = directly_affected.len();
        for q in 0..dn
            invariant
                n == self.names@.len(),
                nt == self.node_names(),
                strictly_sorted(nt),
                direct@.len() == n,
                dn == directly_affected@.len(),
                forall|k: int|
                    0 <= k < n ==> (#[trigger] direct@[k] <==> str_texts(directly_affected@.take(q as int)).contains(
                        nt[k],
                    )),
        {
            let pos = self.position(directly_affected[q]);
            let ghost before = direct@;
            match pos {
                Some(i) => {
                    direct.set(i, true);
                },
                None => {},
            }
            proof {
                let prev = str_texts(directly_affected@.take(q as int));
                let next = str_texts(directly_affected@.take(q + 1));
                assert(next =~= prev.push(directly_affected@[q as int]@));
                assert forall|k: int| 0 <= k < n implies (#[trigger] direct@[k] <==> next.contains(nt[k])) by {
                    assert(before[k] <==> prev.contains(nt[k]));
                    match pos {
                        Some(i) => {
                            if k == i as int {
                                assert(next[q as int] == nt[k]);
                            } else {
                                assert(direct@[k] == before[k]);
                            }
                        },
                        None => {
                            assert(direct@[k] == before[k]);
                        },
                    }
                    if next.contains(nt[k]) {
                        let r = choose|r: int| 0 <= r < next.len() && next[r] == nt[k];
                        if r < q {
                            assert(prev[r] == nt[k]);
                        } else {
                            match pos {
                                Some(i) => {
                                    lemma_sorted_unique(nt, i as int, k);
                                },
                                None => {
                                    assert(nt.contains(nt[k]));
                                },
                            }
                        }
                    }
                    if prev.contains(nt[k]) {
                        let r = choose|r: int| 0 <= r < prev.len() && prev[r] == nt[k];
                        assert(next[r] == nt[k]);
                    }
                }
            }
        }
        assert(directly_affected@.take(dn as int) =~= directly_affected@);

        // Walk the dependents, breadth first.
        let mut in_set: Vec<bool> = Vec::new();
        let mut order: Vec<usize> = Vec::new();
        for i in 0..n
            invariant
                n == self.names@.len(),
                direct@.len() == n,
                in_set@.len() == i,
                forall|k: int| 0 <= k < i ==> #[trigger] in_set@[k] == direct@[k],
                forall|p: int| 0 <= p < order@.len() ==> #[trigger] order@[p] < i,
                forall|k: int| 0 <= k < i ==> (#[trigger] in_set@[k] <==> order@.contains(k as usize)),
                order@.len() == count_true(in_set@),
                forall|p: int, r: int| 0 <= p < r < order@.len() ==> order@[p] != order@[r],
        {
            let ghost before = order@;
            let ghost prev_in = in_set@;
            in_set.push(direct[i]);
            if direct[i] {
                order.push(i);
            }
            proof {
                assert(in_set@.drop_last() =~= prev_in);
                assert forall|k: int| 0 <= k < i + 1 implies (#[trigger] in_set@[k] <==> order@.contains(k as usize)) by {
                    if order@.contains(k as usize) {
                        let p = choose|p: int| 0 <= p < order@.len() && order@[p] == k as usize;
                        if p < before.len() {
                            assert(before[p] == k as usize);
                        }
                    }
                    if k < i && before.contains(k as usize) {
                        let p = choose|p: int| 0 <= p < before.len() && before[p] == k as usize;
                        assert(order@[p] == k as usize);
                    }
                    if k == i && direct@[k] {
                        assert(order@[order@.len() - 1] == k as usize);
                    }
                }
            }
        }
        proof {
            lemma_count_true_bound(in_set@);
            assert forall|p: int| 0 <= p < order@.len() implies self.reaches_marked(#[trigger] order@[p] as int, direct@) by {
                let k = order@[p] as int;
                assert(order@.contains(k as usize));
                assert(in_set@[k]);
                assert(self.reaches(k, k, 0));
            }
        }
        let mut head: usize = 0;
        while head < order.len()
            invariant
                n == self.names@.len(),
                nt == self.node_names(),
                self.well_formed(),
                direct@.len() == n,
                in_set@.len() == n,
                head <= order@.len(),
                order@.len() == count_true(in_set@),
                order@.len() <= n,
                forall|p: int| 0 <= p < order@.len() ==> #[trigger] order@[p] < n,
                forall|k: int| 0 <= k < n ==> (#[trigger] in_set@[k] <==> order@.contains(k as usize)),
                forall|p: int, r: int| 0 <= p < r < order@.len() ==> order@[p] != order@[r],
                forall|k: int| 0 <= k < n && #[trigger] direct@[k] ==> in_set@[k],
                // Everything found depends on a directly affected crate.
                forall|p: int| 0 <= p < order@.len() ==> self.reaches_marked(#[trigger] order@[p] as int, direct@),
                // Everything depending on a processed crate has been found.
                forall|p: int, y: int|
                    0 <= p < head && #[trigger] self.edge(y, order@[p] as int) ==> in_set@[y],
            decreases n - head,
        {
            let x = order[head];
            let ghost old_order = order@;
            assert(self.reaches_marked(old_order[head as int] as int, direct@));
            let dependents = &self.reverse_dependencies[x];
            let dl = dependents.len();
            for t in 0..dl
                invariant
                    n == self.names@.len(),
                    self.well_formed(),
                    x < n,
                    dependents == self.reverse_dependencies@[x as int],
                    dl == dependents@.len(),
                    direct@.len() == n,
                    in_set@.len() == n,
                    head < old_order.len(),
                    old_order[head as int] == x,
                    order@.len() >= old_order.len(),
                    forall|p: int| 0 <= p < old_order.len() ==> order@[p] == old_order[p],
                    order@.len() == count_true(in_set@),
                    order@.len() <= n,
                    forall|p: int| 0 <= p < order@.len() ==> #[trigger] order@[p] < n,
                    forall|k: int| 0 <= k < n ==> (#[trigger] in_set@[k] <==> order@.contains(k as usize)),
                    forall|p: int, r: int| 0 <= p < r < order@.len() ==> order@[p] != order@[r],
                    forall|k: int| 0 <= k < n && #[trigger] direct@[k] ==> in_set@[k],
                    self.reaches_marked(x as int, direct@),
                    forall|p: int| 0 <= p < order@.len() ==> self.reaches_marked(#[trigger] order@[p] as int, direct@),
                    forall|p: int, y: int|
                        0 <= p < head && #[trigger] self.edge(y, old_order[p] as int) ==> in_set@[y],
                    forall|q: int| 0 <= q < t ==> in_set@[#[trigger] dependents@[q] as int],
            {
                let y = dependents[t];
                proof {
                    assert(self.reverse_dependencies@[x as int]@[t as int] == y);
                    assert(y < n);
                    assert(self.reverse_dependencies@[x as int]@.contains(y));
                    assert(self.dependencies@[y as int]@.contains(x));
                    assert(self.edge(y as int, x as int));
                    let (d, s) = choose|d: int, s: nat|
                        0 <= d < direct@.len() && direct@[d] && #[trigger] self.reaches(x as int, d, s);
                    assert(self.reaches(y as int, d, s + 1));
                    assert(self.reaches_marked(y as int, direct@));
                }
                if !in_set[y] {
                    let ghost prev_set = in_set@;
                    let ghost prev_order = order@;
                    proof {
                        lemma_count_true_set(in_set@, y as int);
                        lemma_count_true_bound(in_set@.update(y as int, true));
                    }
                    in_set.set(y, true);
                    order.push(y);
                    proof {
                        assert forall|k: int| 0 <= k < n implies (#[trigger] in_set@[k] <==> order@.contains(k as usize)) by {
                            if order@.contains(k as usize) {
                                let p = choose|p: int| 0 <= p < order@.len() && order@[p] == k as usize;
                                if p < prev_order.len() {
                                    assert(prev_order[p] == k as usize);
                                }
                            }
                            if k != y && prev_order.contains(k as usize) {
                                let p = choose|p: int| 0 <= p < prev_order.len() && prev_order[p] == k as usize;
                                assert(order@[p] == k as usize);
                            }
                            if k == y {
                                assert(order@[order@.len() - 1] == k as usize);
                            }
                        }
                        assert forall|p: int, r: int| 0 <= p < r < order@.len() implies order@[p] != order@[r] by {
                            if r == order@.len() - 1 {
                                assert(!prev_set[y as int]);
                                if order@[p] == order@[r] {
                                    assert(prev_order[p] == y);
                                    assert(prev_order.contains(y));
                                }
                            }
                        }
                        assert forall|p: int| 0 <= p < order@.len() implies self.reaches_marked(#[trigger] order@[p] as int, direct@) by {
                            if p < prev_order.len() {
                                assert(order@[p] == prev_order[p]);
                            } else {
                                assert(order@[p] == y);
                            }
                        }
                    }
                }
            }
            proof {
                assert forall|p: int, y: int|
                    0 <= p < head + 1 && #[trigger] self.edge(y, order@[p] as int) implies in_set@[y] by {
                    assert(order@[p] == old_order[p]);
                    if p == head {
                        assert(self.dependencies@[y]@.contains(x));
                        assert(self.reverse_dependencies@[x as int]@.contains(y as usize));
                        let q = choose|q: int| 0 <= q < dl && dependents@[q] == y as usize;
                        assert(in_set@[dependents@[q] as int]);
                    } else {
                        assert(self.edge(y, old_order[p] as int));
                    }
                }
            }
            head = head + 1;
        }

        // Everything depending on a directly affected crate has been found.
        proof {
            assert forall|c: int, d: int, s: nat|
                0 <= c < n && 0 <= d < n && direct@[d] && #[trigger] self.reaches(c, d, s) implies in_set@[c] by {
                self.lemma_closed_set_contains_reach(in_set@, order@, direct@, c, d, s);
            }
        }

        // List both sets in name order.
        let direct_names = self.collect_marked(&direct);
        let release_names = self.collect_marked(&in_set);
        let t = ReleaseTopology { directly_affected: direct_names, release_crates: release_names };
        proof {
            assert forall|d: Seq<char>|
                t.directly_view().contains(d) <==> (self.has_crate(d) && str_texts(directly_affected@).contains(d)) by {
                if t.directly_view().contains(d) {
                    let k = choose|k: int| 0 <= k < n && #[trigger] nt[k] == d && direct@[k];
                    assert(nt.contains(d));
                }
                if self.has_crate(d) && str_texts(directly_affected@).contains(d) {
                    let k = choose|k: int| 0 <= k < n && nt[k] == d;
                    assert(direct@[k]);
                    assert(self.node_names()[k] == d);
                }
            }
            assert forall|c: Seq<char>|
                t.release_view().contains(c) <==> exists|d: Seq<char>|
                    #[trigger] t.directly_view().contains(d) && self.depends_transitively(c, d) by {
                if t.release_view().contains(c) {
                    let k = choose|k: int| 0 <= k < n && #[trigger] nt[k] == c && in_set@[k];
                    assert(order@.contains(k as usize));
                    let p = choose|p: int| 0 <= p < order@.len() && order@[p] == k as usize;
                    assert(self.reaches_marked(order@[p] as int, direct@));
                    let (d, s) = choose|d: int, s: nat|
                        0 <= d < direct@.len() && direct@[d] && #[trigger] self.reaches(order@[p] as int, d, s);
                    assert(self.node_names()[d] == nt[d] && direct@[d]);
                    assert(t.directly_view().contains(nt[d]));
                    assert(self.reaches(k, d, s));
                    assert(self.node_names()[k] == c);
                    assert(self.depends_transitively(c, nt[d]));
                }
                if exists|d: Seq<char>| #[trigger] t.directly_view().contains(d) && self.depends_transitively(c, d) {
                    let d = choose|d: Seq<char>| #[trigger] t.directly_view().contains(d) && self.depends_transitively(c, d);
                    let (i, j, s) = choose|i: int, j: int, s: nat|
                        #![trigger self.node_names()[i], self.node_names()[j], self.reaches(i, j, s)]
                        0 <= i < self.node_names().len() && 0 <= j < self.node_names().len()
                            && self.node_names()[i] == c && self.node_names()[j] == d && self.reaches(i, j, s);
                    let kd = choose|kd: int| 0 <= kd < n && #[trigger] nt[kd] == d && direct@[kd];
                    lemma_sorted_unique(nt, kd, j);
                    assert(in_set@[i]);
                    assert(self.node_names()[i] == c && in_set@[i]);
                }
            }
            assert forall|c: Seq<char>, d: Seq<char>| self.depends_transitively(c, d) <==> self.depends_by_chain(c, d) by {
                self.lemma_transitive_is_chain(c, d);
            }
            assert forall|c: Seq<char>|
                t.release_view().contains(c) <==> exists|d: Seq<char>|
                    #[trigger] t.directly_view().contains(d) && self.depends_by_chain(c, d) by {
                if t.release_view().contains(c) {
                    let d = choose|d: Seq<char>| #[trigger] t.directly_view().contains(d) && self.depends_transitively(c, d);
                    assert(self.depends_by_chain(c, d));
                }
                if exists|d: Seq<char>| #[trigger] t.directly_view().contains(d) && self.depends_by_chain(c, d) {
                    let d = choose|d: Seq<char>| #[trigger] t.directly_view().contains(d) && self.depends_by_chain(c, d);
                    assert(self.depends_transitively(c, d));
                }
            }
        }
        t
    }

    /// The names at the marked positions, in name order.
    fn collect_marked(&self, marks: &Vec<bool>) -> (out: Vec<String>)
        requires
            marks@.len() == self.node_names().len(),
        ensures
            strictly_sorted(texts(out@)),
            forall|s: Seq<char>|
                texts(out@).contains(s) <==> exists|k: int|
                    0 <= k < marks@.len() && #[trigger] self.node_names()[k] == s && marks@[k],
    {
        proof {
            use_type_invariant(self);
        }
        let n = self.names.len();
        let mut out: Vec<String> = Vec::new();
        assert(texts(out@) =~= Seq::<Seq<char>>::empty());
        for i in 0..n
            invariant
                n == self.names@.len(),
                strictly_sorted(self.node_names()),
                marks@.len() == n,
                strictly_sorted(texts(out@)),
                forall|s: Seq<char>|
                    texts(out@).contains(s) <==> exists|k: int|
                        0 <= k < i && #[trigger] self.node_names()[k] == s && marks@[k],
                forall|q: int, k: int|
                    0 <= q < out@.len() && i <= k < n ==> seq_lt(#[trigger] texts(out@)[q], #[trigger] self.node_names()[k]),
        {
            let ghost prev = texts(out@);
            let ghost nt = self.node_names();
            if marks[i] {
                out.push(self.names[i].clone());
            }
            proof {
                let next = texts(out@);
                if marks@[i as int] {
                    assert(next =~= prev.push(nt[i as int]));
                } else {
                    assert(next =~= prev);
                }
                assert forall|a: int, b: int| 0 <= a < b < next.len() implies seq_lt(#[trigger] next[a], #[trigger] next[b]) by {
                    if b < prev.len() {
                        assert(next[a] == prev[a] && next[b] == prev[b]);
                    } else {
                        assert(next[a] == prev[a]);
                        assert(seq_lt(prev[a], nt[i as int]));
                    }
                }
                assert forall|q: int, k: int|
                    0 <= q < next.len() && i + 1 <= k < n implies seq_lt(#[trigger] next[q], #[trigger] nt[k]) by {
                    if q < prev.len() {
                        assert(next[q] == prev[q]);
                        assert(seq_lt(prev[q], nt[k]));
                    } else {
                        assert(next[q] == nt[i as int]);
                    }
                }
                assert forall|s: Seq<char>|
                    next.contains(s) <==> exists|k: int| 0 <= k < i + 1 && #[trigger] nt[k] == s && marks@[k] by {
                    if next.contains(s) {
                        let q = choose|q: int| 0 <= q < next.len() && next[q] == s;
                        if q < prev.len() {
                            assert(prev[q] == s);
                            assert(prev.contains(s));
                        } else {
                            assert(nt[i as int] == s);
                        }
                    }
                    if exists|k: int| 0 <= k < i + 1 && #[trigger] nt[k] == s && marks@[k] {
                        let k = choose|k: int| 0 <= k < i + 1 && #[trigger] nt[k] == s && marks@[k];
                        if k < i {
                            assert(prev.contains(s));
                            let q = choose|q: int| 0 <= q < prev.len() && prev[q] == s;
                            assert(next[q] == s);
                        } else {
                            assert(next[prev.len() as int] == s);
                        }
                    }
                }
            }
        }
        out
    }

    /// The crate at position `x` reaches a marked position.
    spec fn reaches_marked(&self, x: int, marks: Seq<bool>) -> bool {
        exists|d: int, s: nat| 0 <= d < marks.len() && marks[d] && #[trigger] self.reaches(x, d, s)
    }

    /// A set of positions that holds the directly affected crates and is
    /// closed under "depends on a member" holds every crate reaching a
    /// directly affected one.
    proof fn lemma_closed_set_contains_reach(
        &self,
        in_set: Seq<bool>,
        order: Seq<usize>,
        direct: Seq<bool>,
        c: int,
        d: int,
        s: nat,
    )
        requires
            in_set.len() == self.node_names().len(),
            direct.len() == self.node_names().len(),
            forall|k: int| 0 <= k < in_set.len() ==> (#[trigger] in_set[k] <==> order.contains(k as usize)),
            forall|k: int| 0 <= k < in_set.len() && #[trigger] direct[k] ==> in_set[k],
            forall|p: int, y: int|
                0 <= p < order.len() && #[trigger] self.edge(y, order[p] as int) ==> in_set[y],
            0 <= d < in_set.len(),
            direct[d],
            self.reaches(c, d, s),
        ensures
            0 <= c < in_set.len() && in_set[c],
        decreases s,
    {
        if s == 0 {
        } else if self.reaches(c, d, (s - 1) as nat) {
            self.lemma_closed_set_contains_reach(in_set, order, direct, c, d, (s - 1) as nat);
        } else {
            let x = choose|x: int| #![trigger self.edge(c, x)] self.edge(c, x) && self.reaches(x, d, (s - 1) as nat);
            self.lemma_closed_set_contains_reach(in_set, order, direct, x, d, (s - 1) as nat);
            assert(order.contains(x as usize));
            let p = choose|p: int| 0 <= p < order.len() && order[p] == x as usize;
            assert(self.edge(c, order[p] as int));
        }
    }
}

/// Whether `x` occurs in `v`.
fn contains_index(v: &Vec<usize>, x: usize) -> (r: bool)
    ensures
        r == v@.contains(x),
{
    let n = v.len();
    let mut i: usize = 0;
    while i < n
        invariant
            n == v@.len(),
            i <= n,
            forall|k: int| 0 <= k < i ==> v@[k] != x,
        decreases n - i,
    {
        if v[i] == x {
            return true;
        }
        i = i + 1;
    }
    false
}

impl ReleaseTopology {
    /// The directly affected crates, in `String` order.
    pub closed spec fn directly_view(&self) -> Seq<Seq<char>> {
        texts(self.directly_affected@)
    }

    /// The crates the release covers, in `String` order.
    pub closed spec fn release_view(&self) -> Seq<Seq<char>> {
        texts(self.release_crates@)
    }

    /// The directly affected crates that belong to the workspace, in `String` order.
    pub fn directly_affected(&self) -> (r: &Vec<String>)
        ensures
            texts(r@) == self.directly_view(),
    {
        &self.directly_affected
    }

    /// The crates the release covers, in `String` order.
    pub fn release_crates(&self) -> (r: &Vec<String>)
        ensures
            texts(r@) == self.release_view(),
    {
        &self.release_crates
    }

    /// Whether the release covers `crate_name`.
    pub fn includes(&self, crate_name: &str) -> (r: bool)
        ensures
            r == self.release_view().contains(crate_name@),
    {
        let key = string_from_chars(chars_of(crate_name).as_slice());
        let r = find_text(&self.release_crates, &key);
        proof {
            if r is None && self.release_view().contains(crate_name@) {
                let k = choose|k: int| 0 <= k < self.release_view().len() && self.release_view()[k] == crate_name@;
                assert(self.release_crates@[k]@ == key@);
            }
            match r {
                Some(i) => {
                    assert(self.release_view()[i as int] == crate_name@);
                },
                None => {},
            }
        }
        r.is_some()
    }
}

} // verus!
