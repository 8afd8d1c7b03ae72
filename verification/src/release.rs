//! Per-crate release planning for a workspace: which commits touch which
//! crate, where each crate's history starts, and the plans that follow.

use vstd::prelude::*;

use crate::commit::{CommitInput, PlannedCommit};
use crate::path::{
    copy_path, lemma_path_lt_asymmetric, lemma_path_lt_irreflexive, lemma_path_lt_total,
    lemma_path_lt_transitive, path_has_prefix, path_is_cur_dir, path_less, path_lt,
    path_starts_with, path_view, is_cur_dir,
};
use crate::manifest::opt_text;
use crate::release_plan::ReleasePlan;
use crate::text::{contains_seq, contains_str, owned, replace_all, replace_str};
use crate::version::{version_text, Version};
use crate::versioning::{
    bump_fits, is_release_plan, plan_release, plan_release_checked, release_bump, BumpLevel,
};

verus! {

/// A package of the workspace, as read from its manifest.
#[derive(Debug)]
pub struct CrateInfo {
    pub name: String,
    /// The manifest's path relative to the repository root, by components.
    pub manifest_path: Vec<String>,
    /// The crate's directory relative to the repository root, by components
    /// (`.` for the root).
    pub crate_dir: Vec<String>,
    pub version: Version,
}

/// The release plan of one crate.
#[derive(Debug)]
pub struct CrateReleasePlan {
    pub crate_name: String,
    pub manifest_path: Vec<String>,
    pub plan: ReleasePlan,
}

/// A commit from history with the files it touches (relative paths, by components).
#[derive(Debug)]
pub struct HistoryCommit {
    pub hash: String,
    pub subject: String,
    pub body: String,
    pub files: Vec<Vec<String>>,
}

/// A failure reported by the commit history.
#[derive(Debug)]
pub struct HistoryError {
    pub message: String,
}

/// Why planning a release failed.
#[derive(Debug)]
pub enum ReleaseError {
    /// No package manifest was found.
    NoManifests,
    /// Several crates are released and the tag template does not name the crate.
    TemplateWithoutCrate,
    /// The commit history failed.
    History(HistoryError),
    /// The bump would take a version number of this crate past `u64::MAX`.
    VersionOverflow(String),
    /// A manifest or lock file is not valid TOML.
    TomlParse,
    /// A manifest's version is not a semantic version.
    InvalidVersion,
}

/// Where the history of a repository comes from. Implementations read git;
/// nothing is assumed of what they return.
pub trait CommitHistoryService {
    /// Whether the tag exists.
    fn tag_exists(&self, tag_name: &str) -> Result<bool, HistoryError>;

    /// The commit that set the manifest's version to `version`, if any.
    fn find_version_commit(&self, manifest_path: &Vec<String>, version: &str) -> Result<Option<String>, HistoryError>;

    /// The most recent tag, if any.
    fn latest_tag(&self) -> Result<Option<String>, HistoryError>;

    /// The commits since `base_ref` (all of history when `None`), with the
    /// files each touches.
    fn collect_commits(&self, base_ref: Option<&str>) -> Result<Vec<HistoryCommit>, HistoryError>;
}

// ---------------------------------------------------------------------------
// Specifications
// ---------------------------------------------------------------------------

/// The message of a planning error that has a fixed text.
pub open spec fn release_error_text(e: ReleaseError) -> Seq<char> {
    match e {
        ReleaseError::NoManifests => "no Cargo package manifests found"@,
        ReleaseError::TemplateWithoutCrate => "release.tag_template must include '{ crate }' when multiple crates are released"@,
        ReleaseError::History(h) => h.message@,
        ReleaseError::VersionOverflow(name) => "version overflow for "@ + name@,
        ReleaseError::TomlParse => "failed parsing TOML"@,
        ReleaseError::InvalidVersion => "invalid semver version"@,
    }
}

impl ReleaseError {
    /// The message of the error (what `Display` shows).
    pub fn to_string(&self) -> (s: String)
        ensures
            s@ == release_error_text(*self),
    {
        match self {
            ReleaseError::NoManifests => owned("no Cargo package manifests found"),
            ReleaseError::TemplateWithoutCrate => owned(
                "release.tag_template must include '{ crate }' when multiple crates are released",
            ),
            ReleaseError::History(h) => h.message.clone(),
            ReleaseError::VersionOverflow(name) => {
                let mut s = owned("version overflow for ");
                crate::text::push_str(&mut s, name.as_str());
                s
            },
            ReleaseError::TomlParse => owned("failed parsing TOML"),
            ReleaseError::InvalidVersion => owned("invalid semver version"),
        }
    }
}

/// The tag of a crate's release: `{{ crate }}` and then `{{ version }}`
/// replaced in the template. With several crates the template must name the
/// crate.
pub open spec fn tag_name(template: Seq<char>, crate_name: Seq<char>, version: Version, crate_count: nat) -> Option<Seq<char>> {
    if crate_count > 1 && !contains_seq(template, "{{ crate }}"@) {
        None
    } else {
        Some(replace_all(replace_all(template, "{{ crate }}"@, crate_name), "{{ version }}"@, version_text(version)))
    }
}

/// A crate in directory `dir` holds `file`: every file when it is the root crate.
pub open spec fn crate_holds(dir: Seq<Seq<char>>, file: Seq<Seq<char>>) -> bool {
    is_cur_dir(dir) || path_starts_with(file, dir)
}

/// How deep a crate directory lies: 0 for the root.
pub open spec fn crate_depth(dir: Seq<Seq<char>>) -> nat {
    if is_cur_dir(dir) {
        0
    } else {
        dir.len()
    }
}

/// Among the first `k` crates, the one a file belongs to: the deepest crate
/// directory holding it, the earliest of equally deep ones.
pub open spec fn owner_among(crates: Seq<CrateInfo>, file: Seq<Seq<char>>, k: int) -> Option<int>
    decreases k,
{
    if k <= 0 {
        None
    } else {
        let w = owner_among(crates, file, k - 1);
        let dir = path_view(crates[k - 1].crate_dir@);
        if !crate_holds(dir, file) {
            w
        } else {
            match w {
                Some(j) => if crate_depth(path_view(crates[j].crate_dir@)) >= crate_depth(dir) {
                    w
                } else {
                    Some(k - 1)
                },
                None => Some(k - 1),
            }
        }
    }
}

/// The crate a file belongs to, if any.
pub open spec fn file_owner(crates: Seq<CrateInfo>, file: Seq<Seq<char>>) -> Option<int> {
    owner_among(crates, file, crates.len() as int)
}

/// Crate `i` owns one of the files.
pub open spec fn owns_some(crates: Seq<CrateInfo>, files: Seq<Vec<String>>, i: int) -> bool {
    exists|f: int| 0 <= f < files.len() && file_owner(crates, path_view(#[trigger] files[f]@)) == Some(i)
}

/// `o` holds the text `t`.
pub open spec fn base_is(o: Option<String>, t: Seq<char>) -> bool {
    match o {
        Some(b) => b@ == t,
        None => false,
    }
}

/// The commit as an input to planning.
pub open spec fn commit_input(c: HistoryCommit) -> CommitInput {
    CommitInput { hash: c.hash, subject: c.subject, body: c.body }
}

/// The commits touching crate `i`, in order.
pub open spec fn crate_commits(crates: Seq<CrateInfo>, commits: Seq<HistoryCommit>, i: int) -> Seq<CommitInput>
    decreases commits.len(),
{
    if commits.len() == 0 {
        Seq::empty()
    } else {
        let rest = crate_commits(crates, commits.drop_last(), i);
        if owns_some(crates, commits.last().files@, i) {
            rest.push(commit_input(commits.last()))
        } else {
            rest
        }
    }
}

/// The positions of the crates among the first `k` that have commits of their own.
pub open spec fn planned_positions(
    crates: Seq<CrateInfo>,
    fetched: Seq<(Option<String>, Vec<HistoryCommit>)>,
    k: int,
) -> Seq<int>
    decreases k,
{
    if k <= 0 {
        Seq::empty()
    } else {
        let rest = planned_positions(crates, fetched, k - 1);
        if crate_commits(crates, fetched[k - 1].1@, k - 1).len() > 0 {
            rest.push(k - 1)
        } else {
            rest
        }
    }
}

/// Every planned crate's bump stays within `u64`.
pub open spec fn plans_fit(crates: Seq<CrateInfo>, fetched: Seq<(Option<String>, Vec<HistoryCommit>)>) -> bool {
    forall|i: int|
        0 <= i < crates.len() && #[trigger] crate_commits(crates, fetched[i].1@, i).len() > 0
            ==> bump_fits(release_bump(crate_commits(crates, fetched[i].1@, i)), crates[i].version)
}

/// `plans` are the plans of the crates with commits of their own, in crate
/// order: each the release of those commits on top of the crate's version,
/// since the crate's base reference.
pub open spec fn are_crate_plans(
    plans: Seq<CrateReleasePlan>,
    crates: Seq<CrateInfo>,
    fetched: Seq<(Option<String>, Vec<HistoryCommit>)>,
) -> bool {
    let pos = planned_positions(crates, fetched, crates.len() as int);
    &&& plans.len() == pos.len()
    &&& forall|k: int|
        0 <= k < plans.len() ==> {
            let i = pos[k];
            &&& 0 <= i < crates.len()
            &&& (#[trigger] plans[k]).crate_name == crates[i].name
            &&& plans[k].manifest_path@ == crates[i].manifest_path@
            &&& is_release_plan(plans[k].plan, crates[i].version, fetched[i].0, crate_commits(crates, fetched[i].1@, i))
        }
}

/// `x` inserted into `s` after every element whose manifest path does not
/// sort after it.
pub open spec fn insert_by_path(s: Seq<CrateInfo>, x: CrateInfo) -> Seq<CrateInfo>
    decreases s.len(),
{
    if s.len() == 0 {
        seq![x]
    } else if path_lt(path_view(x.manifest_path@), path_view(s[0].manifest_path@)) {
        seq![x] + s
    } else {
        seq![s[0]] + insert_by_path(s.drop_first(), x)
    }
}

/// The crates stably sorted by manifest path (`sort_by` on the path).
pub open spec fn sort_by_path(s: Seq<CrateInfo>) -> Seq<CrateInfo>
    decreases s.len(),
{
    if s.len() == 0 {
        s
    } else {
        insert_by_path(sort_by_path(s.drop_last()), s.last())
    }
}

/// No manifest path sorts before an earlier one.
pub open spec fn sorted_by_path(s: Seq<CrateInfo>) -> bool {
    forall|i: int, j: int|
        0 <= i < j < s.len() ==> !path_lt(
            path_view((#[trigger] s[j]).manifest_path@),
            path_view((#[trigger] s[i]).manifest_path@),
        )
}

// ---------------------------------------------------------------------------
// Lemmas
// ---------------------------------------------------------------------------

proof fn lemma_insert_by_path_at(s: Seq<CrateInfo>, x: CrateInfo, p: int)
    requires
        0 <= p <= s.len(),
        forall|k: int| 0 <= k < p ==> !path_lt(path_view(x.manifest_path@), path_view((#[trigger] s[k]).manifest_path@)),
        p == s.len() || path_lt(path_view(x.manifest_path@), path_view(s[p].manifest_path@)),
    ensures
        insert_by_path(s, x) == s.insert(p, x),
    decreases s.len(),
{
    if s.len() == 0 {
        assert(s.insert(p, x) =~= seq![x]);
    } else if p == 0 {
        assert(s.insert(0, x) =~= seq![x] + s);
    } else {
        let t = s.drop_first();
        assert forall|k: int| 0 <= k < p - 1 implies !path_lt(path_view(x.manifest_path@), path_view((#[trigger] t[k]).manifest_path@)) by {
            assert(t[k] == s[k + 1]);
        }
        if p < s.len() {
            assert(t[p - 1] == s[p]);
        }
        lemma_insert_by_path_at(t, x, p - 1);
        assert(seq![s[0]] + t.insert(p - 1, x) =~= s.insert(p, x));
    }
}

/// Inserting into a sorted sequence keeps it sorted.
proof fn lemma_insert_by_path_sorted(s: Seq<CrateInfo>, x: CrateInfo)
    requires
        sorted_by_path(s),
    ensures
        sorted_by_path(insert_by_path(s, x)),
        insert_by_path(s, x).to_multiset() == s.to_multiset().insert(x),
    decreases s.len(),
{
    broadcast use vstd::seq_lib::group_to_multiset_ensures;

    let xp = path_view(x.manifest_path@);
    let r = insert_by_path(s, x);
    if s.len() == 0 {
        assert(r =~= seq![x]);
        assert(seq![x] =~= Seq::<CrateInfo>::empty().push(x));
    } else if path_lt(xp, path_view(s[0].manifest_path@)) {
        assert(r =~= s.insert(0, x));
        assert forall|i: int, j: int| 0 <= i < j < r.len() implies !path_lt(
            path_view((#[trigger] r[j]).manifest_path@),
            path_view((#[trigger] r[i]).manifest_path@),
        ) by {
            if i == 0 {
                let sj = path_view(s[j - 1].manifest_path@);
                let s0 = path_view(s[0].manifest_path@);
                assert(r[j] == s[j - 1]);
                if j - 1 > 0 {
                    assert(!path_lt(sj, s0));
                    if path_lt(sj, xp) {
                        if sj == s0 {
                            lemma_path_lt_asymmetric(xp, s0);
                        } else {
                            lemma_path_lt_total(sj, s0);
                            lemma_path_lt_transitive(sj, xp, s0);
                        }
                    }
                } else {
                    lemma_path_lt_asymmetric(xp, s0);
                }
            } else {
                assert(r[i] == s[i - 1] && r[j] == s[j - 1]);
            }
        }
    } else {
        let t = s.drop_first();
        assert forall|i: int, j: int| 0 <= i < j < t.len() implies !path_lt(
            path_view((#[trigger] t[j]).manifest_path@),
            path_view((#[trigger] t[i]).manifest_path@),
        ) by {
            assert(t[i] == s[i + 1] && t[j] == s[j + 1]);
        }
        lemma_insert_by_path_sorted(t, x);
        let rt = insert_by_path(t, x);
        assert(r =~= seq![s[0]] + rt);
        let s0 = path_view(s[0].manifest_path@);
        assert forall|i: int, j: int| 0 <= i < j < r.len() implies !path_lt(
            path_view((#[trigger] r[j]).manifest_path@),
            path_view((#[trigger] r[i]).manifest_path@),
        ) by {
            if i == 0 {
                assert(r[j] == rt[j - 1]);
                assert(rt.to_multiset().count(rt[j - 1]) > 0);
                assert(rt.contains(rt[j - 1]));
                // rt[j - 1] is x or an element of t.
                if rt[j - 1] == x {
                } else {
                    assert(t.to_multiset().insert(x).count(rt[j - 1]) > 0);
                    assert(t.to_multiset().count(rt[j - 1]) > 0);
                    assert(t.contains(rt[j - 1]));
                    let q = choose|q: int| 0 <= q < t.len() && t[q] == rt[j - 1];
                    assert(s[q + 1] == t[q]);
                }
            } else {
                assert(r[i] == rt[i - 1] && r[j] == rt[j - 1]);
            }
        }
        assert(s =~= seq![s[0]] + t);
        assert((seq![s[0]] + t).to_multiset() =~= t.to_multiset().insert(s[0])) by {
            vstd::seq_lib::lemma_seq_union_to_multiset_commutative(seq![s[0]], t);
            assert(t + seq![s[0]] =~= t.push(s[0]));
        }
        assert((seq![s[0]] + rt).to_multiset() =~= rt.to_multiset().insert(s[0])) by {
            vstd::seq_lib::lemma_seq_union_to_multiset_commutative(seq![s[0]], rt);
            assert(rt + seq![s[0]] =~= rt.push(s[0]));
        }
    }
}

/// The stable sort is sorted and holds the same crates.
pub proof fn lemma_sort_by_path(s: Seq<CrateInfo>)
    ensures
        sorted_by_path(sort_by_path(s)),
        sort_by_path(s).to_multiset() == s.to_multiset(),
    decreases s.len(),
{
    broadcast use vstd::seq_lib::group_to_multiset_ensures;

    if s.len() > 0 {
        lemma_sort_by_path(s.drop_last());
        lemma_insert_by_path_sorted(sort_by_path(s.drop_last()), s.last());
        assert(s.drop_last().push(s.last()) =~= s);
    } else {
        assert(sort_by_path(s) == s);
    }
}

// ---------------------------------------------------------------------------
// Implementation
// ---------------------------------------------------------------------------

/// The crates stably sorted by manifest path.
pub fn sort_crates(crates: Vec<CrateInfo>) -> (r: Vec<CrateInfo>)
    ensures
        r@ == sort_by_path(crates@),
{
    let ghost orig = crates@;
    let mut rest = crates;
    let n = rest.len();
    let mut r: Vec<CrateInfo> = Vec::new();
    let mut i: usize = 0;
    assert(orig.skip(0) =~= orig);
    while i < n
        invariant
            n == orig.len(),
            i <= n,
            rest@ == orig.skip(i as int),
            r@ == sort_by_path(orig.take(i as int)),
        decreases n - i,
    {
        let x = rest.remove(0);
        assert(x == orig[i as int]);
        let m = r.len();
        let mut p: usize = 0;
        while p < m && !path_less(&x.manifest_path, &r[p].manifest_path)
            invariant
                m == r@.len(),
                p <= m,
                forall|k: int| 0 <= k < p ==> !path_lt(path_view(x.manifest_path@), path_view((#[trigger] r@[k]).manifest_path@)),
            decreases m - p,
        {
            p = p + 1;
        }
        proof {
            lemma_insert_by_path_at(r@, x, p as int);
            assert(orig.take(i + 1).drop_last() =~= orig.take(i as int));
            assert(orig.take(i + 1).last() == x);
            assert(rest@ =~= orig.skip(i + 1));
        }
        r.insert(p, x);
        i = i + 1;
    }
    assert(orig.take(n as int) =~= orig);
    r
}

/// The tag of a crate's release, rendered from the template.
pub fn render_tag_name(tag_template: &str, crate_name: &str, version: &Version, crate_count: usize) -> (r: Result<String, ReleaseError>)
    ensures
        match tag_name(tag_template@, crate_name@, *version, crate_count as nat) {
            Some(t) => r matches Ok(s) && s@ == t,
            None => r matches Err(ReleaseError::TemplateWithoutCrate),
        },
{
    if crate_count > 1 && !contains_str(tag_template, "{{ crate }}") {
        return Err(ReleaseError::TemplateWithoutCrate);
    }
    proof {
        reveal_strlit("{{ crate }}");
        reveal_strlit("{{ version }}");
    }
    let with_crate = replace_str(tag_template, "{{ crate }}", crate_name);
    let v = version.to_string();
    Ok(replace_str(with_crate.as_str(), "{{ version }}", v.as_str()))
}

/// The search for manifests does not enter `.git` or `target` directories.
pub fn skips_directory(name: &str) -> (r: bool)
    ensures
        r == (name@ == ".git"@ || name@ == "target"@),
{
    let c = crate::text::chars_of(name);
    crate::text::chars_eq_str(c.as_slice(), ".git") || crate::text::chars_eq_str(c.as_slice(), "target")
}

/// A file named `Cargo.toml` is a package manifest.
pub fn is_manifest_file(name: &str) -> (r: bool)
    ensures
        r == (name@ == "Cargo.toml"@),
{
    let c = crate::text::chars_of(name);
    crate::text::chars_eq_str(c.as_slice(), "Cargo.toml")
}

/// Whether the crate in `crate_dir` holds `file`.
pub fn crate_contains_file(crate_dir: &Vec<String>, file: &Vec<String>) -> (r: bool)
    ensures
        r == crate_holds(path_view(crate_dir@), path_view(file@)),
{
    if path_is_cur_dir(crate_dir) {
        return true;
    }
    path_has_prefix(file, crate_dir)
}

/// How deep a crate directory lies.
fn crate_rank(crate_dir: &Vec<String>) -> (r: usize)
    ensures
        r == crate_depth(path_view(crate_dir@)),
{
    if path_is_cur_dir(crate_dir) {
        0
    } else {
        crate_dir.len()
    }
}

/// The crate a file belongs to.
fn owner_of(crates: &Vec<CrateInfo>, file: &Vec<String>) -> (r: Option<usize>)
    ensures
        match file_owner(crates@, path_view(file@)) {
            Some(i) => r == Some(i as usize),
            None => r is None,
        },
{
    let n = crates.len();
    let mut winner: Option<(usize, usize)> = None;
    for k in 0..n
        invariant
            n == crates@.len(),
            match owner_among(crates@, path_view(file@), k as int) {
                Some(j) => winner matches Some(w) && w.0 == j && j < k && w.1 == crate_depth(path_view(crates@[j].crate_dir@)),
                None => winner is None,
            },
    {
        if crate_contains_file(&crates[k].crate_dir, file) {
            let rank = crate_rank(&crates[k].crate_dir);
            match winner {
                Some((_, current_rank)) if current_rank >= rank => {},
                _ => {
                    winner = Some((k, rank));
                },
            }
        }
    }
    match winner {
        Some((i, _)) => Some(i),
        None => None,
    }
}

/// The crates the files belong to, by position, in increasing order.
pub fn affected_crates(crates: &Vec<CrateInfo>, files: &Vec<Vec<String>>) -> (r: Vec<usize>)
    ensures
        forall|a: int, b: int| 0 <= a < b < r@.len() ==> r@[a] < r@[b],
        forall|i: int| 0 <= i < r@.len() ==> #[trigger] r@[i] < crates@.len(),
        forall|i: int| 0 <= i < crates@.len() ==> (r@.contains(i as usize) <==> owns_some(crates@, files@, i)),
{
    let n = crates.len();
    let mut hit: Vec<bool> = Vec::new();
    for i in 0..n
        invariant
            hit@.len() == i,
            forall|k: int| 0 <= k < i ==> !hit@[k],
    {
        hit.push(false);
    }
    let fl = files.len();
    for f in 0..fl
        invariant
            n == crates@.len(),
            fl == files@.len(),
            hit@.len() == n,
            forall|i: int| 0 <= i < n ==> (#[trigger] hit@[i] <==> exists|g: int|
                0 <= g < f && file_owner(crates@, path_view(#[trigger] files@[g]@)) == Some(i)),
    {
        let owner = owner_of(crates, &files[f]);
        proof {
            lemma_owner_in_range(crates@, path_view(files@[f as int]@), n as int);
        }
        match owner {
            Some(i) => {
                hit.set(i, true);
            },
            None => {},
        }
        proof {
            assert forall|i: int| 0 <= i < n implies (#[trigger] hit@[i] <==> exists|g: int|
                0 <= g < f + 1 && file_owner(crates@, path_view(#[trigger] files@[g]@)) == Some(i)) by {
                if exists|g: int| 0 <= g < f + 1 && file_owner(crates@, path_view(#[trigger] files@[g]@)) == Some(i) {
                    let g = choose|g: int| 0 <= g < f + 1 && file_owner(crates@, path_view(#[trigger] files@[g]@)) == Some(i);
                    if g == f {
                        assert(owner == Some(i as usize));
                    }
                }
            }
        }
    }
    let mut r: Vec<usize> = Vec::new();
    for i in 0..n
        invariant
            n == crates@.len(),
            hit@.len() == n,
            forall|a: int, b: int| 0 <= a < b < r@.len() ==> r@[a] < r@[b],
            forall|a: int| 0 <= a < r@.len() ==> #[trigger] r@[a] < i,
            forall|k: int| 0 <= k < i ==> (r@.contains(k as usize) <==> hit@[k]),
    {
        let ghost before = r@;
        if hit[i] {
            r.push(i);
        }
        proof {
            assert forall|k: int| 0 <= k < i + 1 implies (r@.contains(k as usize) <==> hit@[k]) by {
                if r@.contains(k as usize) {
                    let q = choose|q: int| 0 <= q < r@.len() && r@[q] == k as usize;
                    if q < before.len() {
                        assert(before[q] == k as usize);
                    }
                }
                if k < i && hit@[k] {
                    let q = choose|q: int| 0 <= q < before.len() && before[q] == k as usize;
                    assert(r@[q] == k as usize);
                }
                if k == i && hit@[k] {
                    assert(r@[r@.len() - 1] == k as usize);
                }
            }
        }
    }
    proof {
        assert forall|i: int| 0 <= i < crates@.len() implies (r@.contains(i as usize) <==> owns_some(crates@, files@, i)) by {
            assert(hit@[i] <==> owns_some(crates@, files@, i));
        }
    }
    r
}


/// Whether `v` holds `x`.
fn holds_index(v: &Vec<usize>, x: usize) -> (r: bool)
    ensures
        r == v@.contains(x),
{
    let n = v.len();
    let mut i: usize = 0;
    while i < n
        invariant
            n == v@.len(),
            i <= n,
            forall|k: int| 0 <= k < i ==> v@[k] != x,
        decreases n - i,
    {
        if v[i] == x {
            return true;
        }
        i = i + 1;
    }
    false
}

/// The commits touching crate `index`, as planning inputs.
pub fn commits_for_crate(crates: &Vec<CrateInfo>, commits: &Vec<HistoryCommit>, index: usize) -> (r: Vec<CommitInput>)
    requires
        index < crates@.len(),
    ensures
        r@ == crate_commits(crates@, commits@, index as int),
{
    let n = commits.len();
    let mut r: Vec<CommitInput> = Vec::new();
    for k in 0..n
        invariant
            n == commits@.len(),
            index < crates@.len(),
            r@ == crate_commits(crates@, commits@.take(k as int), index as int),
    {
        let c = &commits[k];
        let affected = affected_crates(crates, &c.files);
        proof {
            assert(commits@.take(k + 1).drop_last() =~= commits@.take(k as int));
            assert(commits@.take(k + 1).last() == commits@[k as int]);
        }
        if holds_index(&affected, index) {
            r.push(CommitInput { hash: c.hash.clone(), subject: c.subject.clone(), body: c.body.clone() });
        }
    }
    assert(commits@.take(n as int) =~= commits@);
    r
}

/// A copy of an optional string.
fn copy_opt(s: &Option<String>) -> (r: Option<String>)
    ensures
        r == *s,
{
    match s {
        Some(t) => Some(t.clone()),
        None => None,
    }
}

/// `Err` with the name of the first planned crate whose bump would overflow
/// its version, `Ok` when every bump fits.
pub fn crate_plans_fit(crates: &Vec<CrateInfo>, fetched: &Vec<(Option<String>, Vec<HistoryCommit>)>) -> (r: Result<(), String>)
    requires
        fetched@.len() == crates@.len(),
    ensures
        r is Ok <==> plans_fit(crates@, fetched@),
        r matches Err(name) ==> exists|i: int|
            0 <= i < crates@.len() && #[trigger] crate_commits(crates@, fetched@[i].1@, i).len() > 0
                && !bump_fits(release_bump(crate_commits(crates@, fetched@[i].1@, i)), crates@[i].version)
                && name@ == crates@[i].name@ && forall|j: int|
                0 <= j < i && #[trigger] crate_commits(crates@, fetched@[j].1@, j).len() > 0 ==> bump_fits(
                    release_bump(crate_commits(crates@, fetched@[j].1@, j)),
                    crates@[j].version,
                ),
{
    let n = crates.len();
    for i in 0..n
        invariant
            n == crates@.len(),
            fetched@.len() == n,
            forall|j: int|
                0 <= j < i && #[trigger] crate_commits(crates@, fetched@[j].1@, j).len() > 0
                    ==> bump_fits(release_bump(crate_commits(crates@, fetched@[j].1@, j)), crates@[j].version),
    {
        let commits = commits_for_crate(crates, &fetched[i].1, i);
        let ghost cs = commits@;
        if commits.len() > 0 {
            match plan_release_checked(crates[i].version.clone(), None, commits) {
                Err(_) => {
                    return Err(crates[i].name.clone());
                },
                Ok(_) => {},
            }
        }
    }
    Ok(())
}

/// The plans of the crates that have commits of their own, in crate order.
pub fn plan_crates(crates: &Vec<CrateInfo>, fetched: &Vec<(Option<String>, Vec<HistoryCommit>)>) -> (r: Vec<CrateReleasePlan>)
    requires
        fetched@.len() == crates@.len(),
        plans_fit(crates@, fetched@),
    ensures
        are_crate_plans(r@, crates@, fetched@),
{
    let n = crates.len();
    let mut plans: Vec<CrateReleasePlan> = Vec::new();
    for i in 0..n
        invariant
            n == crates@.len(),
            fetched@.len() == n,
            plans_fit(crates@, fetched@),
            plans@.len() == planned_positions(crates@, fetched@, i as int).len(),
            forall|k: int|
                0 <= k < plans@.len() ==> {
                    let j = planned_positions(crates@, fetched@, i as int)[k];
                    &&& 0 <= j < n
                    &&& (#[trigger] plans@[k]).crate_name == crates@[j].name
                    &&& plans@[k].manifest_path@ == crates@[j].manifest_path@
                    &&& is_release_plan(plans@[k].plan, crates@[j].version, fetched@[j].0, crate_commits(crates@, fetched@[j].1@, j))
                },
    {
        let ghost prev_pos = planned_positions(crates@, fetched@, i as int);
        let commits = commits_for_crate(crates, &fetched[i].1, i);
        let ghost cs = commits@;
        if commits.len() > 0 {
            assert(bump_fits(release_bump(crate_commits(crates@, fetched@[i as int].1@, i as int)), crates@[i as int].version));
            let base = copy_opt(&fetched[i].0);
            match plan_release(crates[i].version.clone(), base, commits) {
                Some(plan) => {
                    plans.push(
                        CrateReleasePlan {
                            crate_name: crates[i].name.clone(),
                            manifest_path: copy_path(&crates[i].manifest_path),
                            plan,
                        },
                    );
                },
                None => {},
            }
            proof {
                let pos = planned_positions(crates@, fetched@, i + 1);
                assert(pos == prev_pos.push(i as int));
                assert forall|k: int|
                    0 <= k < plans@.len() implies {
                        let j = pos[k];
                        &&& 0 <= j < n
                        &&& (#[trigger] plans@[k]).crate_name == crates@[j].name
                        &&& plans@[k].manifest_path@ == crates@[j].manifest_path@
                        &&& is_release_plan(plans@[k].plan, crates@[j].version, fetched@[j].0, crate_commits(crates@, fetched@[j].1@, j))
                    } by {
                    if k < prev_pos.len() {
                        assert(pos[k] == prev_pos[k]);
                    }
                }
            }
        } else {
            proof {
                assert(planned_positions(crates@, fetched@, i + 1) == prev_pos);
            }
        }
    }
    plans
}

/// The base reference decided by the history lookups, in their order: the
/// crate's release tag when it exists, else the commit that set the crate's
/// version when there is one, else the latest tag. Answers after the
/// deciding one are not read.
pub open spec fn base_of_lookups(
    expected_tag: Seq<char>,
    tag_exists: bool,
    version_commit: Option<Seq<char>>,
    latest_tag: Option<Seq<char>>,
) -> Option<Seq<char>> {
    if tag_exists {
        Some(expected_tag)
    } else if version_commit is Some {
        version_commit
    } else {
        latest_tag
    }
}

/// The base reference given the answers of the history lookups (see
/// `base_of_lookups`).
pub fn base_from_lookups(
    expected_tag: String,
    tag_exists: bool,
    version_commit: Option<String>,
    latest_tag: Option<String>,
) -> (r: Option<String>)
    ensures
        opt_text(r) == base_of_lookups(expected_tag@, tag_exists, opt_text(version_commit), opt_text(latest_tag)),
        r == if tag_exists {
            Some(expected_tag)
        } else if version_commit is Some {
            version_commit
        } else {
            latest_tag
        },
{
    if tag_exists {
        Some(expected_tag)
    } else if version_commit.is_some() {
        version_commit
    } else {
        latest_tag
    }
}

/// The text of an optional string slice.
pub open spec fn opt_str_text(a: Option<&str>) -> Option<Seq<char>> {
    match a {
        Some(s) => Some(s@),
        None => None,
    }
}

/// `history` answered `exists` when asked whether tag `tag` exists.
pub open spec fn tag_answer<H: CommitHistoryService>(history: &H, tag: Seq<char>, exists: bool) -> bool {
    exists|a: &str| a@ == tag && #[trigger] call_ensures(H::tag_exists, (history, a), Ok::<bool, HistoryError>(exists))
}

/// `history` answered `commit` when asked which commit set the crate's
/// manifest to the crate's version.
pub open spec fn version_answer<H: CommitHistoryService>(history: &H, c: CrateInfo, commit: Option<String>) -> bool {
    exists|m: &Vec<String>, v: &str|
        m@ == c.manifest_path@ && v@ == version_text(c.version) && #[trigger] call_ensures(
            H::find_version_commit,
            (history, m, v),
            Ok::<Option<String>, HistoryError>(commit),
        )
}

/// `history` answered `tag` when asked for the latest tag.
pub open spec fn latest_answer<H: CommitHistoryService>(history: &H, tag: Option<String>) -> bool {
    call_ensures(H::latest_tag, (history,), Ok::<Option<String>, HistoryError>(tag))
}

/// `history` answered `commits` when asked for the commits since `base`.
pub open spec fn commits_answer<H: CommitHistoryService>(
    history: &H,
    base: Option<Seq<char>>,
    commits: Vec<HistoryCommit>,
) -> bool {
    exists|a: Option<&str>|
        opt_str_text(a) == base && #[trigger] call_ensures(
            H::collect_commits,
            (history, a),
            Ok::<Vec<HistoryCommit>, HistoryError>(commits),
        )
}

/// `base` is the base reference of crate `c` as the history's answers
/// decide it: the explicit tag when one is given; else the crate's release
/// tag when the history says it exists; else the commit the history names
/// as setting the crate's version; else the latest tag the history names.
pub open spec fn base_resolved<H: CommitHistoryService>(
    history: &H,
    from_tag: Option<Seq<char>>,
    template: Seq<char>,
    c: CrateInfo,
    crate_count: nat,
    base: Option<String>,
) -> bool {
    match from_tag {
        Some(t) => opt_text(base) == Some(t),
        None => match tag_name(template, c.name@, c.version, crate_count) {
            None => false,
            Some(tag) => {
                ||| tag_answer(history, tag, true) && opt_text(base) == Some(tag)
                ||| tag_answer(history, tag, false) && base is Some && version_answer(history, c, base)
                ||| tag_answer(history, tag, false) && version_answer(history, c, None) && latest_answer(
                    history,
                    base,
                )
            },
        },
    }
}

/// Each crate's history in `fetched` was read from `history`: its base
/// reference is the one the history's answers decide (`base_resolved`) and
/// its commits are what the history answered when asked for the commits
/// since that base.
pub open spec fn history_read<H: CommitHistoryService>(
    history: &H,
    from_tag: Option<Seq<char>>,
    template: Seq<char>,
    crates: Seq<CrateInfo>,
    fetched: Seq<(Option<String>, Vec<HistoryCommit>)>,
) -> bool {
    forall|j: int|
        0 <= j < fetched.len() ==> base_resolved(
            history,
            from_tag,
            template,
            crates[j],
            crates.len(),
            (#[trigger] fetched[j]).0,
        ) && commits_answer(history, opt_text(fetched[j].0), fetched[j].1)
}

/// Every plan made from histories read from `history` is the release of
/// the crate's own commits among those the history answered when asked for
/// the commits since the plan's own base reference.
pub proof fn lemma_plan_commits_from_its_base<H: CommitHistoryService>(
    history: &H,
    from_tag: Option<Seq<char>>,
    template: Seq<char>,
    plans: Seq<CrateReleasePlan>,
    crates: Seq<CrateInfo>,
    fetched: Seq<(Option<String>, Vec<HistoryCommit>)>,
    k: int,
)
    requires
        fetched.len() == crates.len(),
        history_read(history, from_tag, template, crates, fetched),
        are_crate_plans(plans, crates, fetched),
        0 <= k < plans.len(),
    ensures
        exists|i: int, cs: Vec<HistoryCommit>|
            #![trigger commits_answer(history, opt_text(plans[k].plan.base_tag), cs), crates[i]]
            0 <= i < crates.len() && plans[k].crate_name == crates[i].name && commits_answer(
                history,
                opt_text(plans[k].plan.base_tag),
                cs,
            ) && is_release_plan(plans[k].plan, crates[i].version, plans[k].plan.base_tag, crate_commits(crates, cs@, i)),
{
    let pos = planned_positions(crates, fetched, crates.len() as int);
    let i = pos[k];
    assert(plans[k].crate_name == crates[i].name);
    assert(fetched[i] == fetched[i]);
    assert(commits_answer(history, opt_text(fetched[i].0), fetched[i].1));
    assert(plans[k].plan.base_tag == fetched[i].0);
}

/// Where a crate's history starts: the explicit tag when one is given, else
/// what the history lookups decide (`base_from_lookups`): the crate's
/// release tag when it exists, else the commit that set the crate's current
/// version, else the latest tag. A lookup is made only when the earlier ones
/// did not decide; a failed lookup fails the whole.
pub fn resolve_base_reference<H: CommitHistoryService>(
    history: &H,
    from_tag: Option<&str>,
    tag_template: &str,
    crate_info: &CrateInfo,
    crate_count: usize,
) -> (r: Result<Option<String>, ReleaseError>)
    ensures
        from_tag matches Some(t) ==> r matches Ok(Some(b)) && b@ == t@,
        r matches Err(ReleaseError::TemplateWithoutCrate) <==> (from_tag is None && tag_name(
            tag_template@,
            crate_info.name@,
            crate_info.version,
            crate_count as nat,
        ) is None),
        r matches Err(e) ==> e is TemplateWithoutCrate || e is History,
        r matches Ok(base) ==> base_resolved(
            history,
            opt_str_text(from_tag),
            tag_template@,
            *crate_info,
            crate_count as nat,
            base,
        ),
{
    match from_tag {
        Some(explicit) => {
            return Ok(Some(owned(explicit)));
        },
        None => {},
    }
    let expected_tag = render_tag_name(tag_template, crate_info.name.as_str(), &crate_info.version, crate_count)?;
    let tag_ref: &str = expected_tag.as_str();
    let tag_result = history.tag_exists(tag_ref);
    let exists = match tag_result {
        Ok(b) => b,
        Err(e) => {
            return Err(ReleaseError::History(e));
        },
    };
    proof {
        assert(tag_answer(history, expected_tag@, exists)) by {
            assert(call_ensures(H::tag_exists, (history, tag_ref), Ok::<bool, HistoryError>(exists)));
        }
    }
    if exists {
        return Ok(base_from_lookups(expected_tag, true, None, None));
    }
    let version = crate_info.version.to_string();
    let version_ref: &str = version.as_str();
    let manifest_ref: &Vec<String> = &crate_info.manifest_path;
    let version_result = history.find_version_commit(manifest_ref, version_ref);
    let version_commit = match version_result {
        Ok(c) => c,
        Err(e) => {
            return Err(ReleaseError::History(e));
        },
    };
    proof {
        assert(version_answer(history, *crate_info, version_commit)) by {
            assert(call_ensures(
                H::find_version_commit,
                (history, manifest_ref, version_ref),
                Ok::<Option<String>, HistoryError>(version_commit),
            ));
        }
    }
    if version_commit.is_some() {
        return Ok(base_from_lookups(expected_tag, false, version_commit, None));
    }
    let latest = match history.latest_tag() {
        Ok(t) => t,
        Err(e) => {
            return Err(ReleaseError::History(e));
        },
    };
    Ok(base_from_lookups(expected_tag, false, None, latest))
}

/// The positions of planned crates increase and stay below `k`.
proof fn lemma_planned_positions(crates: Seq<CrateInfo>, fetched: Seq<(Option<String>, Vec<HistoryCommit>)>, k: int)
    ensures
        forall|a: int| 0 <= a < planned_positions(crates, fetched, k).len() ==> 0 <= #[trigger] planned_positions(crates, fetched, k)[a] < k,
        forall|a: int, b: int|
            0 <= a < b < planned_positions(crates, fetched, k).len() ==> planned_positions(crates, fetched, k)[a]
                < planned_positions(crates, fetched, k)[b],
    decreases k,
{
    if k > 0 {
        lemma_planned_positions(crates, fetched, k - 1);
        let rest = planned_positions(crates, fetched, k - 1);
        let pos = planned_positions(crates, fetched, k);
        if crate_commits(crates, fetched[k - 1].1@, k - 1).len() > 0 {
            assert(pos == rest.push(k - 1));
            assert forall|a: int| 0 <= a < pos.len() implies 0 <= #[trigger] pos[a] < k by {
                if a < rest.len() {
                    assert(pos[a] == rest[a]);
                }
            }
            assert forall|a: int, b: int| 0 <= a < b < pos.len() implies pos[a] < pos[b] by {
                assert(pos[a] == rest[a]);
                if b < rest.len() {
                    assert(pos[b] == rest[b]);
                }
            }
        } else {
            assert(pos == rest);
        }
    }
}

/// No two crates share a manifest path.
pub open spec fn distinct_paths(s: Seq<CrateInfo>) -> bool {
    forall|i: int, j: int|
        0 <= i < j < s.len() ==> path_view((#[trigger] s[i]).manifest_path@) != path_view(
            (#[trigger] s[j]).manifest_path@,
        )
}

/// Plans of crates sorted by distinct manifest paths are strictly sorted by
/// manifest path.
pub proof fn lemma_crate_plans_strictly_sorted(
    plans: Seq<CrateReleasePlan>,
    crates: Seq<CrateInfo>,
    fetched: Seq<(Option<String>, Vec<HistoryCommit>)>,
)
    requires
        sorted_by_path(crates),
        distinct_paths(crates),
        are_crate_plans(plans, crates, fetched),
    ensures
        forall|a: int, b: int|
            0 <= a < b < plans.len() ==> path_lt(
                path_view((#[trigger] plans[a]).manifest_path@),
                path_view((#[trigger] plans[b]).manifest_path@),
            ),
{
    let pos = planned_positions(crates, fetched, crates.len() as int);
    lemma_planned_positions(crates, fetched, crates.len() as int);
    assert forall|a: int, b: int| 0 <= a < b < plans.len() implies path_lt(
        path_view((#[trigger] plans[a]).manifest_path@),
        path_view((#[trigger] plans[b]).manifest_path@),
    ) by {
        let pa = path_view(crates[pos[a]].manifest_path@);
        let pb = path_view(crates[pos[b]].manifest_path@);
        assert(pos[a] < pos[b]);
        assert(plans[a].manifest_path@ == crates[pos[a]].manifest_path@);
        assert(plans[b].manifest_path@ == crates[pos[b]].manifest_path@);
        assert(!path_lt(pb, pa));
        assert(pa != pb);
        lemma_path_lt_total(pa, pb);
    }
}

/// Plans of crates sorted by manifest path are sorted by manifest path.
pub proof fn lemma_crate_plans_sorted(plans: Seq<CrateReleasePlan>, crates: Seq<CrateInfo>, fetched: Seq<(Option<String>, Vec<HistoryCommit>)>)
    requires
        sorted_by_path(crates),
        are_crate_plans(plans, crates, fetched),
    ensures
        forall|a: int, b: int|
            0 <= a < b < plans.len() ==> !path_lt(
                path_view((#[trigger] plans[b]).manifest_path@),
                path_view((#[trigger] plans[a]).manifest_path@),
            ),
{
    let pos = planned_positions(crates, fetched, crates.len() as int);
    lemma_planned_positions(crates, fetched, crates.len() as int);
    assert forall|a: int, b: int| 0 <= a < b < plans.len() implies !path_lt(
        path_view((#[trigger] plans[b]).manifest_path@),
        path_view((#[trigger] plans[a]).manifest_path@),
    ) by {
        assert(pos[a] < pos[b]);
        assert(plans[a].manifest_path@ == crates[pos[a]].manifest_path@);
        assert(plans[b].manifest_path@ == crates[pos[b]].manifest_path@);
        assert(!path_lt(path_view(crates[pos[b]].manifest_path@), path_view(crates[pos[a]].manifest_path@)));
    }
}

/// The release plans of a workspace's crates: the crates sorted by manifest
/// path, each crate's history read from its base reference, and a plan for
/// every crate that has commits of its own, in manifest-path order.
/// Nothing is known of what the history returns, so the contract states the
/// errors and that the plans are those of some histories; `planner` gives
/// the same planning one question at a time, with the result fixed for
/// every answer.
pub fn build_crate_release_plans_with_history<H: CommitHistoryService>(
    history: &H,
    crates: Vec<CrateInfo>,
    from_tag: Option<&str>,
    tag_template: &str,
) -> (r: Result<Vec<CrateReleasePlan>, ReleaseError>)
    ensures
        r matches Err(ReleaseError::NoManifests) <==> crates@.len() == 0,
        r matches Err(ReleaseError::TemplateWithoutCrate) <==> (from_tag is None && crates@.len() > 1
            && !contains_seq(tag_template@, "{{ crate }}"@)),
        r matches Ok(plans) ==> exists|f: Seq<(Option<String>, Vec<HistoryCommit>)>|
            #![trigger are_crate_plans(plans@, sort_by_path(crates@), f)]
            f.len() == crates@.len() && (from_tag matches Some(t) ==> forall|i: int|
                0 <= i < f.len() ==> base_is((#[trigger] f[i]).0, t@)) && history_read(
                history,
                opt_str_text(from_tag),
                tag_template@,
                sort_by_path(crates@),
                f,
            ) && are_crate_plans(plans@, sort_by_path(crates@), f),
        r matches Err(ReleaseError::VersionOverflow(name)) ==> exists|f: Seq<(Option<String>, Vec<HistoryCommit>)>, i: int|
            #![trigger crate_commits(sort_by_path(crates@), f[i].1@, i)]
            f.len() == crates@.len() && (from_tag matches Some(t) ==> forall|j: int|
                0 <= j < f.len() ==> base_is((#[trigger] f[j]).0, t@)) && history_read(
                history,
                opt_str_text(from_tag),
                tag_template@,
                sort_by_path(crates@),
                f,
            ) && 0 <= i < crates@.len()
                && crate_commits(sort_by_path(crates@), f[i].1@, i).len() > 0 && !bump_fits(
                release_bump(crate_commits(sort_by_path(crates@), f[i].1@, i)),
                sort_by_path(crates@)[i].version,
            ) && name@ == sort_by_path(crates@)[i].name@ && forall|j: int|
                0 <= j < i && #[trigger] crate_commits(sort_by_path(crates@), f[j].1@, j).len() > 0
                    ==> bump_fits(
                    release_bump(crate_commits(sort_by_path(crates@), f[j].1@, j)),
                    sort_by_path(crates@)[j].version,
                ),
        r matches Err(e) ==> e is NoManifests || e is TemplateWithoutCrate || e is History || e is VersionOverflow,
        r matches Ok(plans) ==> forall|a: int, b: int|
            0 <= a < b < plans@.len() ==> !path_lt(
                path_view((#[trigger] plans@[b]).manifest_path@),
                path_view((#[trigger] plans@[a]).manifest_path@),
            ),
        distinct_paths(sort_by_path(crates@)) ==> (r matches Ok(plans) ==> forall|a: int, b: int|
            0 <= a < b < plans@.len() ==> path_lt(
                path_view((#[trigger] plans@[a]).manifest_path@),
                path_view((#[trigger] plans@[b]).manifest_path@),
            )),
{
    let ghost unsorted = crates@;
    let sorted = sort_crates(crates);
    proof {
        lemma_sort_by_path(unsorted);
        assert(sorted@.len() == unsorted.len()) by {
            assert(sorted@.to_multiset().len() == unsorted.to_multiset().len());
            broadcast use vstd::seq_lib::group_to_multiset_ensures;
        }
    }
    if sorted.len() == 0 {
        return Err(ReleaseError::NoManifests);
    }
    let count = sorted.len();
    let mut fetched: Vec<(Option<String>, Vec<HistoryCommit>)> = Vec::new();
    for i in 0..count
        invariant
            count == sorted@.len(),
            count == unsorted.len(),
            unsorted == crates@,
            sorted@ == sort_by_path(unsorted),
            fetched@.len() == i,
            from_tag is None && count > 1 && !contains_seq(tag_template@, "{{ crate }}"@) ==> i == 0,
            from_tag matches Some(t) ==> forall|j: int|
                0 <= j < i ==> base_is((#[trigger] fetched@[j]).0, t@),
            history_read(history, opt_str_text(from_tag), tag_template@, sorted@, fetched@),
    {
        let base = match resolve_base_reference(history, from_tag, tag_template, &sorted[i], count) {
            Ok(b) => b,
            Err(e) => {
                return Err(e);
            },
        };
        let base_ref: Option<&str> = match &base {
            Some(b) => Some(b.as_str()),
            None => None,
        };
        let commits = history.collect_commits(base_ref);
        match commits {
            Ok(c) => {
                proof {
                    assert(call_ensures(H::collect_commits, (history, base_ref), Ok::<Vec<HistoryCommit>, HistoryError>(c)));
                    assert(commits_answer(history, opt_text(base), c));
                }
                let ghost before = fetched@;
                fetched.push((base, c));
                proof {
                    assert forall|j: int| 0 <= j < i + 1 implies base_resolved(
                        history,
                        opt_str_text(from_tag),
                        tag_template@,
                        sorted@[j],
                        sorted@.len(),
                        (#[trigger] fetched@[j]).0,
                    ) && commits_answer(history, opt_text(fetched@[j].0), fetched@[j].1) by {
                        if j < i {
                            assert(fetched@[j] == before[j]);
                        }
                    }
                }
            },
            Err(e) => {
                return Err(ReleaseError::History(e));
            },
        }
    }
    match crate_plans_fit(&sorted, &fetched) {
        Err(name) => {
            return Err(ReleaseError::VersionOverflow(name));
        },
        Ok(()) => {},
    }
    let plans = plan_crates(&sorted, &fetched);
    proof {
        lemma_crate_plans_sorted(plans@, sorted@, fetched@);
        if distinct_paths(sorted@) {
            lemma_crate_plans_strictly_sorted(plans@, sorted@, fetched@);
        }
    }
    Ok(plans)
}

proof fn lemma_owner_in_range(crates: Seq<CrateInfo>, file: Seq<Seq<char>>, k: int)
    requires
        k <= crates.len(),
    ensures
        owner_among(crates, file, k) matches Some(j) ==> 0 <= j < k,
    decreases k,
{
    if k > 0 {
        lemma_owner_in_range(crates, file, k - 1);
    }
}

} // verus!
