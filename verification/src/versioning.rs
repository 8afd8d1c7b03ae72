//! Version bumps and release planning from a list of commits.

use vstd::prelude::*;

use crate::commit::{commit_bump, commit_classification, planned_from, CommitInput, PlannedCommit};
use crate::release_plan::ReleasePlan;
use crate::version::Version;

verus! {

/// How far a release moves the version, from least to most.
#[derive(Debug, Clone, Copy, PartialEq, Eq, Structural, PartialOrd, Ord, Hash)]
pub enum BumpLevel {
    NoBump,
    Patch,
    Minor,
    Major,
}

/// The position of a bump in the order `None < Patch < Minor < Major`.
pub open spec fn bump_rank(b: BumpLevel) -> int {
    match b {
        BumpLevel::NoBump => 0,
        BumpLevel::Patch => 1,
        BumpLevel::Minor => 2,
        BumpLevel::Major => 3,
    }
}

/// The larger of two bumps.
pub open spec fn bump_max(a: BumpLevel, b: BumpLevel) -> BumpLevel {
    if bump_rank(a) >= bump_rank(b) {
        a
    } else {
        b
    }
}

/// The label a bump is shown with.
pub open spec fn bump_label(b: BumpLevel) -> Seq<char> {
    match b {
        BumpLevel::NoBump => "none"@,
        BumpLevel::Patch => "patch"@,
        BumpLevel::Minor => "minor"@,
        BumpLevel::Major => "major"@,
    }
}

/// Applying `b` to `v` stays within `u64`.
pub open spec fn bump_fits(b: BumpLevel, v: Version) -> bool {
    match b {
        BumpLevel::NoBump => true,
        BumpLevel::Patch => v.patch < u64::MAX,
        BumpLevel::Minor => v.minor < u64::MAX,
        BumpLevel::Major => v.major < u64::MAX,
    }
}

/// `v` bumped by `b`: a patch bump adds one to the patch number, a minor bump
/// adds one to the minor number and resets the patch number, a major bump
/// adds one to the major number and resets the others. Pre-release and build
/// metadata are kept.
pub open spec fn bumped(b: BumpLevel, v: Version) -> Version {
    match b {
        BumpLevel::NoBump => v,
        BumpLevel::Patch => Version { patch: (v.patch + 1) as u64, ..v },
        BumpLevel::Minor => Version { minor: (v.minor + 1) as u64, patch: 0, ..v },
        BumpLevel::Major => Version { major: (v.major + 1) as u64, minor: 0, patch: 0, ..v },
    }
}

/// The largest bump any of the commits asks for (`None` for no commits).
pub open spec fn max_commit_bump(commits: Seq<CommitInput>) -> BumpLevel
    decreases commits.len(),
{
    if commits.len() == 0 {
        BumpLevel::NoBump
    } else {
        bump_max(max_commit_bump(commits.drop_last()), commit_bump(commits.last()))
    }
}

/// The bump a release of these commits makes: the largest one asked for, and
/// at least a patch bump.
pub open spec fn release_bump(commits: Seq<CommitInput>) -> BumpLevel {
    let b = max_commit_bump(commits);
    if b == BumpLevel::NoBump {
        BumpLevel::Patch
    } else {
        b
    }
}

/// `plan` is the release of `commits` on top of `current`, since `base_tag`.
pub open spec fn is_release_plan(
    plan: ReleasePlan,
    current: Version,
    base_tag: Option<String>,
    commits: Seq<CommitInput>,
) -> bool {
    &&& plan.base_tag == base_tag
    &&& plan.current_version == current
    &&& plan.bump_level == release_bump(commits)
    &&& plan.next_version == bumped(release_bump(commits), current)
    &&& plan.commits@.len() == commits.len()
    &&& forall|i: int|
        0 <= i < commits.len() ==> planned_from(
            commits[i],
            commit_classification(commits[i]),
            #[trigger] plan.commits@[i],
        )
}

impl BumpLevel {
    /// The label of the bump (what `Display` shows).
    pub fn as_str(&self) -> (s: &'static str)
        ensures
            s@ == bump_label(*self),
    {
        match self {
            BumpLevel::NoBump => "none",
            BumpLevel::Patch => "patch",
            BumpLevel::Minor => "minor",
            BumpLevel::Major => "major",
        }
    }

    /// The larger of two bumps (`Ord::max`).
    pub fn max(self, other: BumpLevel) -> (r: BumpLevel)
        ensures
            r == bump_max(self, other),
    {
        if self.rank() >= other.rank() {
            self
        } else {
            other
        }
    }

    /// The position of the bump in the order `None < Patch < Minor < Major`.
    pub fn rank(self) -> (r: u8)
        ensures
            r == bump_rank(self),
    {
        match self {
            BumpLevel::NoBump => 0,
            BumpLevel::Patch => 1,
            BumpLevel::Minor => 2,
            BumpLevel::Major => 3,
        }
    }

    /// The version that follows `current` under this bump.
    pub fn apply(self, current: &Version) -> (next: Version)
        requires
            bump_fits(self, *current),
        ensures
            next == bumped(self, *current),
    {
        let mut next = current.clone();
        match self {
            BumpLevel::NoBump => {},
            BumpLevel::Patch => next.patch = next.patch + 1,
            BumpLevel::Minor => {
                next.minor = next.minor + 1;
                next.patch = 0;
            },
            BumpLevel::Major => {
                next.major = next.major + 1;
                next.minor = 0;
                next.patch = 0;
            },
        }
        next
    }
}

/// A copy of a commit.
fn copy_commit(c: &CommitInput) -> (r: CommitInput)
    ensures
        r == *c,
{
    CommitInput { hash: c.hash.clone(), subject: c.subject.clone(), body: c.body.clone() }
}

/// The bump a release of these commits makes, with the classified commits.
fn classify_commits(commits: &Vec<CommitInput>) -> (r: (Vec<PlannedCommit>, BumpLevel))
    ensures
        r.1 == max_commit_bump(commits@),
        r.0@.len() == commits@.len(),
        forall|i: int|
            0 <= i < commits@.len() ==> planned_from(
                commits@[i],
                commit_classification(commits@[i]),
                #[trigger] r.0@[i],
            ),
{
    let mut bump = BumpLevel::NoBump;
    let mut planned: Vec<PlannedCommit> = Vec::new();
    let n = commits.len();
    for i in 0..n
        invariant
            n == commits@.len(),
            planned@.len() == i,
            bump == max_commit_bump(commits@.take(i as int)),
            forall|k: int|
                0 <= k < i ==> planned_from(
                    commits@[k],
                    commit_classification(commits@[k]),
                    #[trigger] planned@[k],
                ),
    {
        let (item, local_bump) = PlannedCommit::from_input(copy_commit(&commits[i]));
        assert(commits@.take(i + 1).drop_last() =~= commits@.take(i as int));
        bump = bump.max(local_bump);
        planned.push(item);
    }
    assert(commits@.take(n as int) =~= commits@);
    (planned, bump)
}

/// Plans the release of `commits` on top of `current_version`: `None` when
/// there are no commits, else the plan with the largest bump the commits ask
/// for (at least a patch bump) and the version it leads to.
pub fn plan_release(current_version: Version, base_tag: Option<String>, commits: Vec<CommitInput>) -> (r: Option<ReleasePlan>)
    requires
        commits@.len() > 0 ==> bump_fits(release_bump(commits@), current_version),
    ensures
        commits@.len() == 0 <==> r is None,
        r matches Some(plan) ==> is_release_plan(plan, current_version, base_tag, commits@),
{
    if commits.len() == 0 {
        return None;
    }
    let (planned, max_bump) = classify_commits(&commits);
    let bump = if max_bump == BumpLevel::NoBump {
        BumpLevel::Patch
    } else {
        max_bump
    };
    let next_version = bump.apply(&current_version);
    Some(
        ReleasePlan {
            base_tag,
            current_version,
            next_version,
            bump_level: bump,
            commits: planned,
        },
    )
}

/// Plans a release as `plan_release` does, first checking that the bump
/// stays within `u64`: `Err(bump)` with the bump the commits ask for when it
/// would overflow the version.
pub fn plan_release_checked(current_version: Version, base_tag: Option<String>, commits: Vec<CommitInput>) -> (r: Result<Option<ReleasePlan>, BumpLevel>)
    ensures
        commits@.len() == 0 ==> r == Ok::<Option<ReleasePlan>, BumpLevel>(None),
        commits@.len() > 0 ==> match r {
            Ok(Some(plan)) => bump_fits(release_bump(commits@), current_version)
                && is_release_plan(plan, current_version, base_tag, commits@),
            Ok(None) => false,
            Err(b) => b == release_bump(commits@) && !bump_fits(b, current_version),
        },
{
    if commits.len() == 0 {
        return Ok(None);
    }
    let (_, max_bump) = classify_commits(&commits);
    let bump = if max_bump == BumpLevel::NoBump {
        BumpLevel::Patch
    } else {
        max_bump
    };
    let fits = match bump {
        BumpLevel::NoBump => true,
        BumpLevel::Patch => current_version.patch < u64::MAX,
        BumpLevel::Minor => current_version.minor < u64::MAX,
        BumpLevel::Major => current_version.major < u64::MAX,
    };
    if !fits {
        return Err(bump);
    }
    Ok(plan_release(current_version, base_tag, commits))
}

/// `a` comes before `b` by their numbers: major first, then minor, then patch.
pub open spec fn numbers_before(a: Version, b: Version) -> bool {
    ||| a.major < b.major
    ||| a.major == b.major && a.minor < b.minor
    ||| a.major == b.major && a.minor == b.minor && a.patch < b.patch
}

/// `max` on bumps is commutative, associative and idempotent, and gives the
/// larger of its two arguments.
pub proof fn lemma_bump_max_laws(a: BumpLevel, b: BumpLevel, c: BumpLevel)
    ensures
        bump_max(a, b) == bump_max(b, a),
        bump_max(bump_max(a, b), c) == bump_max(a, bump_max(b, c)),
        bump_max(a, a) == a,
        bump_rank(a) <= bump_rank(bump_max(a, b)),
        bump_rank(b) <= bump_rank(bump_max(a, b)),
        bump_max(a, b) == a || bump_max(a, b) == b,
{
}

/// Every bump but `NoBump` moves the version forward and keeps its
/// pre-release and build metadata; `NoBump` leaves it as it is.
pub proof fn lemma_bump_moves_forward(b: BumpLevel, v: Version)
    requires
        bump_fits(b, v),
    ensures
        b != BumpLevel::NoBump ==> numbers_before(v, bumped(b, v)),
        b == BumpLevel::NoBump ==> bumped(b, v) == v,
        bumped(b, v).pre == v.pre,
        bumped(b, v).build == v.build,
{
}

/// The bump of a list of commits is that of its two halves combined.
pub proof fn lemma_max_commit_bump_concat(a: Seq<CommitInput>, b: Seq<CommitInput>)
    ensures
        max_commit_bump(a + b) == bump_max(max_commit_bump(a), max_commit_bump(b)),
    decreases b.len(),
{
    if b.len() == 0 {
        assert(a + b =~= a);
    } else {
        assert((a + b).drop_last() =~= a + b.drop_last());
        assert((a + b).last() == b.last());
        lemma_max_commit_bump_concat(a, b.drop_last());
        lemma_bump_max_laws(max_commit_bump(a), max_commit_bump(b.drop_last()), commit_bump(b.last()));
    }
}

/// The bump of a release does not depend on the order of its commits: two
/// parts of the history give the same bump in either order.
pub proof fn lemma_release_bump_order(a: Seq<CommitInput>, b: Seq<CommitInput>)
    ensures
        release_bump(a + b) == release_bump(b + a),
{
    lemma_max_commit_bump_concat(a, b);
    lemma_max_commit_bump_concat(b, a);
    lemma_bump_max_laws(max_commit_bump(a), max_commit_bump(b), BumpLevel::NoBump);
}

/// A release bumps at least the patch number, and at least as far as each of
/// its commits asks.
pub proof fn lemma_release_bump_covers(commits: Seq<CommitInput>, i: int)
    requires
        0 <= i < commits.len(),
    ensures
        bump_rank(release_bump(commits)) >= 1,
        bump_rank(release_bump(commits)) >= bump_rank(commit_bump(commits[i])),
{
    let a = commits.take(i);
    let b = commits.skip(i);
    assert(a + b =~= commits);
    lemma_max_commit_bump_concat(a, b);
    let c = seq![commits[i]];
    let d = b.drop_first();
    assert(c + d =~= b);
    lemma_max_commit_bump_concat(c, d);
    assert(c.drop_last() =~= Seq::<CommitInput>::empty());
    lemma_bump_max_laws(max_commit_bump(a), max_commit_bump(b), BumpLevel::NoBump);
    lemma_bump_max_laws(max_commit_bump(c), max_commit_bump(d), BumpLevel::NoBump);
}

} // verus!
