//! Release planning driven by the caller's answers about commit history.
//!
//! The planner says which question about the history it needs answered
//! next (does the release tag exist, which commit set the version, which tag
//! is the latest, which commits follow a base), and the caller asks git and
//! hands the answer back. Once every crate's history is read the planner
//! gives the crates' release plans.

use vstd::prelude::*;

use crate::path::copy_path;
use crate::release::{
    are_crate_plans, crate_commits, crate_plans_fit, plan_crates, plans_fit, render_tag_name, sort_by_path,
    sort_crates, tag_name, CrateInfo, CrateReleasePlan, HistoryCommit, HistoryError, ReleaseError,
};
use crate::text::owned;
use crate::version::version_text;
use crate::versioning::{bump_fits, release_bump};

verus! {

/// A question about the commit history.
#[derive(Debug, PartialEq, Eq)]
pub enum HistoryQuery {
    /// Does the tag exist?
    TagExists { tag: String },
    /// Which commit set the manifest's version to `version`, if any?
    VersionCommit { manifest_path: Vec<String>, version: String },
    /// Which tag is the latest, if any?
    LatestTag,
    /// Which commits follow `base` (all of history when `None`)?
    Commits { base: Option<String> },
}

/// The answer to a question about the commit history.
#[derive(Debug)]
pub enum HistoryAnswer {
    TagExists(bool),
    VersionCommit(Option<String>),
    LatestTag(Option<String>),
    Commits(Vec<HistoryCommit>),
}

/// A planning in progress: the crates sorted by manifest path, the histories
/// read so far (base reference and commits, one per crate, in crate order)
/// and the question whose answer it waits for, about crate
/// `fetched.len()`.
#[derive(Debug)]
pub struct Planner {
    pub crates: Vec<CrateInfo>,
    pub from_tag: Option<String>,
    pub tag_template: String,
    pub fetched: Vec<(Option<String>, Vec<HistoryCommit>)>,
    pub pending: HistoryQuery,
}

/// What the planner does next.
#[derive(Debug)]
pub enum PlanProgress {
    /// Wait for the answer to `pending` of the planner.
    Ask(Planner),
    /// Every history is read; the plans of the crates with commits of their own.
    Done(Vec<CrateReleasePlan>),
}

impl Planner {
    /// The planner is about a crate that is still to be read.
    pub open spec fn well_formed(&self) -> bool {
        self.fetched@.len() < self.crates@.len()
    }
}

/// `answer` is an answer to `query`.
pub open spec fn answers(query: HistoryQuery, answer: HistoryAnswer) -> bool {
    match query {
        HistoryQuery::TagExists { .. } => answer is TagExists,
        HistoryQuery::VersionCommit { .. } => answer is VersionCommit,
        HistoryQuery::LatestTag => answer is LatestTag,
        HistoryQuery::Commits { .. } => answer is Commits,
    }
}

/// `p` is a planner over these crates, options and histories.
pub open spec fn planner_of(
    p: Planner,
    crates: Seq<CrateInfo>,
    from_tag: Option<String>,
    template: Seq<char>,
    fetched: Seq<(Option<String>, Vec<HistoryCommit>)>,
) -> bool {
    &&& p.crates@ == crates
    &&& p.from_tag == from_tag
    &&& p.tag_template@ == template
    &&& p.fetched@ == fetched
}

/// `name` is the name of the first crate whose planned bump would take its
/// version past `u64::MAX`.
pub open spec fn first_overflow(
    crates: Seq<CrateInfo>,
    fetched: Seq<(Option<String>, Vec<HistoryCommit>)>,
    name: Seq<char>,
) -> bool {
    exists|i: int|
        0 <= i < crates.len() && #[trigger] crate_commits(crates, fetched[i].1@, i).len() > 0 && !bump_fits(
            release_bump(crate_commits(crates, fetched[i].1@, i)),
            crates[i].version,
        ) && name == crates[i].name@ && forall|j: int|
            0 <= j < i && #[trigger] crate_commits(crates, fetched[j].1@, j).len() > 0 ==> bump_fits(
                release_bump(crate_commits(crates, fetched[j].1@, j)),
                crates[j].version,
            )
}

/// What follows once the histories `fetched` are read: with every crate
/// read, the plans (or the first overflow); else the first question about
/// the next crate, which is the commits since `from_tag` when one is given,
/// and otherwise whether the crate's release tag exists (an error when the
/// template cannot name it).
pub open spec fn continues(
    crates: Seq<CrateInfo>,
    from_tag: Option<String>,
    template: Seq<char>,
    fetched: Seq<(Option<String>, Vec<HistoryCommit>)>,
    r: Result<PlanProgress, ReleaseError>,
) -> bool {
    if fetched.len() >= crates.len() {
        if plans_fit(crates, fetched) {
            r matches Ok(PlanProgress::Done(plans)) && are_crate_plans(plans@, crates, fetched)
        } else {
            r matches Err(ReleaseError::VersionOverflow(name)) && first_overflow(crates, fetched, name@)
        }
    } else {
        let i = fetched.len() as int;
        match from_tag {
            Some(t) => r matches Ok(PlanProgress::Ask(p)) && planner_of(p, crates, from_tag, template, fetched)
                && p.pending == (HistoryQuery::Commits { base: Some(t) }),
            None => match tag_name(template, crates[i].name@, crates[i].version, crates.len() as nat) {
                None => r matches Err(ReleaseError::TemplateWithoutCrate),
                Some(tag) => r matches Ok(PlanProgress::Ask(p)) && planner_of(p, crates, from_tag, template, fetched)
                    && (p.pending matches HistoryQuery::TagExists { tag: q } && q@ == tag),
            },
        }
    }
}

/// The step after the histories `fetched` are read (see `continues`).
fn proceed(
    crates: Vec<CrateInfo>,
    from_tag: Option<String>,
    tag_template: String,
    fetched: Vec<(Option<String>, Vec<HistoryCommit>)>,
) -> (r: Result<PlanProgress, ReleaseError>)
    requires
        fetched@.len() <= crates@.len(),
    ensures
        continues(crates@, from_tag, tag_template@, fetched@, r),
        r matches Ok(PlanProgress::Ask(p)) ==> p.well_formed(),
{
    let i = fetched.len();
    if i == crates.len() {
        return match crate_plans_fit(&crates, &fetched) {
            Err(name) => Err(ReleaseError::VersionOverflow(name)),
            Ok(()) => Ok(PlanProgress::Done(plan_crates(&crates, &fetched))),
        };
    }
    let pending = match &from_tag {
        Some(t) => HistoryQuery::Commits { base: Some(t.clone()) },
        None => {
            let tag = render_tag_name(
                tag_template.as_str(),
                crates[i].name.as_str(),
                &crates[i].version,
                crates.len(),
            )?;
            HistoryQuery::TagExists { tag }
        },
    };
    Ok(PlanProgress::Ask(Planner { crates, from_tag, tag_template, fetched, pending }))
}

/// Starts planning the release of `crates`: the crates are sorted by
/// manifest path; with none there is nothing to plan; else the first
/// question about the first crate (see `continues`).
pub fn start_planning(crates: Vec<CrateInfo>, from_tag: Option<String>, tag_template: String) -> (r: Result<
    PlanProgress,
    ReleaseError,
>)
    ensures
        crates@.len() == 0 <==> r matches Err(ReleaseError::NoManifests),
        crates@.len() > 0 ==> continues(sort_by_path(crates@), from_tag, tag_template@, Seq::empty(), r),
        r matches Ok(PlanProgress::Ask(p)) ==> p.well_formed(),
{
    let ghost unsorted = crates@;
    let sorted = sort_crates(crates);
    proof {
        crate::release::lemma_sort_by_path(unsorted);
        assert(sorted@.len() == unsorted.len()) by {
            assert(sorted@.to_multiset().len() == unsorted.to_multiset().len());
            broadcast use vstd::seq_lib::group_to_multiset_ensures;
        }
    }
    if sorted.len() == 0 {
        return Err(ReleaseError::NoManifests);
    }
    let fetched: Vec<(Option<String>, Vec<HistoryCommit>)> = Vec::new();
    let r = proceed(sorted, from_tag, tag_template, fetched);
    proof {
        assert(fetched@ =~= Seq::<(Option<String>, Vec<HistoryCommit>)>::empty());
    }
    r
}

impl Planner {
    /// Takes the answer to the pending question. A failed read fails the
    /// planning. For the crate being read: when its release tag exists that
    /// tag is its base; otherwise the commit that set its version, asked
    /// next; otherwise the latest tag, asked last; then its commits since
    /// the base are asked, and once they come the planning goes on with the
    /// next crate (see `continues`).
    pub fn next(self, answer: Result<HistoryAnswer, HistoryError>) -> (r: Result<PlanProgress, ReleaseError>)
        requires
            self.well_formed(),
            answer matches Ok(a) ==> answers(self.pending, a),
        ensures
            r matches Ok(PlanProgress::Ask(p)) ==> p.well_formed(),
            match answer {
                Err(h) => r matches Err(ReleaseError::History(e)) && e == h,
                Ok(a) => {
                    let c = self.crates@[self.fetched@.len() as int];
                    let same = |p: Planner|
                        planner_of(p, self.crates@, self.from_tag, self.tag_template@, self.fetched@);
                    match (self.pending, a) {
                        (HistoryQuery::TagExists { tag }, HistoryAnswer::TagExists(true)) => r matches Ok(
                            PlanProgress::Ask(p),
                        ) && same(p) && p.pending == (HistoryQuery::Commits { base: Some(tag) }),
                        (HistoryQuery::TagExists { .. }, HistoryAnswer::TagExists(false)) => r matches Ok(
                            PlanProgress::Ask(p),
                        ) && same(p) && (p.pending matches HistoryQuery::VersionCommit { manifest_path, version }
                            && manifest_path@ == c.manifest_path@ && version@ == version_text(c.version)),
                        (HistoryQuery::VersionCommit { .. }, HistoryAnswer::VersionCommit(Some(commit))) => r matches Ok(
                            PlanProgress::Ask(p),
                        ) && same(p) && p.pending == (HistoryQuery::Commits { base: Some(commit) }),
                        (HistoryQuery::VersionCommit { .. }, HistoryAnswer::VersionCommit(None)) => r matches Ok(
                            PlanProgress::Ask(p),
                        ) && same(p) && p.pending == HistoryQuery::LatestTag,
                        (HistoryQuery::LatestTag, HistoryAnswer::LatestTag(t)) => r matches Ok(PlanProgress::Ask(p))
                            && same(p) && p.pending == (HistoryQuery::Commits { base: t }),
                        (HistoryQuery::Commits { base }, HistoryAnswer::Commits(cs)) => continues(
                            self.crates@,
                            self.from_tag,
                            self.tag_template@,
                            self.fetched@.push((base, cs)),
                            r,
                        ),
                        _ => false,
                    }
                },
            },
    {
        let answer = match answer {
            Ok(a) => a,
            Err(h) => {
                return Err(ReleaseError::History(h));
            },
        };
        let Planner { crates, from_tag, tag_template, mut fetched, pending } = self;
        let i = fetched.len();
        let pending = match (pending, answer) {
            (HistoryQuery::TagExists { tag }, HistoryAnswer::TagExists(exists)) => {
                if exists {
                    HistoryQuery::Commits { base: Some(tag) }
                } else {
                    HistoryQuery::VersionCommit {
                        manifest_path: copy_path(&crates[i].manifest_path),
                        version: crates[i].version.to_string(),
                    }
                }
            },
            (HistoryQuery::VersionCommit { .. }, HistoryAnswer::VersionCommit(commit)) => {
                if commit.is_some() {
                    HistoryQuery::Commits { base: commit }
                } else {
                    HistoryQuery::LatestTag
                }
            },
            (HistoryQuery::LatestTag, HistoryAnswer::LatestTag(t)) => HistoryQuery::Commits { base: t },
            (HistoryQuery::Commits { base }, HistoryAnswer::Commits(cs)) => {
                fetched.push((base, cs));
                return proceed(crates, from_tag, tag_template, fetched);
            },
            (pending, _) => pending,
        };
        Ok(PlanProgress::Ask(Planner { crates, from_tag, tag_template, fetched, pending }))
    }
}

} // verus!
