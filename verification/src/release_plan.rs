//! The release plan of one crate.

use vstd::prelude::*;

use crate::commit::PlannedCommit;
use crate::version::Version;
use crate::versioning::BumpLevel;

verus! {

/// What a release will do: the version it starts from, the version it
/// produces, the bump between them and the commits it covers.
#[derive(Debug)]
pub struct ReleasePlan {
    pub base_tag: Option<String>,
    pub current_version: Version,
    pub next_version: Version,
    pub bump_level: BumpLevel,
    pub commits: Vec<PlannedCommit>,
}

} // verus!
