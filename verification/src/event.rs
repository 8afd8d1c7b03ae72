//! The commit range of a GitHub `push` event.

use vstd::prelude::*;

use crate::text::chars_eq_str;

verus! {

/// The `before` commit of a push that created its branch.
pub open spec fn null_commit() -> Seq<char> {
    "0000000000000000000000000000000000000000"@
}

/// The range of a push: from `before` to `after`, unless the push created the
/// branch and so has no commit before it.
pub open spec fn push_range_of(before: Seq<char>, after: Seq<char>) -> Option<(Seq<char>, Seq<char>)> {
    if before == null_commit() {
        None
    } else {
        Some((before, after))
    }
}

/// Whether the workflow was started by a push (`GITHUB_EVENT_NAME`).
pub fn is_push_event(event_name: &str) -> (r: bool)
    ensures
        r == (event_name@ == "push"@),
{
    let c = crate::text::chars_of(event_name);
    chars_eq_str(c.as_slice(), "push")
}

/// The commit range of a push event, from the payload's `before` commit and
/// the pushed commit (`GITHUB_SHA`); `None` when the push created the branch.
pub fn push_range(before: String, after: String) -> (r: Option<(String, String)>)
    ensures
        match push_range_of(before@, after@) {
            None => r is None,
            Some(p) => r matches Some(q) && q.0@ == p.0 && q.1@ == p.1,
        },
{
    let c = crate::text::chars_of(before.as_str());
    if chars_eq_str(c.as_slice(), "0000000000000000000000000000000000000000") {
        None
    } else {
        Some((before, after))
    }
}

} // verus!
