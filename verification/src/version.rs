//! Semantic versions: the numbers a release plan bumps, and their text.

use vstd::prelude::*;

use crate::text::{decimal, push_char, push_decimal, push_str};

verus! {

/// A semantic version `major.minor.patch[-pre][+build]`, holding as plain
/// values what the planners read of `semver::Version`.
#[derive(Debug, PartialEq, Eq)]
pub struct Version {
    pub major: u64,
    pub minor: u64,
    pub patch: u64,
    /// The pre-release identifiers, empty when there are none.
    pub pre: String,
    /// The build metadata, empty when there is none.
    pub build: String,
}

/// The text of a version, as `semver::Version` displays it:
/// `major.minor.patch`, then `-pre` when there is a pre-release, then
/// `+build` when there is build metadata.
pub open spec fn version_text(v: Version) -> Seq<char> {
    decimal(v.major as nat) + seq!['.'] + decimal(v.minor as nat) + seq!['.'] + decimal(
        v.patch as nat,
    ) + (if v.pre@.len() == 0 {
        Seq::<char>::empty()
    } else {
        seq!['-'] + v.pre@
    }) + (if v.build@.len() == 0 {
        Seq::<char>::empty()
    } else {
        seq!['+'] + v.build@
    })
}

/// What `semver::Version::parse` yields for a text: `None` when the text is
/// rejected, else its major, minor and patch numbers, the text of its
/// pre-release and the text of its build metadata. It depends on the text alone.
pub uninterp spec fn spec_semver_parse_version(text: Seq<char>) -> Option<
    (u64, u64, u64, Seq<char>, Seq<char>),
>;

/// `semver::Version::parse`, with the result taken apart into plain values;
/// the contract only names the result (`spec_semver_parse_version`).
#[verifier::external_body]
fn semver_parse_version(text: &str) -> (r: Option<(u64, u64, u64, String, String)>)
    ensures
        match r {
            None => spec_semver_parse_version(text@) is None,
            Some(t) => spec_semver_parse_version(text@) == Some((t.0, t.1, t.2, t.3@, t.4@)),
        },
{
    semver::Version::parse(text).ok().map(
        |v| (v.major, v.minor, v.patch, v.pre.as_str().to_string(), v.build.as_str().to_string()),
    )
}

impl Clone for Version {
    fn clone(&self) -> (r: Self)
        ensures
            r == *self,
    {
        Version {
            major: self.major,
            minor: self.minor,
            patch: self.patch,
            pre: self.pre.clone(),
            build: self.build.clone(),
        }
    }
}

impl Version {
    /// The version `major.minor.patch` without pre-release or build metadata.
    pub fn new(major: u64, minor: u64, patch: u64) -> (v: Version)
        ensures
            v.major == major,
            v.minor == minor,
            v.patch == patch,
            v.pre@.len() == 0,
            v.build@.len() == 0,
    {
        Version { major, minor, patch, pre: String::new(), build: String::new() }
    }

    /// Parses a semantic version; `None` when `semver` rejects the text.
    pub fn parse(text: &str) -> (r: Option<Version>)
        ensures
            match spec_semver_parse_version(text@) {
                None => r is None,
                Some(t) => r matches Some(v) && v.major == t.0 && v.minor == t.1 && v.patch
                    == t.2 && v.pre@ == t.3 && v.build@ == t.4,
            },
    {
        match semver_parse_version(text) {
            None => None,
            Some(t) => Some(Version { major: t.0, minor: t.1, patch: t.2, pre: t.3, build: t.4 }),
        }
    }

    /// The text of the version (what `Display` shows for `semver::Version`).
    pub fn to_string(&self) -> (s: String)
        ensures
            s@ == version_text(*self),
    {
        let mut s = String::new();
        push_decimal(&mut s, self.major);
        push_char(&mut s, '.');
        push_decimal(&mut s, self.minor);
        push_char(&mut s, '.');
        push_decimal(&mut s, self.patch);
        let ghost core = s@;
        if !self.pre.as_str().is_empty() {
            push_char(&mut s, '-');
            push_str(&mut s, self.pre.as_str());
        }
        let ghost with_pre = s@;
        if !self.build.as_str().is_empty() {
            push_char(&mut s, '+');
            push_str(&mut s, self.build.as_str());
        }
        proof {
            let pre_part = if self.pre@.len() == 0 {
                Seq::<char>::empty()
            } else {
                seq!['-'] + self.pre@
            };
            let build_part = if self.build@.len() == 0 {
                Seq::<char>::empty()
            } else {
                seq!['+'] + self.build@
            };
            assert(with_pre =~= core + pre_part);
            assert(s@ =~= core + pre_part + build_part);
        }
        s
    }
}

} // verus!
