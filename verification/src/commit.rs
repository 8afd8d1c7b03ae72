//! Conventional-commit classification.

use vstd::prelude::*;

use crate::text::{
    before_char, before_char_chars, chars_eq_str, chars_of, contains_seq, contains_str,
    spec_to_lowercase, to_lowercase, trim, trim_chars, trim_end_char, trim_end_char_chars,
};
use crate::versioning::BumpLevel;

verus! {

/// A commit as read from history.
#[derive(Debug, PartialEq, Eq)]
pub struct CommitInput {
    pub hash: String,
    pub subject: String,
    pub body: String,
}

/// The conventional-commit type of a commit.
#[derive(Debug, Clone, Copy, PartialEq, Eq, Structural)]
pub enum CommitKind {
    Feature,
    Fix,
    Refactor,
    Documentation,
    Chore,
    Other,
}

/// A commit with its classification.
#[derive(Debug, PartialEq, Eq)]
pub struct PlannedCommit {
    pub hash: String,
    pub subject: String,
    pub kind: CommitKind,
    pub breaking: bool,
}

/// The label a kind is shown with.
pub open spec fn kind_label(kind: CommitKind) -> Seq<char> {
    match kind {
        CommitKind::Feature => "feat"@,
        CommitKind::Fix => "fix"@,
        CommitKind::Refactor => "refactor"@,
        CommitKind::Documentation => "docs"@,
        CommitKind::Chore => "chore"@,
        CommitKind::Other => "other"@,
    }
}

/// The type part of a commit head: before the first `(`, without trailing
/// `!`, trimmed.
pub open spec fn head_type(head: Seq<char>) -> Seq<char> {
    trim(trim_end_char(before_char(head, '('), '!'))
}

/// The kind a commit head declares.
pub open spec fn kind_of_head(head: Seq<char>) -> CommitKind {
    let ty = head_type(head);
    if ty == "feat"@ {
        CommitKind::Feature
    } else if ty == "fix"@ {
        CommitKind::Fix
    } else if ty == "refactor"@ || ty == "perf"@ {
        CommitKind::Refactor
    } else if ty == "docs"@ {
        CommitKind::Documentation
    } else if ty == "chore"@ || ty == "ci"@ || ty == "build"@ || ty == "test"@ {
        CommitKind::Chore
    } else {
        CommitKind::Other
    }
}

/// The head of a (lowercased) subject: the part before the first `:`, trimmed.
pub open spec fn subject_head(lower_subject: Seq<char>) -> Seq<char> {
    trim(before_char(lower_subject, ':'))
}

/// A commit is breaking when its head holds `!` or its body holds
/// `BREAKING CHANGE`.
pub open spec fn is_breaking(head: Seq<char>, body: Seq<char>) -> bool {
    head.contains('!') || contains_seq(body, "BREAKING CHANGE"@)
}

/// The bump a single commit asks for.
pub open spec fn bump_for(kind: CommitKind, breaking: bool) -> BumpLevel {
    if breaking {
        BumpLevel::Major
    } else {
        match kind {
            CommitKind::Feature => BumpLevel::Minor,
            CommitKind::Fix | CommitKind::Refactor => BumpLevel::Patch,
            _ => BumpLevel::NoBump,
        }
    }
}

/// The kind, breaking flag and bump of a commit, given its lowercased subject.
pub open spec fn classify(lower_subject: Seq<char>, body: Seq<char>) -> (CommitKind, bool, BumpLevel) {
    let head = subject_head(lower_subject);
    let kind = kind_of_head(head);
    let breaking = is_breaking(head, body);
    (kind, breaking, bump_for(kind, breaking))
}

/// The classification of a commit.
pub open spec fn commit_classification(input: CommitInput) -> (CommitKind, bool, BumpLevel) {
    classify(spec_to_lowercase(input.subject@), input.body@)
}

/// The bump a commit asks for.
pub open spec fn commit_bump(input: CommitInput) -> BumpLevel {
    commit_classification(input).2
}

/// `planned` is `input` classified as `class`.
pub open spec fn planned_from(input: CommitInput, class: (CommitKind, bool, BumpLevel), planned: PlannedCommit) -> bool {
    &&& planned.hash == input.hash
    &&& planned.subject == input.subject
    &&& planned.kind == class.0
    &&& planned.breaking == class.1
}

impl CommitKind {
    /// The label of the kind (what `Display` shows).
    pub fn as_str(&self) -> (s: &'static str)
        ensures
            s@ == kind_label(*self),
    {
        match self {
            CommitKind::Feature => "feat",
            CommitKind::Fix => "fix",
            CommitKind::Refactor => "refactor",
            CommitKind::Documentation => "docs",
            CommitKind::Chore => "chore",
            CommitKind::Other => "other",
        }
    }
}

/// The kind a commit head declares.
pub fn kind_from_head(head: &[char]) -> (kind: CommitKind)
    ensures
        kind == kind_of_head(head@),
{
    let before = before_char_chars(head, '(');
    let stripped = trim_end_char_chars(before.as_slice(), '!');
    let ty = trim_chars(stripped.as_slice());
    let t = ty.as_slice();
    if chars_eq_str(t, "feat") {
        CommitKind::Feature
    } else if chars_eq_str(t, "fix") {
        CommitKind::Fix
    } else if chars_eq_str(t, "refactor") || chars_eq_str(t, "perf") {
        CommitKind::Refactor
    } else if chars_eq_str(t, "docs") {
        CommitKind::Documentation
    } else if chars_eq_str(t, "chore") || chars_eq_str(t, "ci") || chars_eq_str(t, "build")
        || chars_eq_str(t, "test") {
        CommitKind::Chore
    } else {
        CommitKind::Other
    }
}

/// Whether `c` occurs in `s`.
pub fn contains_char(s: &[char], c: char) -> (r: bool)
    ensures
        r == s@.contains(c),
{
    let n = s.len();
    let mut i: usize = 0;
    while i < n
        invariant
            n == s@.len(),
            i <= n,
            forall|j: int| 0 <= j < i ==> s@[j] != c,
        decreases n - i,
    {
        if s[i] == c {
            return true;
        }
        i = i + 1;
    }
    false
}

impl PlannedCommit {
    /// Classifies a commit by its conventional-commit subject and body, and
    /// gives the bump it asks for.
    pub fn from_input(input: CommitInput) -> (r: (PlannedCommit, BumpLevel))
        ensures
            planned_from(input, commit_classification(input), r.0),
            r.1 == commit_bump(input),
    {
        let lower = to_lowercase(input.subject.as_str());
        PlannedCommit::from_lowercased(input, lower.as_str())
    }

    /// Classifies a commit given the lowercased text of its subject.
    pub fn from_lowercased(input: CommitInput, lower_subject: &str) -> (r: (PlannedCommit, BumpLevel))
        ensures
            planned_from(input, classify(lower_subject@, input.body@), r.0),
            r.1 == classify(lower_subject@, input.body@).2,
    {
        let lower = chars_of(lower_subject);
        let before = before_char_chars(lower.as_slice(), ':');
        let head = trim_chars(before.as_slice());
        let kind = kind_from_head(head.as_slice());
        let breaking = contains_char(head.as_slice(), '!') || contains_str(
            input.body.as_str(),
            "BREAKING CHANGE",
        );
        let bump = if breaking {
            BumpLevel::Major
        } else {
            match kind {
                CommitKind::Feature => BumpLevel::Minor,
                CommitKind::Fix | CommitKind::Refactor => BumpLevel::Patch,
                CommitKind::Documentation | CommitKind::Chore | CommitKind::Other => BumpLevel::NoBump,
            }
        };
        (PlannedCommit { hash: input.hash, subject: input.subject, kind, breaking }, bump)
    }
}

/// A commit whose body mentions `BREAKING CHANGE` asks for a major bump,
/// whatever its subject says.
pub proof fn lemma_breaking_body_is_major(input: CommitInput)
    requires
        contains_seq(input.body@, "BREAKING CHANGE"@),
    ensures
        commit_bump(input) == BumpLevel::Major,
        commit_classification(input).1,
{
}

/// Only a breaking commit asks for a major bump, and a non-breaking commit
/// asks for a minor bump exactly when it is a feature.
pub proof fn lemma_bump_of_kind(input: CommitInput)
    ensures
        commit_bump(input) == BumpLevel::Major <==> commit_classification(input).1,
        !commit_classification(input).1 ==> (commit_bump(input) == BumpLevel::Minor
            <==> commit_classification(input).0 == CommitKind::Feature),
{
}

proof fn lemma_before_colon(h: Seq<char>, d: Seq<char>)
    requires
        !h.contains(':'),
    ensures
        before_char(h + seq![':'] + d, ':') == h,
        before_char(h, ':') == h,
    decreases h.len(),
{
    if h.len() == 0 {
        assert(h + seq![':'] + d =~= seq![':'] + d);
    } else {
        let t = h.drop_first();
        assert(!t.contains(':')) by {
            if t.contains(':') {
                let k = choose|k: int| 0 <= k < t.len() && t[k] == ':';
                assert(h[k + 1] == ':');
            }
        }
        lemma_before_colon(t, d);
        assert(h[0] != ':') by {
            if h[0] == ':' {
                assert(h.contains(':'));
            }
        }
        assert((h + seq![':'] + d).drop_first() =~= t + seq![':'] + d);
        assert((h + seq![':'] + d)[0] == h[0]);
        assert(seq![h[0]] + t =~= h);
    }
}

/// Only the part of a subject before its first `:` decides a commit's
/// kind, breaking flag and bump: the description after the colon, `!`
/// included, changes nothing.
pub proof fn lemma_description_is_ignored(head: Seq<char>, d1: Seq<char>, d2: Seq<char>, body: Seq<char>)
    requires
        !head.contains(':'),
    ensures
        classify(head + seq![':'] + d1, body) == classify(head + seq![':'] + d2, body),
        classify(head + seq![':'] + d1, body) == classify(head, body),
{
    lemma_before_colon(head, d1);
    lemma_before_colon(head, d2);
}

/// A `feat` commit whose body does not mention `BREAKING CHANGE` is a
/// feature asking for a minor bump, whatever its description says.
pub proof fn lemma_plain_feature_is_minor(description: Seq<char>, body: Seq<char>)
    requires
        !contains_seq(body, "BREAKING CHANGE"@),
    ensures
        classify("feat:"@ + description, body) == (CommitKind::Feature, false, BumpLevel::Minor),
{
    reveal_strlit("feat:");
    reveal_strlit("feat");
    let h = "feat"@;
    assert(!h.contains(':'));
    assert("feat:"@ + description =~= h + seq![':'] + description);
    lemma_description_is_ignored(h, description, description, body);
    lemma_before_colon(h, Seq::empty());
    assert(subject_head(h) == h) by {
        assert(!crate::text::is_whitespace(h[0]));
        assert(!crate::text::is_whitespace(h.last()));
        reveal_with_fuel(crate::text::trim_start, 2);
        reveal_with_fuel(crate::text::trim_end, 2);
    }
    assert(!h.contains('!'));
    assert(before_char(h, '(') == h) by {
        reveal_with_fuel(before_char, 5);
    }
    assert(trim_end_char(h, '!') == h);
    assert(trim(h) == h) by {
        reveal_with_fuel(crate::text::trim_start, 2);
        reveal_with_fuel(crate::text::trim_end, 2);
    }
    assert(head_type(h) == "feat"@);
}

/// The kind a subject's head gives stays the same with a `!` marker after
/// the type: `feat!` is still a feature, only breaking.
pub proof fn lemma_breaking_needs_marker(head: Seq<char>, description: Seq<char>, body: Seq<char>)
    requires
        !head.contains(':'),
        !head.contains('!'),
        !contains_seq(body, "BREAKING CHANGE"@),
    ensures
        !classify(head + seq![':'] + description, body).1,
{
    lemma_description_is_ignored(head, description, description, body);
    lemma_before_colon(head, Seq::empty());
    crate::text::lemma_trim_contains(head, '!');
}

} // verus!
