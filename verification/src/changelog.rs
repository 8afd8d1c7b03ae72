//! Markdown release notes for a release plan.

use vstd::prelude::*;

use crate::commit::{CommitKind, PlannedCommit};
use crate::release_plan::ReleasePlan;
use crate::text::{contains_seq, occurs_at, push_chars, push_str};
use crate::version::version_text;

verus! {

/// The number of bytes `c` takes in UTF-8.
pub open spec fn utf8_width(c: char) -> nat {
    let u = c as int;
    if u < 0x80 {
        1
    } else if u < 0x800 {
        2
    } else if u < 0x10000 {
        3
    } else {
        4
    }
}

/// The number of bytes `s` takes in UTF-8.
pub open spec fn utf8_size(s: Seq<char>) -> nat
    decreases s.len(),
{
    if s.len() == 0 {
        0
    } else {
        utf8_width(s[0]) + utf8_size(s.drop_first())
    }
}

/// The longest prefix of `s` whose UTF-8 encoding fits in `budget` bytes.
pub open spec fn bytes_prefix(s: Seq<char>, budget: int) -> Seq<char>
    decreases s.len(),
{
    if s.len() == 0 || utf8_width(s[0]) > budget {
        Seq::empty()
    } else {
        seq![s[0]] + bytes_prefix(s.drop_first(), budget - utf8_width(s[0]))
    }
}

/// Cutting `hash` after its first seven bytes falls between characters
/// (slicing a `str` anywhere else panics).
pub open spec fn short_hash_cut_ok(hash: Seq<char>) -> bool {
    utf8_size(hash) <= 7 || exists|k: int| 0 <= k <= hash.len() && utf8_size(#[trigger] hash.take(k)) == 7
}

/// The first seven bytes of a commit hash.
pub open spec fn short_hash_text(hash: Seq<char>) -> Seq<char> {
    bytes_prefix(hash, 7)
}

/// The release-notes line of one commit.
pub open spec fn commit_line(c: PlannedCommit) -> Seq<char> {
    "- "@ + c.subject@ + " ("@ + short_hash_text(c.hash@) + if c.breaking {
        ") **BREAKING**\n"@
    } else {
        ")\n"@
    }
}

/// The lines of the commits of one kind, in order.
pub open spec fn kind_lines(commits: Seq<PlannedCommit>, kind: CommitKind) -> Seq<char>
    decreases commits.len(),
{
    if commits.len() == 0 {
        Seq::empty()
    } else {
        kind_lines(commits.drop_last(), kind) + if commits.last().kind == kind {
            commit_line(commits.last())
        } else {
            Seq::empty()
        }
    }
}

/// Some commit has this kind.
pub open spec fn has_kind(commits: Seq<PlannedCommit>, kind: CommitKind) -> bool {
    exists|i: int| 0 <= i < commits.len() && (#[trigger] commits[i]).kind == kind
}

/// The section of one kind: a heading, the lines and a blank line, or
/// nothing when no commit has that kind.
pub open spec fn section_text(title: Seq<char>, commits: Seq<PlannedCommit>, kind: CommitKind) -> Seq<char> {
    if has_kind(commits, kind) {
        "### "@ + title + "\n"@ + kind_lines(commits, kind) + "\n"@
    } else {
        Seq::empty()
    }
}

/// Every commit hash of the plan can be shortened.
pub open spec fn hashes_cut_ok(commits: Seq<PlannedCommit>) -> bool {
    forall|i: int| 0 <= i < commits.len() ==> short_hash_cut_ok(#[trigger] commits[i].hash@)
}

/// The release notes of a plan: the next version as a heading, the base tag
/// when there is one, then a section per commit kind in the order features,
/// fixes, refactors, documentation, chores, other.
pub open spec fn markdown_text(plan: ReleasePlan) -> Seq<char> {
    let c = plan.commits@;
    "## "@ + version_text(plan.next_version) + "\n\n"@ + (match plan.base_tag {
        Some(t) => "Changes since `"@ + t@ + "`\n\n"@,
        None => Seq::empty(),
    }) + section_text("Features"@, c, CommitKind::Feature) + section_text("Fixes"@, c, CommitKind::Fix)
        + section_text("Refactors"@, c, CommitKind::Refactor) + section_text(
        "Documentation"@,
        c,
        CommitKind::Documentation,
    ) + section_text("Chores"@, c, CommitKind::Chore) + section_text("Other"@, c, CommitKind::Other)
}

proof fn lemma_bytes_prefix_small(s: Seq<char>, budget: int)
    requires
        utf8_size(s) <= budget,
    ensures
        bytes_prefix(s, budget) == s,
    decreases s.len(),
{
    if s.len() > 0 {
        lemma_bytes_prefix_small(s.drop_first(), budget - utf8_width(s[0]));
        assert(seq![s[0]] + s.drop_first() =~= s);
    }
}

/// A hash of at most seven bytes is shown whole, and a longer one by its
/// first seven bytes, which begin it.
pub proof fn lemma_short_hash_prefix(hash: Seq<char>)
    ensures
        utf8_size(hash) <= 7 ==> short_hash_text(hash) == hash,
        hash.take(short_hash_text(hash).len() as int) == short_hash_text(hash),
        short_hash_text(hash).len() <= hash.len(),
{
    if utf8_size(hash) <= 7 {
        lemma_bytes_prefix_small(hash, 7);
    }
    lemma_bytes_prefix_is_prefix(hash, 7);
}

proof fn lemma_bytes_prefix_is_prefix(s: Seq<char>, budget: int)
    ensures
        bytes_prefix(s, budget).len() <= s.len(),
        s.take(bytes_prefix(s, budget).len() as int) == bytes_prefix(s, budget),
    decreases s.len(),
{
    if s.len() > 0 && utf8_width(s[0]) <= budget {
        lemma_bytes_prefix_is_prefix(s.drop_first(), budget - utf8_width(s[0]));
        let p = bytes_prefix(s.drop_first(), budget - utf8_width(s[0]));
        assert(s.take(p.len() + 1 as int) =~= seq![s[0]] + s.drop_first().take(p.len() as int));
    } else {
        assert(s.take(0) =~= Seq::<char>::empty());
    }
}

/// The number of UTF-8 bytes of `c`.
fn char_width(c: char) -> (w: usize)
    ensures
        w == utf8_width(c),
{
    let u = c as u32;
    if u < 0x80 {
        1
    } else if u < 0x800 {
        2
    } else if u < 0x10000 {
        3
    } else {
        4
    }
}

/// The first seven bytes of a commit hash.
pub fn short_hash(hash: &str) -> (s: Vec<char>)
    requires
        short_hash_cut_ok(hash@),
    ensures
        s@ == short_hash_text(hash@),
{
    let cs = crate::text::chars_of(hash);
    let n = cs.len();
    let mut out: Vec<char> = Vec::new();
    let mut budget: usize = 7;
    let mut i: usize = 0;
    assert(cs@.skip(0) =~= cs@);
    while i < n && char_width(cs[i]) <= budget
        invariant
            n == cs@.len(),
            i <= n,
            budget <= 7,
            bytes_prefix(cs@, 7) == out@ + bytes_prefix(cs@.skip(i as int), budget as int),
        decreases n - i,
    {
        let w = char_width(cs[i]);
        assert(cs@.skip(i as int).drop_first() =~= cs@.skip(i + 1));
        assert(cs@.skip(i as int)[0] == cs@[i as int]);
        out.push(cs[i]);
        budget = budget - w;
        i = i + 1;
    }
    proof {
        assert(cs@.skip(i as int).len() == 0 || utf8_width(cs@.skip(i as int)[0]) > budget);
    }
    out
}

/// Appends the section of one commit kind.
fn append_section(out: &mut String, title: &str, plan: &ReleasePlan, kind: CommitKind)
    requires
        hashes_cut_ok(plan.commits@),
    ensures
        final(out)@ == old(out)@ + section_text(title@, plan.commits@, kind),
{
    let ghost start = out@;
    let ghost commits = plan.commits@;
    let mut wrote_any = false;
    let n = plan.commits.len();
    for i in 0..n
        invariant
            n == commits.len(),
            commits == plan.commits@,
            hashes_cut_ok(commits),
            wrote_any <==> has_kind(commits.take(i as int), kind),
            out@ == start + (if wrote_any {
                "### "@ + title@ + "\n"@
            } else {
                Seq::<char>::empty()
            }) + kind_lines(commits.take(i as int), kind),
    {
        let commit = &plan.commits[i];
        let ghost before = out@;
        let ghost head = if wrote_any {
            "### "@ + title@ + "\n"@
        } else {
            Seq::<char>::empty()
        };
        assert(commits.take(i + 1).drop_last() =~= commits.take(i as int));
        assert(commits.take(i + 1).last() == commits[i as int]);
        if commit.kind == kind {
            if !wrote_any {
                assert(kind_lines(commits.take(i as int), kind) =~= Seq::<char>::empty()) by {
                    lemma_no_kind_no_lines(commits.take(i as int), kind);
                }
                push_str(out, "### ");
                push_str(out, title);
                push_str(out, "\n");
                wrote_any = true;
            }
            let ghost mid = out@;
            push_str(out, "- ");
            push_str(out, commit.subject.as_str());
            push_str(out, " (");
            let h = short_hash(commit.hash.as_str());
            push_chars(out, h.as_slice());
            if commit.breaking {
                push_str(out, ") **BREAKING**\n");
            } else {
                push_str(out, ")\n");
            }
            proof {
                assert(out@ =~= mid + commit_line(commits[i as int]));
                assert(has_kind(commits.take(i + 1), kind)) by {
                    assert(commits.take(i + 1)[i as int].kind == kind);
                }
                assert(out@ =~= start + ("### "@ + title@ + "\n"@) + kind_lines(commits.take(i + 1), kind));
            }
        } else {
            proof {
                assert(kind_lines(commits.take(i + 1), kind) =~= kind_lines(commits.take(i as int), kind));
                assert(has_kind(commits.take(i + 1), kind) == has_kind(commits.take(i as int), kind)) by {
                    if has_kind(commits.take(i + 1), kind) {
                        let j = choose|j: int| 0 <= j < i + 1 && (#[trigger] commits.take(i + 1)[j]).kind == kind;
                        assert(commits.take(i as int)[j] == commits.take(i + 1)[j]);
                    }
                    if has_kind(commits.take(i as int), kind) {
                        let j = choose|j: int| 0 <= j < i && (#[trigger] commits.take(i as int)[j]).kind == kind;
                        assert(commits.take(i + 1)[j] == commits.take(i as int)[j]);
                    }
                }
            }
        }
    }
    assert(commits.take(n as int) =~= commits);
    assert(wrote_any <==> has_kind(commits, kind));
    let ghost lines = kind_lines(commits, kind);
    if wrote_any {
        assert(out@ == start + ("### "@ + title@ + "\n"@) + lines);
        push_str(out, "\n");
        assert(out@ =~= start + section_text(title@, commits, kind));
    } else {
        proof {
            lemma_no_kind_no_lines(commits, kind);
        }
        assert(out@ =~= start + section_text(title@, commits, kind));
    }
}

proof fn lemma_no_kind_no_lines(commits: Seq<PlannedCommit>, kind: CommitKind)
    requires
        !has_kind(commits, kind),
    ensures
        kind_lines(commits, kind) == Seq::<char>::empty(),
    decreases commits.len(),
{
    if commits.len() > 0 {
        assert(!has_kind(commits.drop_last(), kind)) by {
            if has_kind(commits.drop_last(), kind) {
                let j = choose|j: int| 0 <= j < commits.len() - 1 && (#[trigger] commits.drop_last()[j]).kind == kind;
                assert(commits[j] == commits.drop_last()[j]);
            }
        }
        lemma_no_kind_no_lines(commits.drop_last(), kind);
        assert(commits[commits.len() - 1] == commits.last());
    }
}

/// The release notes of a plan in Markdown.
pub fn render_markdown(plan: &ReleasePlan) -> (text: String)
    requires
        hashes_cut_ok(plan.commits@),
    ensures
        text@ == markdown_text(*plan),
        forall|i: int|
            0 <= i < plan.commits@.len() ==> contains_seq(
                text@,
                "- "@ + (#[trigger] plan.commits@[i]).subject@ + " ("@ + short_hash_text(plan.commits@[i].hash@)
                    + ")"@,
            ),
{
    let mut out = String::new();
    push_str(&mut out, "## ");
    let v = plan.next_version.to_string();
    push_str(&mut out, v.as_str());
    push_str(&mut out, "\n\n");
    match &plan.base_tag {
        Some(base_tag) => {
            push_str(&mut out, "Changes since `");
            push_str(&mut out, base_tag.as_str());
            push_str(&mut out, "`\n\n");
        },
        None => {},
    }
    append_section(&mut out, "Features", plan, CommitKind::Feature);
    append_section(&mut out, "Fixes", plan, CommitKind::Fix);
    append_section(&mut out, "Refactors", plan, CommitKind::Refactor);
    append_section(&mut out, "Documentation", plan, CommitKind::Documentation);
    append_section(&mut out, "Chores", plan, CommitKind::Chore);
    append_section(&mut out, "Other", plan, CommitKind::Other);
    proof {
        assert(out@ =~= markdown_text(*plan));
        assert forall|i: int| 0 <= i < plan.commits@.len() implies contains_seq(
            out@,
            "- "@ + (#[trigger] plan.commits@[i]).subject@ + " ("@ + short_hash_text(plan.commits@[i].hash@) + ")"@,
        ) by {
            lemma_every_commit_listed(*plan, i);
        }
    }
    out
}

/// A pattern found in `b` is found in `a + b + c`.
proof fn lemma_contains_in_middle(a: Seq<char>, b: Seq<char>, c: Seq<char>, p: Seq<char>)
    requires
        contains_seq(b, p),
    ensures
        contains_seq(a + b + c, p),
{
    let i = choose|i: int| #[trigger] occurs_at(b, p, i);
    let s = a + b + c;
    assert(s.subrange(a.len() + i, a.len() + i + p.len()) =~= b.subrange(i, i + p.len()));
    assert(occurs_at(s, p, a.len() + i));
}

/// The entry of a commit in the notes, without what follows its hash.
pub open spec fn commit_entry(c: PlannedCommit) -> Seq<char> {
    "- "@ + c.subject@ + " ("@ + short_hash_text(c.hash@) + ")"@
}

proof fn lemma_kind_lines_hold(commits: Seq<PlannedCommit>, kind: CommitKind, i: int)
    requires
        0 <= i < commits.len(),
        commits[i].kind == kind,
    ensures
        contains_seq(kind_lines(commits, kind), "- "@ + commits[i].subject@ + " ("@ + short_hash_text(commits[i].hash@) + ")"@),
    decreases commits.len(),
{
    let p = "- "@ + commits[i].subject@ + " ("@ + short_hash_text(commits[i].hash@) + ")"@;
    let prev = kind_lines(commits.drop_last(), kind);
    if i == commits.len() - 1 {
        let c = commits.last();
        reveal_strlit(")");
        reveal_strlit(") **BREAKING**\n");
        reveal_strlit(")\n");
        let tail: Seq<char> = if c.breaking {
            " **BREAKING**\n"@
        } else {
            "\n"@
        };
        reveal_strlit(" **BREAKING**\n");
        reveal_strlit("\n");
        assert(commit_line(c) =~= p + tail);
        assert(p.subrange(0, p.len() as int) =~= p);
        assert(occurs_at(p, p, 0));
        lemma_contains_in_middle(Seq::empty(), p, tail, p);
        assert(Seq::<char>::empty() + p + tail =~= commit_line(c));
        lemma_contains_in_middle(prev, commit_line(c), Seq::empty(), p);
        assert(prev + commit_line(c) + Seq::<char>::empty() =~= kind_lines(commits, kind));
    } else {
        assert(commits.drop_last()[i] == commits[i]);
        lemma_kind_lines_hold(commits.drop_last(), kind, i);
        let rest: Seq<char> = if commits.last().kind == kind {
            commit_line(commits.last())
        } else {
            Seq::empty()
        };
        lemma_contains_in_middle(Seq::empty(), prev, rest, p);
        assert(Seq::<char>::empty() + prev + rest =~= kind_lines(commits, kind));
    }
}

proof fn lemma_section_holds(title: Seq<char>, commits: Seq<PlannedCommit>, i: int)
    requires
        0 <= i < commits.len(),
    ensures
        contains_seq(section_text(title, commits, commits[i].kind), commit_entry(commits[i])),
{
    let k = commits[i].kind;
    assert(has_kind(commits, k));
    lemma_kind_lines_hold(commits, k, i);
    lemma_contains_in_middle("### "@ + title + "\n"@, kind_lines(commits, k), "\n"@, commit_entry(commits[i]));
}

/// Every commit of the plan is listed in its release notes, with its
/// subject and the first seven bytes of its hash, whatever its kind.
pub proof fn lemma_every_commit_listed(plan: ReleasePlan, i: int)
    requires
        0 <= i < plan.commits@.len(),
    ensures
        contains_seq(
            markdown_text(plan),
            "- "@ + plan.commits@[i].subject@ + " ("@ + short_hash_text(plan.commits@[i].hash@) + ")"@,
        ),
{
    let c = plan.commits@;
    let head = "## "@ + version_text(plan.next_version) + "\n\n"@ + (match plan.base_tag {
        Some(t) => "Changes since `"@ + t@ + "`\n\n"@,
        None => Seq::empty(),
    });
    let s1 = section_text("Features"@, c, CommitKind::Feature);
    let s2 = section_text("Fixes"@, c, CommitKind::Fix);
    let s3 = section_text("Refactors"@, c, CommitKind::Refactor);
    let s4 = section_text("Documentation"@, c, CommitKind::Documentation);
    let s5 = section_text("Chores"@, c, CommitKind::Chore);
    let s6 = section_text("Other"@, c, CommitKind::Other);
    let m = markdown_text(plan);
    assert(m == head + s1 + s2 + s3 + s4 + s5 + s6);
    let e = commit_entry(c[i]);
    match c[i].kind {
        CommitKind::Feature => {
            lemma_section_holds("Features"@, c, i);
            lemma_contains_in_middle(head, s1, s2 + s3 + s4 + s5 + s6, e);
            assert(head + s1 + (s2 + s3 + s4 + s5 + s6) =~= m);
        },
        CommitKind::Fix => {
            lemma_section_holds("Fixes"@, c, i);
            lemma_contains_in_middle(head + s1, s2, s3 + s4 + s5 + s6, e);
            assert(head + s1 + s2 + (s3 + s4 + s5 + s6) =~= m);
        },
        CommitKind::Refactor => {
            lemma_section_holds("Refactors"@, c, i);
            lemma_contains_in_middle(head + s1 + s2, s3, s4 + s5 + s6, e);
            assert(head + s1 + s2 + s3 + (s4 + s5 + s6) =~= m);
        },
        CommitKind::Documentation => {
            lemma_section_holds("Documentation"@, c, i);
            lemma_contains_in_middle(head + s1 + s2 + s3, s4, s5 + s6, e);
            assert(head + s1 + s2 + s3 + s4 + (s5 + s6) =~= m);
        },
        CommitKind::Chore => {
            lemma_section_holds("Chores"@, c, i);
            lemma_contains_in_middle(head + s1 + s2 + s3 + s4, s5, s6, e);
        },
        CommitKind::Other => {
            lemma_section_holds("Other"@, c, i);
            lemma_contains_in_middle(head + s1 + s2 + s3 + s4 + s5, s6, Seq::empty(), e);
            assert(head + s1 + s2 + s3 + s4 + s5 + s6 + Seq::<char>::empty() =~= m);
        },
    }
}

} // verus!
