//! What the release flow asks of git, and how git's answers are read.
//!
//! Running git is the caller's business; this module builds the argument
//! lists and reads the output.

use vstd::prelude::*;

use crate::text::{chars_of, owned, push_str, string_from_chars, trim, trim_chars, trim_str};

verus! {

/// A commit read from `git log`.
#[derive(Debug, PartialEq, Eq)]
pub struct CommitRecord {
    pub hash: String,
    pub subject: String,
    pub body: String,
}

/// Why a git step is refused.
#[derive(Debug, PartialEq, Eq)]
pub enum GitError {
    /// The tag to create exists already.
    TagExists(String),
}

/// The record separator `git log` is asked to put after each commit.
pub open spec fn record_separator() -> char {
    '\u{1e}'
}

/// The field separator `git log` is asked to put between hash, subject and body.
pub open spec fn field_separator() -> char {
    '\u{1f}'
}

/// The pieces of `s` between occurrences of `c`, the current piece starting
/// as `cur` (`str::split(c)`).
pub open spec fn split_from(s: Seq<char>, c: char, cur: Seq<char>) -> Seq<Seq<char>>
    decreases s.len(),
{
    if s.len() == 0 {
        seq![cur]
    } else if s[0] == c {
        seq![cur] + split_from(s.drop_first(), c, Seq::empty())
    } else {
        split_from(s.drop_first(), c, cur.push(s[0]))
    }
}

/// The pieces of `s` between occurrences of `c` (`str::split(c)`).
pub open spec fn split_char(s: Seq<char>, c: char) -> Seq<Seq<char>> {
    split_from(s, c, Seq::empty())
}

/// The `k`-th piece, empty when there are fewer.
pub open spec fn piece(parts: Seq<Seq<char>>, k: int) -> Seq<char> {
    if 0 <= k < parts.len() {
        parts[k]
    } else {
        Seq::empty()
    }
}

/// The trimmed hash, subject and body of a (trimmed) log row.
pub open spec fn row_fields(row: Seq<char>) -> (Seq<char>, Seq<char>, Seq<char>) {
    let parts = split_char(row, field_separator());
    (trim(piece(parts, 0)), trim(piece(parts, 1)), trim(piece(parts, 2)))
}

/// The commits of the rows: blank rows and rows without hash or subject are
/// skipped.
pub open spec fn log_records(rows: Seq<Seq<char>>) -> Seq<(Seq<char>, Seq<char>, Seq<char>)>
    decreases rows.len(),
{
    if rows.len() == 0 {
        Seq::empty()
    } else {
        let rest = log_records(rows.drop_last());
        let row = trim(rows.last());
        let f = row_fields(row);
        if row.len() == 0 || f.0.len() == 0 || f.1.len() == 0 {
            rest
        } else {
            rest.push(f)
        }
    }
}

/// The hash, subject and body of each record.
pub open spec fn records_view(v: Seq<CommitRecord>) -> Seq<(Seq<char>, Seq<char>, Seq<char>)> {
    v.map_values(|r: CommitRecord| (r.hash@, r.subject@, r.body@))
}

/// The texts of a list of strings.
pub open spec fn args_view(v: Seq<String>) -> Seq<Seq<char>> {
    v.map_values(|s: String| s@)
}

/// The pieces of `s` between occurrences of `c`.
pub fn split_chars(s: &[char], c: char) -> (r: Vec<Vec<char>>)
    ensures
        r@.map_values(|p: Vec<char>| p@) == split_char(s@, c),
{
    let n = s.len();
    let mut pieces: Vec<Vec<char>> = Vec::new();
    let mut cur: Vec<char> = Vec::new();
    let mut i: usize = 0;
    assert(s@.skip(0) =~= s@);
    assert(pieces@.map_values(|p: Vec<char>| p@) =~= Seq::<Seq<char>>::empty());
    while i < n
        invariant
            n == s@.len(),
            i <= n,
            split_char(s@, c) == pieces@.map_values(|p: Vec<char>| p@) + split_from(s@.skip(i as int), c, cur@),
        decreases n - i,
    {
        let ghost rest = s@.skip(i as int);
        assert(rest[0] == s@[i as int]);
        assert(rest.drop_first() =~= s@.skip(i + 1));
        if s[i] == c {
            let ghost before = pieces@;
            let ghost cv = cur@;
            pieces.push(cur);
            cur = Vec::new();
            proof {
                assert(pieces@.map_values(|p: Vec<char>| p@) =~= before.map_values(|p: Vec<char>| p@).push(cv));
                assert(split_from(rest, c, cv) == seq![cv] + split_from(s@.skip(i + 1), c, cur@));
                assert(before.map_values(|p: Vec<char>| p@) + (seq![cv] + split_from(s@.skip(i + 1), c, cur@))
                    =~= before.map_values(|p: Vec<char>| p@).push(cv) + split_from(s@.skip(i + 1), c, cur@));
            }
        } else {
            cur.push(s[i]);
        }
        i = i + 1;
    }
    let ghost before = pieces@;
    let ghost cv = cur@;
    pieces.push(cur);
    proof {
        assert(s@.skip(n as int).len() == 0);
        assert(pieces@.map_values(|p: Vec<char>| p@) =~= before.map_values(|p: Vec<char>| p@).push(cv));
        assert(before.map_values(|p: Vec<char>| p@) + seq![cv] =~= before.map_values(|p: Vec<char>| p@).push(cv));
    }
    pieces
}

/// The trimmed `k`-th piece as a string, empty when there are fewer pieces.
fn piece_text(parts: &Vec<Vec<char>>, k: usize) -> (r: String)
    ensures
        r@ == trim(piece(parts@.map_values(|p: Vec<char>| p@), k as int)),
{
    if k < parts.len() {
        let t = trim_chars(parts[k].as_slice());
        string_from_chars(t.as_slice())
    } else {
        let e: Vec<char> = Vec::new();
        let t = trim_chars(e.as_slice());
        assert(e@ =~= Seq::<char>::empty());
        string_from_chars(t.as_slice())
    }
}

/// The commits in the output of `git log` run with `collect_commits_args`:
/// rows end at the record separator, fields are split at the field
/// separator, and rows without hash or subject are skipped.
pub fn collect_commits(raw: &str) -> (r: Vec<CommitRecord>)
    ensures
        records_view(r@) == log_records(split_char(raw@, record_separator())),
{
    let chars = chars_of(raw);
    let rows = split_chars(chars.as_slice(), '\u{1e}');
    let ghost rv = rows@.map_values(|p: Vec<char>| p@);
    let n = rows.len();
    let mut commits: Vec<CommitRecord> = Vec::new();
    for i in 0..n
        invariant
            n == rows@.len(),
            rv == rows@.map_values(|p: Vec<char>| p@),
            rv == split_char(raw@, record_separator()),
            records_view(commits@) == log_records(rv.take(i as int)),
    {
        let row = trim_chars(rows[i].as_slice());
        let ghost before = commits@;
        assert(rv.take(i + 1).drop_last() =~= rv.take(i as int));
        assert(rv.take(i + 1).last() == rows@[i as int]@);
        if row.len() > 0 {
            let parts = split_chars(row.as_slice(), '\u{1f}');
            let hash = piece_text(&parts, 0);
            let subject = piece_text(&parts, 1);
            let body = piece_text(&parts, 2);
            if !hash.as_str().is_empty() && !subject.as_str().is_empty() {
                commits.push(CommitRecord { hash, subject, body });
                proof {
                    assert(records_view(commits@) =~= records_view(before).push((hash@, subject@, body@)));
                }
            }
        }
    }
    assert(rv.take(n as int) =~= rv);
    commits
}

/// The arguments of the `git log` run whose output `collect_commits` reads:
/// every commit, or those after `from_tag` when one is given.
pub fn collect_commits_args(from_tag: Option<&str>) -> (r: Vec<String>)
    ensures
        args_view(r@) == seq!["log"@, "--pretty=format:%H%x1f%s%x1f%b%x1e"@] + match from_tag {
            Some(t) => seq![t@ + "..HEAD"@],
            None => Seq::<Seq<char>>::empty(),
        },
{
    let mut args: Vec<String> = Vec::new();
    args.push(owned("log"));
    args.push(owned("--pretty=format:%H%x1f%s%x1f%b%x1e"));
    match from_tag {
        Some(tag) => {
            let mut range = owned(tag);
            push_str(&mut range, "..HEAD");
            args.push(range);
        },
        None => {},
    }
    proof {
        assert(args_view(args@) =~= seq!["log"@, "--pretty=format:%H%x1f%s%x1f%b%x1e"@] + match from_tag {
            Some(t) => seq![t@ + "..HEAD"@],
            None => Seq::<Seq<char>>::empty(),
        });
    }
    args
}

/// The latest tag from `git describe --tags --abbrev=0`: none when the
/// command failed or printed only whitespace, else the trimmed output.
pub fn latest_tag(succeeded: bool, stdout: &str) -> (r: Option<String>)
    ensures
        !succeeded ==> r is None,
        succeeded ==> (trim(stdout@).len() == 0 <==> r is None),
        r matches Some(t) ==> t@ == trim(stdout@),
{
    if !succeeded {
        return None;
    }
    let tag = trim_str(stdout);
    if tag.as_str().is_empty() {
        None
    } else {
        Some(tag)
    }
}

/// The arguments of the `git rev-parse` run whose success says the tag exists.
pub fn tag_exists_args(tag_name: &str) -> (r: Vec<String>)
    ensures
        args_view(r@) == seq!["rev-parse"@, "--verify"@, "--quiet"@, "refs/tags/"@ + tag_name@],
{
    let mut spec_ref = owned("refs/tags/");
    push_str(&mut spec_ref, tag_name);
    let mut args: Vec<String> = Vec::new();
    args.push(owned("rev-parse"));
    args.push(owned("--verify"));
    args.push(owned("--quiet"));
    args.push(spec_ref);
    assert(args_view(args@) =~= seq!["rev-parse"@, "--verify"@, "--quiet"@, "refs/tags/"@ + tag_name@]);
    args
}

/// The `git` arguments that create an annotated tag, refused when the tag
/// exists already.
pub fn create_annotated_tag(tag_exists: bool, tag_name: &str, message: &str) -> (r: Result<Vec<String>, GitError>)
    ensures
        match r {
            Err(GitError::TagExists(t)) => tag_exists && t@ == tag_name@,
            Ok(args) => !tag_exists && args_view(args@) == seq!["tag"@, "-a"@, tag_name@, "-m"@, message@],
        },
{
    if tag_exists {
        return Err(GitError::TagExists(owned(tag_name)));
    }
    let mut args: Vec<String> = Vec::new();
    args.push(owned("tag"));
    args.push(owned("-a"));
    args.push(owned(tag_name));
    args.push(owned("-m"));
    args.push(owned(message));
    assert(args_view(args@) =~= seq!["tag"@, "-a"@, tag_name@, "-m"@, message@]);
    Ok(args)
}

/// The `git` arguments that push a tag to `origin`.
pub fn push_tag(tag_name: &str) -> (r: Vec<String>)
    ensures
        args_view(r@) == seq!["push"@, "origin"@, tag_name@],
{
    let mut args: Vec<String> = Vec::new();
    args.push(owned("push"));
    args.push(owned("origin"));
    args.push(owned(tag_name));
    assert(args_view(args@) =~= seq!["push"@, "origin"@, tag_name@]);
    args
}

/// The non-empty pieces, in order.
pub open spec fn non_empty(parts: Seq<Seq<char>>) -> Seq<Seq<char>>
    decreases parts.len(),
{
    if parts.len() == 0 {
        Seq::empty()
    } else if parts.last().len() == 0 {
        non_empty(parts.drop_last())
    } else {
        non_empty(parts.drop_last()).push(parts.last())
    }
}

/// The files listed one per line, each as its path components: lines are
/// trimmed, blank lines skipped, and a path is split at `/` with empty
/// components dropped.
pub open spec fn listed_files(lines: Seq<Seq<char>>) -> Seq<Seq<Seq<char>>>
    decreases lines.len(),
{
    if lines.len() == 0 {
        Seq::empty()
    } else {
        let rest = listed_files(lines.drop_last());
        let line = trim(lines.last());
        if line.len() == 0 {
            rest
        } else {
            rest.push(non_empty(split_char(line, '/')))
        }
    }
}

/// The non-empty pieces as strings.
fn non_empty_strings(parts: &Vec<Vec<char>>) -> (r: Vec<String>)
    ensures
        r@.map_values(|s: String| s@) == non_empty(parts@.map_values(|p: Vec<char>| p@)),
{
    let ghost pv = parts@.map_values(|p: Vec<char>| p@);
    let n = parts.len();
    let mut r: Vec<String> = Vec::new();
    for i in 0..n
        invariant
            n == parts@.len(),
            pv == parts@.map_values(|p: Vec<char>| p@),
            r@.map_values(|s: String| s@) == non_empty(pv.take(i as int)),
    {
        let ghost before = r@;
        assert(pv.take(i + 1).drop_last() =~= pv.take(i as int));
        assert(pv.take(i + 1).last() == parts@[i as int]@);
        if parts[i].len() > 0 {
            let piece = string_from_chars(parts[i].as_slice());
            r.push(piece);
            assert(r@.map_values(|s: String| s@) =~= before.map_values(|s: String| s@).push(piece@));
        }
    }
    assert(pv.take(n as int) =~= pv);
    r
}

/// The files in the output of the run of `changed_files_args`, one per line,
/// each as its path components.
pub fn changed_files(raw: &str) -> (r: Vec<Vec<String>>)
    ensures
        r@.map_values(|p: Vec<String>| p@.map_values(|s: String| s@)) == listed_files(split_char(raw@, '\n')),
{
    let chars = chars_of(raw);
    let lines = split_chars(chars.as_slice(), '\n');
    let ghost lv = lines@.map_values(|p: Vec<char>| p@);
    let n = lines.len();
    let mut files: Vec<Vec<String>> = Vec::new();
    for i in 0..n
        invariant
            n == lines@.len(),
            lv == lines@.map_values(|p: Vec<char>| p@),
            lv == split_char(raw@, '\n'),
            files@.map_values(|p: Vec<String>| p@.map_values(|s: String| s@)) == listed_files(lv.take(i as int)),
    {
        let ghost before = files@;
        assert(lv.take(i + 1).drop_last() =~= lv.take(i as int));
        assert(lv.take(i + 1).last() == lines@[i as int]@);
        let line = trim_chars(lines[i].as_slice());
        if line.len() > 0 {
            let parts = split_chars(line.as_slice(), '/');
            let file = non_empty_strings(&parts);
            files.push(file);
            proof {
                assert(files@.map_values(|p: Vec<String>| p@.map_values(|s: String| s@)) =~= before.map_values(
                    |p: Vec<String>| p@.map_values(|s: String| s@),
                ).push(file@.map_values(|s: String| s@)));
            }
        }
    }
    assert(lv.take(n as int) =~= lv);
    files
}

/// A list of arguments from string slices.
pub fn args_of(parts: &[&str]) -> (r: Vec<String>)
    ensures
        args_view(r@) == parts@.map_values(|s: &str| s@),
{
    let n = parts.len();
    let mut r: Vec<String> = Vec::new();
    for i in 0..n
        invariant
            n == parts@.len(),
            args_view(r@) == parts@.take(i as int).map_values(|s: &str| s@),
    {
        let ghost before = r@;
        let item = owned(parts[i]);
        r.push(item);
        assert(r@ == before.push(item));
        assert(args_view(r@) =~= args_view(before).push(parts@[i as int]@));
        assert(parts@.take(i + 1) =~= parts@.take(i as int).push(parts@[i as int]));
        assert(args_view(r@) =~= parts@.take(i + 1).map_values(|s: &str| s@));
    }
    assert(parts@.take(n as int) =~= parts@);
    r
}

/// The arguments that list the files a commit touches, one per line.
pub fn changed_files_args(hash: &str) -> (r: Vec<String>)
    ensures
        args_view(r@) == seq!["show"@, "--name-only"@, "--format="@, hash@],
{
    let r = args_of(&["show", "--name-only", "--format=", hash]);
    assert(args_view(r@) =~= seq!["show"@, "--name-only"@, "--format="@, hash@]);
    r
}

/// The arguments of the `git describe` run whose output `latest_tag` reads.
pub fn latest_tag_args() -> (r: Vec<String>)
    ensures
        args_view(r@) == seq!["describe"@, "--tags"@, "--abbrev=0"@],
{
    let r = args_of(&["describe", "--tags", "--abbrev=0"]);
    assert(args_view(r@) =~= seq!["describe"@, "--tags"@, "--abbrev=0"@]);
    r
}

/// The arguments that switch to `branch`, created or reset at the current commit.
pub fn checkout_branch_args(branch: &str) -> (r: Vec<String>)
    ensures
        args_view(r@) == seq!["checkout"@, "-B"@, branch@],
{
    let r = args_of(&["checkout", "-B", branch]);
    assert(args_view(r@) =~= seq!["checkout"@, "-B"@, branch@]);
    r
}

/// The arguments that stage `files`.
pub fn add_files_args(files: &Vec<String>) -> (r: Vec<String>)
    ensures
        args_view(r@) == seq!["add"@, "--"@] + args_view(files@),
{
    let mut r = args_of(&["add", "--"]);
    let n = files.len();
    for i in 0..n
        invariant
            n == files@.len(),
            args_view(r@) == seq!["add"@, "--"@] + args_view(files@.take(i as int)),
    {
        let ghost before = r@;
        r.push(files[i].clone());
        assert(args_view(r@) =~= args_view(before).push(files@[i as int]@));
        assert(args_view(files@.take(i + 1)) =~= args_view(files@.take(i as int)).push(files@[i as int]@));
    }
    assert(files@.take(n as int) =~= files@);
    r
}

/// The arguments of the `git diff` run whose failure says something is staged.
pub fn staged_changes_args() -> (r: Vec<String>)
    ensures
        args_view(r@) == seq!["diff"@, "--cached"@, "--quiet"@],
{
    let r = args_of(&["diff", "--cached", "--quiet"]);
    assert(args_view(r@) =~= seq!["diff"@, "--cached"@, "--quiet"@]);
    r
}

/// The arguments that push `branch` to `origin`, unless the remote moved.
pub fn push_branch_args(branch: &str) -> (r: Vec<String>)
    ensures
        args_view(r@) == seq!["push"@, "--force-with-lease"@, "origin"@, branch@],
{
    let r = args_of(&["push", "--force-with-lease", "origin", branch]);
    assert(args_view(r@) =~= seq!["push"@, "--force-with-lease"@, "origin"@, branch@]);
    r
}

/// The release commit: its arguments when something is staged, `None` when
/// the versions were already up to date.
pub fn commit_args(something_staged: bool, message: &str) -> (r: Option<Vec<String>>)
    ensures
        something_staged <==> r is Some,
        r matches Some(a) ==> args_view(a@) == seq!["commit"@, "-m"@, message@],
{
    if !something_staged {
        return None;
    }
    let r = args_of(&["commit", "-m", message]);
    assert(args_view(r@) =~= seq!["commit"@, "-m"@, message@]);
    Some(r)
}

/// The components of a path joined with `/`.
pub open spec fn joined_path(p: Seq<Seq<char>>) -> Seq<char>
    decreases p.len(),
{
    if p.len() == 0 {
        Seq::empty()
    } else if p.len() == 1 {
        p[0]
    } else {
        joined_path(p.drop_last()) + "/"@ + p.last()
    }
}

/// The arguments of the `git log` run that finds the latest commit whose
/// change to the manifest matches the line `version = "<version>"`.
pub fn version_commit_args(manifest_path: &Vec<String>, version: &str) -> (r: Vec<String>)
    ensures
        args_view(r@) == seq![
            "log"@,
            "-n"@,
            "1"@,
            "--format=%H"@,
            "-G"@,
            "^version = \""@ + version@ + "\""@,
            "--"@,
            joined_path(args_view(manifest_path@)),
        ],
{
    let mut pattern = owned("^version = \"");
    push_str(&mut pattern, version);
    push_str(&mut pattern, "\"");
    let mut path = String::new();
    let n = manifest_path.len();
    for i in 0..n
        invariant
            n == manifest_path@.len(),
            path@ == joined_path(args_view(manifest_path@.take(i as int))),
    {
        let ghost prev = args_view(manifest_path@.take(i as int));
        assert(args_view(manifest_path@.take(i + 1)).drop_last() =~= prev);
        assert(args_view(manifest_path@.take(i + 1)).last() == manifest_path@[i as int]@);
        if i > 0 {
            push_str(&mut path, "/");
        } else {
            assert(path@ =~= Seq::<char>::empty());
        }
        push_str(&mut path, manifest_path[i].as_str());
        proof {
            if i == 0 {
                assert(path@ =~= manifest_path@[0]@);
            }
        }
    }
    assert(manifest_path@.take(n as int) =~= manifest_path@);
    let r = args_of(&["log", "-n", "1", "--format=%H", "-G", pattern.as_str(), "--", path.as_str()]);
    assert(args_view(r@) =~= seq![
        "log"@,
        "-n"@,
        "1"@,
        "--format=%H"@,
        "-G"@,
        "^version = \""@ + version@ + "\""@,
        "--"@,
        joined_path(args_view(manifest_path@)),
    ]);
    r
}

/// The commit in the output of the run of `version_commit_args`: none when
/// it printed only whitespace, else the trimmed output.
pub fn version_commit(stdout: &str) -> (r: Option<String>)
    ensures
        trim(stdout@).len() == 0 <==> r is None,
        r matches Some(c) ==> c@ == trim(stdout@),
{
    latest_tag(true, stdout)
}

impl GitError {
    /// The message of the error (what `Display` shows).
    pub fn to_string(&self) -> (s: String)
        ensures
            match self {
                GitError::TagExists(t) => s@ == "tag "@ + t@ + " already exists"@,
            },
    {
        match self {
            GitError::TagExists(t) => {
                let mut s = owned("tag ");
                push_str(&mut s, t.as_str());
                push_str(&mut s, " already exists");
                s
            },
        }
    }
}

} // verus!
