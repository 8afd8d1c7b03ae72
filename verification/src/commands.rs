//! The texts the commands produce: tag names, titles, release notes and the
//! body of the release pull request.

use vstd::prelude::*;

use crate::changelog::{hashes_cut_ok, markdown_text, render_markdown};
use crate::release_plan::ReleasePlan;
use crate::git::args_view;
use crate::text::{owned, push_str, replace_all, replace_str};
use crate::version::{version_text, Version};
use crate::versioning::bump_label;

verus! {

/// The list of changed manifests, one Markdown item each.
pub open spec fn manifest_lines(manifests: Seq<Seq<char>>) -> Seq<char>
    decreases manifests.len(),
{
    if manifests.len() == 0 {
        Seq::empty()
    } else {
        manifest_lines(manifests.drop_last()) + "- `"@ + manifests.last() + "`\n"@
    }
}

/// The body of the release pull request: the versions and the bump, the
/// changed manifests, then the release notes.
pub open spec fn pr_body_text(plan: ReleasePlan, manifests: Seq<Seq<char>>) -> Seq<char> {
    "## Release PR\n\n- Current version: `"@ + version_text(plan.current_version) + "`\n- Next version: `"@
        + version_text(plan.next_version) + "`\n- Bump: `"@ + bump_label(plan.bump_level)
        + "`\n\n## Changed manifests\n"@ + manifest_lines(manifests) + "\n"@ + markdown_text(plan)
}

/// The tag of a release: the template with the version in place of every
/// `{{ version }}`.
pub open spec fn release_tag_text(template: Seq<char>, version: Version) -> Seq<char> {
    replace_all(template, "{{ version }}"@, version_text(version))
}

/// The body of the release pull request for `plan`, listing the manifests
/// (as they are displayed) whose version it changes.
pub fn release_pr_body(plan: &ReleasePlan, changed_manifests: &[String]) -> (body: String)
    requires
        hashes_cut_ok(plan.commits@),
    ensures
        body@ == pr_body_text(*plan, changed_manifests@.map_values(|m: String| m@)),
{
    let mut body = owned("## Release PR\n\n- Current version: `");
    let current = plan.current_version.to_string();
    push_str(&mut body, current.as_str());
    push_str(&mut body, "`\n- Next version: `");
    let next = plan.next_version.to_string();
    push_str(&mut body, next.as_str());
    push_str(&mut body, "`\n- Bump: `");
    push_str(&mut body, plan.bump_level.as_str());
    push_str(&mut body, "`\n\n## Changed manifests\n");
    let ghost head = body@;
    let ghost shown = changed_manifests@.map_values(|m: String| m@);
    let n = changed_manifests.len();
    for i in 0..n
        invariant
            n == changed_manifests@.len(),
            shown == changed_manifests@.map_values(|m: String| m@),
            body@ == head + manifest_lines(shown.take(i as int)),
    {
        push_str(&mut body, "- `");
        push_str(&mut body, changed_manifests[i].as_str());
        push_str(&mut body, "`\n");
        proof {
            assert(shown.take(i + 1).drop_last() =~= shown.take(i as int));
            assert(shown.take(i + 1).last() == changed_manifests@[i as int]@);
        }
    }
    assert(shown.take(n as int) =~= shown);
    push_str(&mut body, "\n");
    let notes = render_markdown(plan);
    push_str(&mut body, notes.as_str());
    body
}

/// The tag of a release of `version` under `tag_template`.
pub fn release_tag_name(tag_template: &str, version: &Version) -> (tag: String)
    ensures
        tag@ == release_tag_text(tag_template@, *version),
{
    proof {
        reveal_strlit("{{ version }}");
    }
    let v = version.to_string();
    replace_str(tag_template, "{{ version }}", v.as_str())
}

/// The title of the release pull request: `chore(release): v<version>`.
pub fn release_pr_title(version: &Version) -> (title: String)
    ensures
        title@ == "chore(release): v"@ + version_text(*version),
{
    let mut title = owned("chore(release): v");
    let v = version.to_string();
    push_str(&mut title, v.as_str());
    title
}

/// The title of a release, also the message of its tag: `Release <version>`.
pub fn release_title(version: &Version) -> (title: String)
    ensures
        title@ == "Release "@ + version_text(*version),
{
    let mut title = owned("Release ");
    let v = version.to_string();
    push_str(&mut title, v.as_str());
    title
}

/// The notes of the GitHub release made when a release is published.
pub fn publish_notes(version: &Version) -> (notes: String)
    ensures
        notes@ == "Automated publish for `"@ + version_text(*version)
            + "`.\n\nThis release is created after the release PR merge."@,
{
    let mut notes = owned("Automated publish for `");
    let v = version.to_string();
    push_str(&mut notes, v.as_str());
    push_str(&mut notes, "`.\n\nThis release is created after the release PR merge.");
    notes
}

/// A step of tagging a release.
#[derive(Debug, PartialEq, Eq)]
pub enum TagAction {
    /// Create the annotated tag `tag` with `message`.
    CreateTag { tag: String, message: String },
    /// Push the tag to `origin`.
    PushTag { tag: String },
    /// Show how to push the tag by hand.
    PushHint { tag: String },
}

/// A step of publishing a release.
#[derive(Debug, PartialEq, Eq)]
pub enum PublishAction {
    /// Create the annotated tag `tag` with `message`.
    CreateTag { tag: String, message: String },
    /// Push the tag to `origin`.
    PushTag { tag: String },
    /// Create or update the GitHub release of the tag.
    CreateRelease { tag: String, title: String, notes: String },
}

/// Why the release pull request cannot be prepared.
#[derive(Debug, Clone, Copy, PartialEq, Eq, Structural)]
pub enum ReleasePrError {
    /// No manifest had a version to update.
    NoVersionFields,
}

impl ReleasePrError {
    /// The message of the error (what `Display` shows).
    pub fn to_string(&self) -> (s: String)
        ensures
            s@ == "no Cargo.toml version fields found to update"@,
    {
        owned("no Cargo.toml version fields found to update")
    }
}

/// `a` creates tag `tag` with `message`.
pub open spec fn creates_tag(a: TagAction, tag: Seq<char>, message: Seq<char>) -> bool {
    a matches TagAction::CreateTag { tag: t, message: m } && t@ == tag && m@ == message
}

/// The steps of tagging the release of `next` as `tag`: none in a dry run;
/// else create the tag with the message `Release <version>`, then push it
/// when `push` is set, or show how to push it.
pub fn release_tag_actions(tag: &str, next: &Version, dry_run: bool, push: bool) -> (r: Vec<TagAction>)
    ensures
        dry_run ==> r@.len() == 0,
        !dry_run ==> r@.len() == 2 && creates_tag(r@[0], tag@, "Release "@ + version_text(*next)) && if push {
            r@[1] matches TagAction::PushTag { tag: t } && t@ == tag@
        } else {
            r@[1] matches TagAction::PushHint { tag: t } && t@ == tag@
        },
{
    let mut r: Vec<TagAction> = Vec::new();
    if dry_run {
        return r;
    }
    r.push(TagAction::CreateTag { tag: owned(tag), message: release_title(next) });
    if push {
        r.push(TagAction::PushTag { tag: owned(tag) });
    } else {
        r.push(TagAction::PushHint { tag: owned(tag) });
    }
    r
}

/// The steps of publishing version `v` as `tag`: none in a dry run; else
/// create the tag with the message `Release <version>`, then push it when
/// `push` is set, then create the GitHub release (titled `Release <version>`,
/// with the publish notes) when `create_release` is set.
pub fn publish_actions(tag: &str, v: &Version, dry_run: bool, push: bool, create_release: bool) -> (r: Vec<
    PublishAction,
>)
    ensures
        dry_run ==> r@.len() == 0,
        !dry_run ==> {
            &&& r@.len() == 1 + (if push {
                1int
            } else {
                0int
            }) + (if create_release {
                1int
            } else {
                0int
            })
            &&& r@[0] matches PublishAction::CreateTag { tag: t, message: m } && t@ == tag@ && m@ == "Release "@
                + version_text(*v)
            &&& push ==> (r@[1] matches PublishAction::PushTag { tag: t } && t@ == tag@)
            &&& create_release ==> (r@.last() matches PublishAction::CreateRelease { tag: t, title, notes } && t@
                == tag@ && title@ == "Release "@ + version_text(*v) && notes@ == "Automated publish for `"@
                + version_text(*v) + "`.\n\nThis release is created after the release PR merge."@)
        },
{
    let mut r: Vec<PublishAction> = Vec::new();
    if dry_run {
        return r;
    }
    r.push(PublishAction::CreateTag { tag: owned(tag), message: release_title(v) });
    if push {
        r.push(PublishAction::PushTag { tag: owned(tag) });
    }
    if create_release {
        r.push(PublishAction::CreateRelease { tag: owned(tag), title: release_title(v), notes: publish_notes(v) });
    }
    r
}

/// The files the release commit stages: the changed manifests, then
/// `Cargo.lock` when it changed; refused when no manifest changed.
pub fn release_pr_files(changed_manifests: Vec<String>, lock_changed: bool) -> (r: Result<Vec<String>, ReleasePrError>)
    ensures
        changed_manifests@.len() == 0 <==> r is Err,
        r matches Ok(files) ==> args_view(files@) == args_view(changed_manifests@) + if lock_changed {
            seq!["Cargo.lock"@]
        } else {
            Seq::<Seq<char>>::empty()
        },
{
    if changed_manifests.len() == 0 {
        return Err(ReleasePrError::NoVersionFields);
    }
    let ghost before = changed_manifests@;
    let mut files = changed_manifests;
    if lock_changed {
        files.push(owned("Cargo.lock"));
        assert(args_view(files@) =~= args_view(before) + seq!["Cargo.lock"@]);
    } else {
        assert(args_view(files@) =~= args_view(before) + Seq::<Seq<char>>::empty());
    }
    Ok(files)
}

} // verus!
