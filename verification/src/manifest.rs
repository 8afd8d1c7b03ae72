//! Reading package manifests and rewriting the versions in manifests and
//! lock files, keeping their formatting.

use vstd::prelude::*;

use crate::path::{cur_dir, path_view, is_cur_dir};
use crate::release::{CrateInfo, CrateReleasePlan, ReleaseError};
use crate::text::chars_of;
use crate::version::{spec_semver_parse_version, version_text, Version};

verus! {

// ---------------------------------------------------------------------------
// Trusted calls into `toml` and `toml_edit`
// ---------------------------------------------------------------------------

/// A TOML document that keeps its formatting (`toml_edit::DocumentMut`).
#[verifier::external_type_specification]
#[verifier::external_body]
pub struct ExDocumentMut(toml_edit::DocumentMut);

/// What parsing a manifest as a TOML value yields for it: `None` when the
/// text is not valid TOML, else the string values of `package.name` and
/// `package.version` (`None` where the key is missing or not a string). It
/// depends on the text alone.
pub uninterp spec fn spec_manifest_package(text: Seq<char>) -> Option<(Option<Seq<char>>, Option<Seq<char>>)>;

/// What the release flow reads of a `toml_edit` document: the name and
/// version strings of each `[[package]]` table (`None` when `package` is not
/// an array of tables), and the `package.version` and
/// `workspace.package.version` entries (`None` when the table or the key is
/// missing; `Some(None)` when the value is not a string); and the rest of
/// the document (see `spec_document_rest`).
pub struct DocumentView {
    pub lock: Option<Seq<(Option<Seq<char>>, Option<Seq<char>>)>>,
    pub package_version: Option<Option<Seq<char>>>,
    pub workspace_version: Option<Option<Seq<char>>>,
    pub rest: Seq<char>,
}

/// What `toml_edit` parses from a text, by its view: `None` when it rejects
/// the text. It depends on the text alone.
pub uninterp spec fn spec_parse_document(text: Seq<char>) -> Option<DocumentView>;

/// The `[[package]]` tables of a document: the string values of each
/// table's `name` and `version`, in order; `None` when `package` is not an
/// array of tables.
pub uninterp spec fn spec_lock_packages(doc: toml_edit::DocumentMut) -> Option<Seq<(Option<Seq<char>>, Option<Seq<char>>)>>;

/// The `version` entry of the document's `package` table.
pub uninterp spec fn spec_package_version(doc: toml_edit::DocumentMut) -> Option<Option<Seq<char>>>;

/// The `version` entry of the document's `workspace.package` table.
pub uninterp spec fn spec_workspace_version(doc: toml_edit::DocumentMut) -> Option<Option<Seq<char>>>;

/// The text of a document, as its `Display` writes it.
pub uninterp spec fn spec_document_text(doc: toml_edit::DocumentMut) -> Seq<char>;

/// The rest of a document: the text it displays once the `version` entries
/// of the `package` table, of the `workspace.package` table and of each
/// `[[package]]` table are taken out (key, value and their formatting).
pub uninterp spec fn spec_document_rest(doc: toml_edit::DocumentMut) -> Seq<char>;

/// The view of a document.
pub open spec fn document_view(doc: toml_edit::DocumentMut) -> DocumentView {
    DocumentView {
        lock: spec_lock_packages(doc),
        package_version: spec_package_version(doc),
        workspace_version: spec_workspace_version(doc),
        rest: spec_document_rest(doc),
    }
}

/// The text of an optional string.
pub open spec fn opt_text(o: Option<String>) -> Option<Seq<char>> {
    match o {
        Some(s) => Some(s@),
        None => None,
    }
}

/// `toml::Value`'s parse of a manifest, keeping only the string values of
/// `package.name` and `package.version`; the contract names the result
/// (`spec_manifest_package`).
#[verifier::external_body]
fn read_manifest_package(text: &str) -> (r: Option<(Option<String>, Option<String>)>)
    ensures
        match r {
            None => spec_manifest_package(text@) is None,
            Some(p) => spec_manifest_package(text@) == Some((opt_text(p.0), opt_text(p.1))),
        },
{
    text.parse::<toml::Value>().ok().map(
        |value| {
            let package = value.get("package");
            (
                package.and_then(|p| p.get("name")).and_then(|v| v.as_str()).map(|s| s.to_string()),
                package.and_then(|p| p.get("version")).and_then(|v| v.as_str()).map(|s| s.to_string()),
            )
        },
    )
}

/// `DocumentMut::from_str`: the document is the one `toml_edit` parses from
/// the text (`spec_parse_document`), taken by its view.
#[verifier::external_body]
fn parse_toml_document(text: &str) -> (r: Option<toml_edit::DocumentMut>)
    ensures
        match spec_parse_document(text@) {
            None => r is None,
            Some(view) => r matches Some(d) && document_view(d) == view,
        },
{
    text.parse::<toml_edit::DocumentMut>().ok()
}

/// `DocumentMut`'s `Display`: the document's text (`spec_document_text`).
#[verifier::external_body]
fn render_toml_document(doc: &toml_edit::DocumentMut) -> (r: String)
    ensures
        r@ == spec_document_text(*doc),
{
    doc.to_string()
}

/// The name and version strings of each `[[package]]` table, `None` when
/// `package` is not an array of tables (`spec_lock_packages`).
#[verifier::external_body]
fn lock_packages(doc: &toml_edit::DocumentMut) -> (r: Option<Vec<(Option<String>, Option<String>)>>)
    ensures
        match spec_lock_packages(*doc) {
            None => r is None,
            Some(p) => r matches Some(v) && package_views(v@) == p,
        },
{
    doc.get("package").and_then(|item| item.as_array_of_tables()).map(
        |tables| {
            tables.iter().map(
                |t| {
                    (
                        t.get("name").and_then(|v| v.as_str()).map(|s| s.to_string()),
                        t.get("version").and_then(|v| v.as_str()).map(|s| s.to_string()),
                    )
                },
            ).collect()
        },
    )
}

/// `Table::insert` of the string `version` under `version` in the
/// `index`-th `[[package]]` table: that table's version becomes `version`;
/// its name, the other tables, the `package` and `workspace.package`
/// version entries and the rest of the document stay.
#[verifier::external_body]
fn set_lock_package_version(doc: &mut toml_edit::DocumentMut, index: usize, version: &str)
    requires
        spec_lock_packages(*old(doc)) is Some,
        index < spec_lock_packages(*old(doc)).unwrap().len(),
    ensures
        spec_lock_packages(*final(doc)) == Some(
            spec_lock_packages(*old(doc)).unwrap().update(
                index as int,
                (spec_lock_packages(*old(doc)).unwrap()[index as int].0, Some(version@)),
            ),
        ),
        spec_package_version(*final(doc)) == spec_package_version(*old(doc)),
        spec_workspace_version(*final(doc)) == spec_workspace_version(*old(doc)),
        spec_document_rest(*final(doc)) == spec_document_rest(*old(doc)),
{
    if let Some(table) = doc.get_mut("package").and_then(|item| item.as_array_of_tables_mut()).and_then(
        |tables| tables.iter_mut().nth(index),
    ) {
        table.insert("version", toml_edit::value(version));
    }
}

/// Whether `package` is a table holding a `version` key
/// (`spec_package_version`).
#[verifier::external_body]
fn package_has_version(doc: &toml_edit::DocumentMut) -> (r: bool)
    ensures
        r == spec_package_version(*doc) is Some,
{
    match doc.get("package").and_then(|item| item.as_table_like()) {
        Some(table) => table.contains_key("version"),
        None => false,
    }
}

/// `insert` of the string `version` under `package.version`; the
/// `workspace.package` version, the `[[package]]` tables and the rest of
/// the document stay.
#[verifier::external_body]
fn set_package_version(doc: &mut toml_edit::DocumentMut, version: &str)
    requires
        spec_package_version(*old(doc)) is Some,
    ensures
        spec_package_version(*final(doc)) == Some(Some(version@)),
        spec_workspace_version(*final(doc)) == spec_workspace_version(*old(doc)),
        spec_lock_packages(*final(doc)) == spec_lock_packages(*old(doc)),
        spec_document_rest(*final(doc)) == spec_document_rest(*old(doc)),
{
    if let Some(table) = doc.get_mut("package").and_then(|item| item.as_table_like_mut()) {
        table.insert("version", toml_edit::value(version));
    }
}

/// Whether `workspace` is a table whose `package` is a table holding a
/// `version` key (`spec_workspace_version`).
#[verifier::external_body]
fn workspace_package_has_version(doc: &toml_edit::DocumentMut) -> (r: bool)
    ensures
        r == spec_workspace_version(*doc) is Some,
{
    match doc.get("workspace").and_then(|item| item.as_table_like()).and_then(|t| t.get("package")).and_then(
        |item| item.as_table_like(),
    ) {
        Some(table) => table.contains_key("version"),
        None => false,
    }
}

/// `insert` of the string `version` under `workspace.package.version`; the
/// `package` version, the `[[package]]` tables and the rest of the document
/// stay.
#[verifier::external_body]
fn set_workspace_package_version(doc: &mut toml_edit::DocumentMut, version: &str)
    requires
        spec_workspace_version(*old(doc)) is Some,
    ensures
        spec_workspace_version(*final(doc)) == Some(Some(version@)),
        spec_package_version(*final(doc)) == spec_package_version(*old(doc)),
        spec_lock_packages(*final(doc)) == spec_lock_packages(*old(doc)),
        spec_document_rest(*final(doc)) == spec_document_rest(*old(doc)),
{
    if let Some(table) = doc.get_mut("workspace").and_then(|item| item.as_table_like_mut()).and_then(
        |t| t.get_mut("package"),
    ).and_then(|item| item.as_table_like_mut()) {
        table.insert("version", toml_edit::value(version));
    }
}

// ---------------------------------------------------------------------------
// Specifications
// ---------------------------------------------------------------------------

/// The directory of a manifest: its path without the file name, `.` for a
/// manifest at the root.
pub open spec fn manifest_dir(manifest: Seq<Seq<char>>) -> Seq<Seq<char>> {
    if manifest.len() <= 1 {
        seq![seq!['.']]
    } else {
        manifest.drop_last()
    }
}

/// The position of the first plan for crate `name`.
pub open spec fn first_plan_for(plans: Seq<CrateReleasePlan>, name: Seq<char>) -> Option<int>
    decreases plans.len(),
{
    if plans.len() == 0 {
        None
    } else {
        match first_plan_for(plans.drop_last(), name) {
            Some(j) => Some(j),
            None => if plans.last().crate_name@ == name {
                Some(plans.len() - 1)
            } else {
                None
            },
        }
    }
}

/// The version a lock-file package should get, if it is planned and differs.
pub open spec fn package_update(plans: Seq<CrateReleasePlan>, package: (Option<Seq<char>>, Option<Seq<char>>)) -> Option<Seq<char>> {
    match package.0 {
        None => None,
        Some(name) => match first_plan_for(plans, name) {
            None => None,
            Some(j) => {
                let next = version_text(plans[j].plan.next_version);
                if package.1 == Some(next) {
                    None
                } else {
                    Some(next)
                }
            },
        },
    }
}

/// The version updates of a lock file, by package position, in order.
pub open spec fn lock_updates(
    packages: Seq<(Option<Seq<char>>, Option<Seq<char>>)>,
    plans: Seq<CrateReleasePlan>,
) -> Seq<(int, Seq<char>)>
    decreases packages.len(),
{
    if packages.len() == 0 {
        Seq::empty()
    } else {
        let rest = lock_updates(packages.drop_last(), plans);
        match package_update(plans, packages.last()) {
            Some(v) => rest.push((packages.len() - 1, v)),
            None => rest,
        }
    }
}

/// The packages after applying the updates.
pub open spec fn apply_updates(
    packages: Seq<(Option<Seq<char>>, Option<Seq<char>>)>,
    updates: Seq<(int, Seq<char>)>,
) -> Seq<(Option<Seq<char>>, Option<Seq<char>>)>
    decreases updates.len(),
{
    if updates.len() == 0 {
        packages
    } else {
        let p = apply_updates(packages, updates.drop_last());
        let u = updates.last();
        p.update(u.0, (p[u.0].0, Some(u.1)))
    }
}

/// The update views of a list of lock-file updates.
pub open spec fn updates_view(v: Seq<(usize, String)>) -> Seq<(int, Seq<char>)> {
    v.map_values(|u: (usize, String)| (u.0 as int, u.1@))
}

/// The package views of a list of lock-file entries.
pub open spec fn package_views(v: Seq<(Option<String>, Option<String>)>) -> Seq<(Option<Seq<char>>, Option<Seq<char>>)> {
    v.map_values(|p: (Option<String>, Option<String>)| (opt_text(p.0), opt_text(p.1)))
}

// ---------------------------------------------------------------------------
// Implementation
// ---------------------------------------------------------------------------

/// The description of a crate from its manifest text: `None` when the
/// manifest has no `package.name` or `package.version` string; an error when
/// it is not TOML or its version is not a semantic version.
pub fn parse_crate_info(manifest_text: &str, manifest_path: Vec<String>) -> (r: Result<Option<CrateInfo>, ReleaseError>)
    ensures
        match spec_manifest_package(manifest_text@) {
            None => r matches Err(ReleaseError::TomlParse),
            Some((Some(name), Some(version))) => match spec_semver_parse_version(version) {
                None => r matches Err(ReleaseError::InvalidVersion),
                Some(v) => r matches Ok(Some(info)) && info.name@ == name && info.manifest_path@
                    == manifest_path@ && path_view(info.crate_dir@) == manifest_dir(path_view(manifest_path@))
                    && info.version.major == v.0 && info.version.minor == v.1 && info.version.patch == v.2
                    && info.version.pre@ == v.3 && info.version.build@ == v.4,
            },
            Some(_) => r matches Ok(None),
        },
{
    let (name, version_str) = match read_manifest_package(manifest_text) {
        Some(p) => p,
        None => {
            return Err(ReleaseError::TomlParse);
        },
    };
    let name = match name {
        Some(n) => n,
        None => {
            return Ok(None);
        },
    };
    let version_str = match version_str {
        Some(v) => v,
        None => {
            return Ok(None);
        },
    };
    let version = match Version::parse(version_str.as_str()) {
        Some(v) => v,
        None => {
            return Err(ReleaseError::InvalidVersion);
        },
    };
    let n = manifest_path.len();
    let crate_dir = if n <= 1 {
        cur_dir()
    } else {
        let mut d: Vec<String> = Vec::new();
        for i in 0..n - 1
            invariant
                n == manifest_path@.len(),
                n > 1,
                d@ == manifest_path@.take(i as int),
        {
            d.push(manifest_path[i].clone());
            assert(d@ =~= manifest_path@.take(i + 1));
        }
        assert(path_view(d@) =~= path_view(manifest_path@).drop_last());
        d
    };
    Ok(Some(CrateInfo { name, manifest_path, crate_dir, version }))
}

/// The position of the first plan for crate `name`.
fn find_plan(plans: &[CrateReleasePlan], name: &String) -> (r: Option<usize>)
    ensures
        match first_plan_for(plans@, name@) {
            Some(j) => r == Some(j as usize),
            None => r is None,
        },
{
    let n = plans.len();
    let mut i: usize = 0;
    while i < n
        invariant
            n == plans@.len(),
            i <= n,
            first_plan_for(plans@.take(i as int), name@) is None,
        decreases n - i,
    {
        assert(plans@.take(i + 1).drop_last() =~= plans@.take(i as int));
        if plans[i].crate_name == *name {
            proof {
                lemma_first_plan_prefix(plans@, name@, i as int);
            }
            return Some(i);
        }
        i = i + 1;
    }
    assert(plans@.take(n as int) =~= plans@);
    None
}

proof fn lemma_first_plan_range(plans: Seq<CrateReleasePlan>, name: Seq<char>)
    ensures
        first_plan_for(plans, name) matches Some(j) ==> 0 <= j < plans.len() && plans[j].crate_name@ == name,
    decreases plans.len(),
{
    if plans.len() > 0 {
        lemma_first_plan_range(plans.drop_last(), name);
    }
}

proof fn lemma_first_plan_prefix(plans: Seq<CrateReleasePlan>, name: Seq<char>, i: int)
    requires
        0 <= i < plans.len(),
        first_plan_for(plans.take(i), name) is None,
        plans[i].crate_name@ == name,
    ensures
        first_plan_for(plans, name) == Some(i),
    decreases plans.len(),
{
    if i < plans.len() - 1 {
        assert(plans.drop_last().take(i) =~= plans.take(i));
        lemma_first_plan_prefix(plans.drop_last(), name, i);
    } else {
        assert(plans.drop_last() =~= plans.take(i));
    }
}

/// The version updates a lock file needs for these plans: for each package
/// named after a planned crate (the first plan of that name) whose version
/// differs from the plan's next version, its position and that version.
pub fn lock_version_updates(packages: &Vec<(Option<String>, Option<String>)>, plans: &[CrateReleasePlan]) -> (r: Vec<(usize, String)>)
    ensures
        updates_view(r@) == lock_updates(package_views(packages@), plans@),
        forall|k: int| 0 <= k < r@.len() ==> (#[trigger] r@[k]).0 < packages@.len(),
{
    let n = packages.len();
    let mut r: Vec<(usize, String)> = Vec::new();
    for i in 0..n
        invariant
            n == packages@.len(),
            updates_view(r@) == lock_updates(package_views(packages@.take(i as int)), plans@),
            forall|k: int| 0 <= k < r@.len() ==> (#[trigger] r@[k]).0 < i,
    {
        let ghost prev = r@;
        let ghost pv = package_views(packages@.take(i + 1));
        assert(pv.drop_last() =~= package_views(packages@.take(i as int)));
        assert(pv.last() == (opt_text(packages@[i as int].0), opt_text(packages@[i as int].1)));
        match &packages[i].0 {
            None => {},
            Some(name) => {
                match find_plan(plans, name) {
                    None => {},
                    Some(j) => {
                        proof {
                            lemma_first_plan_range(plans@, name@);
                        }
                        let next = plans[j].plan.next_version.to_string();
                        let same = match &packages[i].1 {
                            Some(current) => *current == next,
                            None => false,
                        };
                        if !same {
                            r.push((i, next));
                        }
                    },
                }
            },
        }
        proof {
            let pu = package_update(plans@, pv.last());
            if r@.len() > prev.len() {
                assert(updates_view(r@) =~= updates_view(prev).push((i as int, r@[prev.len() as int].1@)));
                assert(pu == Some(r@[prev.len() as int].1@));
            } else {
                assert(r@ == prev);
                assert(pu is None);
            }
        }
    }
    assert(packages@.take(n as int) =~= packages@);
    r
}

/// Updates whose positions all fall within `n` packages.
pub open spec fn updates_within(updates: Seq<(int, Seq<char>)>, n: int) -> bool {
    forall|k: int| 0 <= k < updates.len() ==> 0 <= (#[trigger] updates[k]).0 < n
}

/// Applying updates within range keeps the number of packages.
proof fn lemma_apply_updates_len(
    packages: Seq<(Option<Seq<char>>, Option<Seq<char>>)>,
    updates: Seq<(int, Seq<char>)>,
)
    requires
        updates_within(updates, packages.len() as int),
    ensures
        apply_updates(packages, updates).len() == packages.len(),
    decreases updates.len(),
{
    if updates.len() > 0 {
        let rest = updates.drop_last();
        assert forall|k: int| 0 <= k < rest.len() implies 0 <= (#[trigger] rest[k]).0 < packages.len() by {
            assert(rest[k] == updates[k]);
        }
        lemma_apply_updates_len(packages, rest);
        assert(0 <= updates[updates.len() - 1].0 < packages.len());
    }
}

/// A lock file's packages once updated for the plans: each package named
/// after a planned crate (the first plan of that name) whose version differs
/// from the plan's next version gets that version; every other package
/// stays as it is.
pub open spec fn updated_lock(
    packages: Seq<(Option<Seq<char>>, Option<Seq<char>>)>,
    plans: Seq<CrateReleasePlan>,
) -> Seq<(Option<Seq<char>>, Option<Seq<char>>)> {
    Seq::new(
        packages.len(),
        |i: int|
            match package_update(plans, packages[i]) {
                Some(v) => (packages[i].0, Some(v)),
                None => packages[i],
            },
    )
}

/// Some package of the lock file needs a new version.
pub open spec fn lock_update_due(
    packages: Seq<(Option<Seq<char>>, Option<Seq<char>>)>,
    plans: Seq<CrateReleasePlan>,
) -> bool {
    exists|i: int| 0 <= i < packages.len() && #[trigger] package_update(plans, packages[i]) is Some
}

/// Updates within the first packages leave a package added after them alone.
proof fn lemma_apply_updates_push(
    packages: Seq<(Option<Seq<char>>, Option<Seq<char>>)>,
    p: (Option<Seq<char>>, Option<Seq<char>>),
    updates: Seq<(int, Seq<char>)>,
)
    requires
        updates_within(updates, packages.len() as int),
    ensures
        apply_updates(packages.push(p), updates) == apply_updates(packages, updates).push(p),
    decreases updates.len(),
{
    if updates.len() > 0 {
        let rest = updates.drop_last();
        assert forall|k: int| 0 <= k < rest.len() implies 0 <= (#[trigger] rest[k]).0 < packages.len() by {
            assert(rest[k] == updates[k]);
        }
        lemma_apply_updates_push(packages, p, rest);
        lemma_apply_updates_len(packages, rest);
        let u = updates[updates.len() - 1];
        let a = apply_updates(packages, rest);
        assert(a.push(p).update(u.0, (a.push(p)[u.0].0, Some(u.1))) =~= a.update(u.0, (a[u.0].0, Some(u.1))).push(p));
    }
}

/// The updates of a lock file, applied in turn, give `updated_lock`; there
/// are updates exactly when one is due.
pub proof fn lemma_lock_updates(packages: Seq<(Option<Seq<char>>, Option<Seq<char>>)>, plans: Seq<CrateReleasePlan>)
    ensures
        updates_within(lock_updates(packages, plans), packages.len() as int),
        apply_updates(packages, lock_updates(packages, plans)) == updated_lock(packages, plans),
        lock_updates(packages, plans).len() > 0 <==> lock_update_due(packages, plans),
    decreases packages.len(),
{
    if packages.len() == 0 {
        assert(updated_lock(packages, plans) =~= packages);
    } else {
        let q = packages.drop_last();
        let p = packages.last();
        let n = q.len();
        lemma_lock_updates(q, plans);
        let us = lock_updates(q, plans);
        assert(packages == q.push(p));
        lemma_apply_updates_push(q, p, us);
        lemma_apply_updates_len(q, us);
        match package_update(plans, p) {
            Some(v) => {
                let all = us.push((n as int, v));
                assert(all.drop_last() =~= us);
                assert(apply_updates(packages, all) =~= updated_lock(packages, plans)) by {
                    assert forall|i: int| 0 <= i < n implies #[trigger] updated_lock(packages, plans)[i]
                        == updated_lock(q, plans)[i] by {
                        assert(packages[i] == q[i]);
                    }
                }
                assert(packages[n as int] == p);
                assert(lock_update_due(packages, plans));
            },
            None => {
                assert(apply_updates(packages, us) =~= updated_lock(packages, plans)) by {
                    assert forall|i: int| 0 <= i < n implies #[trigger] updated_lock(packages, plans)[i]
                        == updated_lock(q, plans)[i] by {
                        assert(packages[i] == q[i]);
                    }
                }
                if lock_update_due(packages, plans) {
                    let i = choose|i: int| 0 <= i < packages.len() && #[trigger] package_update(plans, packages[i]) is Some;
                    assert(i < n);
                    assert(packages[i] == q[i]);
                    assert(lock_update_due(q, plans));
                }
                if lock_update_due(q, plans) {
                    let i = choose|i: int| 0 <= i < q.len() && #[trigger] package_update(plans, q[i]) is Some;
                    assert(packages[i] == q[i]);
                }
            },
        }
        if lock_update_due(q, plans) {
            let i = choose|i: int| 0 <= i < q.len() && #[trigger] package_update(plans, q[i]) is Some;
            assert(packages[i] == q[i]);
            assert(lock_update_due(packages, plans));
        }
    }
}

/// The manifest's `package.version` and `workspace.package.version` entries
/// once those that exist are set to `version`.
pub open spec fn with_manifest_version(view: DocumentView, version: Seq<char>) -> (
    Option<Option<Seq<char>>>,
    Option<Option<Seq<char>>>,
) {
    (
        if view.package_version is Some {
            Some(Some(version))
        } else {
            None
        },
        if view.workspace_version is Some {
            Some(Some(version))
        } else {
            None
        },
    )
}

/// Setting the version of a manifest sets each of `package.version` and
/// `workspace.package.version` that exists, each whatever the other holds,
/// and adds neither where it is missing.
pub proof fn lemma_manifest_versions_set(view: DocumentView, version: Seq<char>)
    ensures
        view.package_version is Some ==> with_manifest_version(view, version).0 == Some(Some(version)),
        view.workspace_version is Some ==> with_manifest_version(view, version).1 == Some(Some(version)),
        view.package_version is None ==> with_manifest_version(view, version).0 is None,
        view.workspace_version is None ==> with_manifest_version(view, version).1 is None,
{
}

/// Whether two strings have the same text.
fn same_text(a: &str, b: &str) -> (r: bool)
    ensures
        r == (a@ == b@),
{
    let x = chars_of(a);
    crate::text::chars_eq_str(x.as_slice(), b)
}

/// The lock file with the versions of planned crates updated: an error when
/// it is not TOML; `None` when it has no `[[package]]` tables, when no
/// package needs a new version, or when the updated document reads as the
/// original; else the text of the document whose `[[package]]` tables carry
/// the new versions (see `updated_lock`), everything else of the document
/// kept (`spec_document_rest`). `None` with an update due comes only when
/// the updated document displays as the original text.
pub fn set_lockfile_versions(original: &str, plans: &[CrateReleasePlan]) -> (r: Result<Option<String>, ReleaseError>)
    ensures
        match spec_parse_document(original@) {
            None => r matches Err(ReleaseError::TomlParse),
            Some(view) => match view.lock {
                None => r matches Ok(None),
                Some(pk) => if !lock_update_due(pk, plans@) {
                    r matches Ok(None)
                } else {
                    exists|d: toml_edit::DocumentMut|
                        #![trigger spec_document_text(d)]
                        spec_lock_packages(d) == Some(updated_lock(pk, plans@))
                            && spec_package_version(d) == view.package_version
                            && spec_workspace_version(d) == view.workspace_version
                            && spec_document_rest(d) == view.rest && match r {
                            Ok(Some(t)) => t@ == spec_document_text(d) && t@ != original@,
                            Ok(None) => spec_document_text(d) == original@,
                            Err(_) => false,
                        }
                },
            },
        },
{
    let mut doc = match parse_toml_document(original) {
        Some(d) => d,
        None => {
            return Err(ReleaseError::TomlParse);
        },
    };
    let ghost view = document_view(doc);
    let packages = match lock_packages(&doc) {
        Some(p) => p,
        None => {
            return Ok(None);
        },
    };
    let updates = lock_version_updates(&packages, plans);
    proof {
        lemma_lock_updates(spec_lock_packages(doc).unwrap(), plans@);
    }
    if updates.len() == 0 {
        return Ok(None);
    }
    let ghost start = spec_lock_packages(doc).unwrap();
    let ghost ups = updates_view(updates@);
    proof {
        lemma_lock_updates(start, plans@);
    }
    assert(start.len() == packages@.len()) by {
        assert(package_views(packages@).len() == packages@.len());
    }
    let m = updates.len();
    for k in 0..m
        invariant
            m == updates@.len(),
            ups == updates_view(updates@),
            ups.len() == m,
            start.len() == packages@.len(),
            forall|q: int| 0 <= q < updates@.len() ==> (#[trigger] updates@[q]).0 < packages@.len(),
            spec_lock_packages(doc) == Some(apply_updates(start, ups.take(k as int))),
            spec_package_version(doc) == view.package_version,
            spec_workspace_version(doc) == view.workspace_version,
            spec_document_rest(doc) == view.rest,
    {
        proof {
            let prefix = ups.take(k as int);
            assert forall|q: int| 0 <= q < prefix.len() implies 0 <= (#[trigger] prefix[q]).0 < start.len() by {
                assert(prefix[q] == ups[q]);
                assert(ups[q].0 == updates@[q].0 as int);
            }
            lemma_apply_updates_len(start, prefix);
            assert(ups.take(k + 1).drop_last() =~= prefix);
            assert(ups.take(k + 1).last() == ups[k as int]);
            assert(ups[k as int].0 == updates@[k as int].0 as int);
            assert(ups[k as int].1 == updates@[k as int].1@);
        }
        set_lock_package_version(&mut doc, updates[k].0, updates[k].1.as_str());
    }
    assert(ups.take(m as int) =~= ups);
    let rendered = render_toml_document(&doc);
    if same_text(rendered.as_str(), original) {
        return Ok(None);
    }
    Ok(Some(rendered))
}

/// The manifest with `package.version` and `workspace.package.version` set
/// to `next_version` where those keys exist: an error when it is not TOML;
/// `None` when it has neither key or when the updated document reads as the
/// original; else the text of the updated document, in which no key is added
/// and everything else is kept (`spec_document_rest`).
pub fn set_manifest_version(original: &str, next_version: &Version) -> (r: Result<Option<String>, ReleaseError>)
    ensures
        match spec_parse_document(original@) {
            None => r matches Err(ReleaseError::TomlParse),
            Some(view) => if view.package_version is None && view.workspace_version is None {
                r matches Ok(None)
            } else {
                exists|d: toml_edit::DocumentMut|
                    #![trigger spec_document_text(d)]
                    (spec_package_version(d), spec_workspace_version(d)) == with_manifest_version(
                        view,
                        version_text(*next_version),
                    ) && (view.package_version is Some ==> spec_package_version(d) == Some(
                        Some(version_text(*next_version)),
                    )) && (view.workspace_version is Some ==> spec_workspace_version(d) == Some(
                        Some(version_text(*next_version)),
                    )) && spec_lock_packages(d) == view.lock && spec_document_rest(d) == view.rest && match r {
                        Ok(Some(t)) => t@ == spec_document_text(d) && t@ != original@,
                        Ok(None) => spec_document_text(d) == original@,
                        Err(_) => false,
                    }
            },
        },
{
    let mut doc = match parse_toml_document(original) {
        Some(d) => d,
        None => {
            return Err(ReleaseError::TomlParse);
        },
    };
    let ghost view = document_view(doc);
    let version = next_version.to_string();
    let mut changed = false;
    if set_item_version(&mut doc, version.as_str()) {
        changed = true;
    }
    if set_table_item_version(&mut doc, version.as_str()) {
        changed = true;
    }
    assert((spec_package_version(doc), spec_workspace_version(doc)) == with_manifest_version(view, version@));
    if !changed {
        return Ok(None);
    }
    let rendered = render_toml_document(&doc);
    if same_text(rendered.as_str(), original) {
        return Ok(None);
    }
    Ok(Some(rendered))
}

/// Sets `package.version` when the manifest has that key; whether it did.
fn set_item_version(doc: &mut toml_edit::DocumentMut, version: &str) -> (r: bool)
    ensures
        r == spec_package_version(*old(doc)) is Some,
        spec_package_version(*final(doc)) == if r {
            Some(Some(version@))
        } else {
            spec_package_version(*old(doc))
        },
        spec_workspace_version(*final(doc)) == spec_workspace_version(*old(doc)),
        spec_lock_packages(*final(doc)) == spec_lock_packages(*old(doc)),
        spec_document_rest(*final(doc)) == spec_document_rest(*old(doc)),
{
    if !package_has_version(doc) {
        return false;
    }
    set_package_version(doc, version);
    true
}

/// Sets `workspace.package.version` when the manifest has that key; whether it did.
fn set_table_item_version(doc: &mut toml_edit::DocumentMut, version: &str) -> (r: bool)
    ensures
        r == spec_workspace_version(*old(doc)) is Some,
        spec_workspace_version(*final(doc)) == if r {
            Some(Some(version@))
        } else {
            spec_workspace_version(*old(doc))
        },
        spec_package_version(*final(doc)) == spec_package_version(*old(doc)),
        spec_lock_packages(*final(doc)) == spec_lock_packages(*old(doc)),
        spec_document_rest(*final(doc)) == spec_document_rest(*old(doc)),
{
    if !workspace_package_has_version(doc) {
        return false;
    }
    set_workspace_package_version(doc, version);
    true
}

} // verus!
