use release_kthx::commit::{CommitInput, CommitKind, PlannedCommit};
use release_kthx::internal_dependencies::{
    desired_requirement_style, DependencyOwner, InternalDependencyContext, InternalDependencyPolicy,
    Publication, RequirementOperator, RequirementStyle,
};
use release_kthx::topology::{WorkspaceCrate, WorkspaceGraph};
use release_kthx::version::Version;
use release_kthx::versioning::{plan_release, plan_release_checked, BumpLevel};

fn commit(hash: &str, subject: &str, body: &str) -> CommitInput {
    CommitInput { hash: hash.to_string(), subject: subject.to_string(), body: body.to_string() }
}

fn workspace_crate(name: &str, deps: &[&str]) -> WorkspaceCrate {
    WorkspaceCrate {
        name: name.to_string(),
        local_dependencies: deps.iter().map(|dep| dep.to_string()).collect(),
    }
}

fn names(list: &[&str]) -> Vec<String> {
    list.iter().map(|s| s.to_string()).collect()
}

#[test]
fn feature_is_minor() {
    let (planned, bump) = PlannedCommit::from_input(CommitInput {
        hash: "a".to_string(),
        subject: "feat(api): add endpoint".to_string(),
        body: String::new(),
    });
    assert_eq!(planned.kind, CommitKind::Feature);
    assert_eq!(bump, BumpLevel::Minor);
}

#[test]
fn bang_is_major() {
    let (planned, bump) = PlannedCommit::from_input(CommitInput {
        hash: "a".to_string(),
        subject: "fix!: breaking fix".to_string(),
        body: String::new(),
    });
    assert!(planned.breaking);
    assert_eq!(bump, BumpLevel::Major);
}

#[test]
fn uppercase_subject_is_lowercased_before_classification() {
    let (planned, bump) = PlannedCommit::from_input(commit("b", "FEAT: shout", ""));
    assert_eq!(planned.kind, CommitKind::Feature);
    assert_eq!(planned.subject, "FEAT: shout");
    assert_eq!(bump, BumpLevel::Minor);
}

#[test]
fn breaking_change_in_body_is_major() {
    let (planned, bump) = PlannedCommit::from_input(commit("c", "docs: words", "BREAKING CHANGE: gone"));
    assert_eq!(planned.kind, CommitKind::Documentation);
    assert!(planned.breaking);
    assert_eq!(bump, BumpLevel::Major);
}

#[test]
fn commit_kinds_and_their_bumps() {
    let cases = [
        ("fix: x", CommitKind::Fix, BumpLevel::Patch),
        ("perf(core): x", CommitKind::Refactor, BumpLevel::Patch),
        ("refactor: x", CommitKind::Refactor, BumpLevel::Patch),
        ("docs: x", CommitKind::Documentation, BumpLevel::NoBump),
        ("ci: x", CommitKind::Chore, BumpLevel::NoBump),
        ("test: x", CommitKind::Chore, BumpLevel::NoBump),
        ("wip stuff", CommitKind::Other, BumpLevel::NoBump),
    ];
    for (subject, kind, bump) in cases {
        let (planned, b) = PlannedCommit::from_input(commit("d", subject, ""));
        assert_eq!(planned.kind, kind, "{subject}");
        assert_eq!(b, bump, "{subject}");
    }
    assert_eq!(CommitKind::Documentation.as_str(), "docs");
    assert_eq!(BumpLevel::Minor.as_str(), "minor");
    assert_eq!(BumpLevel::NoBump.as_str(), "none");
}

#[test]
fn auto_policy_strips_private_member_dependencies() {
    let context = InternalDependencyContext {
        owner: DependencyOwner::Member { publication: Publication::Private },
        dependency_publication: Publication::Private,
        all_members_private: true,
    };

    assert_eq!(
        desired_requirement_style(
            InternalDependencyPolicy::Auto,
            context,
            Some(RequirementStyle::parse("^0.4.0").expect("parse style")),
        ),
        None,
    );
}

#[test]
fn auto_policy_preserves_existing_style_for_publishable_edges() {
    let context = InternalDependencyContext {
        owner: DependencyOwner::Member { publication: Publication::Publishable },
        dependency_publication: Publication::Private,
        all_members_private: false,
    };

    let style = RequirementStyle::parse("^0.4").expect("parse style");
    assert_eq!(desired_requirement_style(InternalDependencyPolicy::Auto, context, Some(style)), Some(style),);
}

#[test]
fn update_policy_inserts_default_style_when_missing() {
    let context = InternalDependencyContext {
        owner: DependencyOwner::UnknownMember,
        dependency_publication: Publication::Publishable,
        all_members_private: false,
    };

    let next = desired_requirement_style(InternalDependencyPolicy::Update, context, None)
        .expect("style should be present");
    assert_eq!(next.render(&Version::parse("0.5.1").expect("valid semver")), "0.5.1");
}

#[test]
fn requirement_style_preserves_operator_and_precision() {
    let version = Version::parse("0.5.1").expect("valid semver");
    assert_eq!(RequirementStyle::parse("0.4.0").expect("parse style").render(&version), "0.5.1");
    assert_eq!(RequirementStyle::parse("^0.4").expect("parse style").render(&version), "^0.5");
    assert_eq!(RequirementStyle::parse("=0.4.0").expect("parse style").render(&version), "=0.5.1");
}

#[test]
fn rejects_complex_requirements() {
    let error = RequirementStyle::parse(">=0.4.0, <0.5.0").expect_err("should fail");
    assert_eq!(error.to_string(), "unsupported internal dependency version requirement `>=0.4.0, <0.5.0`");
}

#[test]
fn other_operators_and_precisions_render() {
    let version = Version::parse("1.2.3").expect("valid semver");
    assert_eq!(RequirementStyle::parse("~1").expect("parse style").render(&version), "~1");
    assert_eq!(RequirementStyle::parse(">=0.9").expect("parse style").render(&version), ">=1.2");
    assert_eq!(RequirementStyle::parse("<2.0.0").expect("parse style").render(&version), "<1.2.3");
    assert!(RequirementStyle::parse("not a requirement").is_err());
    assert_eq!(RequirementStyle::default().render(&version), "1.2.3");
}

#[test]
fn policies_strip_update_and_keep() {
    let public = InternalDependencyContext {
        owner: DependencyOwner::Workspace,
        dependency_publication: Publication::Publishable,
        all_members_private: false,
    };
    let style = RequirementStyle::parse("^0.4").expect("parse style");
    assert_eq!(desired_requirement_style(InternalDependencyPolicy::Strip, public, Some(style)), None);
    assert_eq!(desired_requirement_style(InternalDependencyPolicy::Auto, public, None), None);
    assert_eq!(desired_requirement_style(InternalDependencyPolicy::Update, public, Some(style)), Some(style));
    let all_private =
        InternalDependencyContext { all_members_private: true, dependency_publication: Publication::Private, ..public };
    assert!(all_private.should_strip_when_auto());
    assert!(!public.should_strip_when_auto());
    assert_eq!(Publication::from_private(true), Publication::Private);
    assert!(!Publication::from_private(false).is_private());
    assert_eq!(InternalDependencyPolicy::default(), InternalDependencyPolicy::Auto);
}

#[test]
fn release_topology_expands_transitive_dependents() {
    let graph = WorkspaceGraph::from_crates(vec![
        workspace_crate("domain", &[]),
        workspace_crate("api", &["domain"]),
        workspace_crate("app", &["api"]),
    ]);

    let topology = graph.release_topology(&["domain"]);

    assert_eq!(topology.directly_affected(), &names(&["domain"]));
    assert_eq!(topology.release_crates(), &names(&["api", "app", "domain"]));
}

#[test]
fn graph_filters_self_and_unknown_dependencies() {
    let graph = WorkspaceGraph::from_crates(vec![
        workspace_crate("domain", &["domain", "serde"]),
        workspace_crate("app", &["domain"]),
    ]);

    let topology = graph.release_topology(&["domain"]);
    assert!(topology.includes("domain"));
    assert!(topology.includes("app"));
    assert!(!topology.includes("serde"));
}

#[test]
fn unknown_directly_affected_crates_are_ignored() {
    let graph =
        WorkspaceGraph::from_crates(vec![workspace_crate("domain", &[]), workspace_crate("app", &["domain"])]);

    let topology = graph.release_topology(&["unknown"]);
    assert!(topology.directly_affected().is_empty());
    assert!(topology.release_crates().is_empty());
}

#[test]
fn topology_does_not_release_dependencies_of_affected_crates() {
    let graph = WorkspaceGraph::from_crates(vec![
        workspace_crate("domain", &[]),
        workspace_crate("api", &["domain"]),
        workspace_crate("app", &["api"]),
        workspace_crate("tool", &[]),
    ]);
    let topology = graph.release_topology(&["api", "api"]);
    assert_eq!(topology.directly_affected(), &names(&["api"]));
    assert_eq!(topology.release_crates(), &names(&["api", "app"]));
    assert!(!topology.includes("domain"));
    assert!(!topology.includes("tool"));
}

#[test]
fn bumps_minor_for_feature() {
    let plan = plan_release(
        Version::parse("1.2.3").expect("valid semver"),
        None,
        vec![CommitInput { hash: "abc".to_string(), subject: "feat: add thing".to_string(), body: String::new() }],
    )
    .expect("plan should exist");

    assert_eq!(plan.bump_level, BumpLevel::Minor);
    assert_eq!(plan.next_version.to_string(), "1.3.0");
}

#[test]
fn no_commits_means_no_plan() {
    assert!(plan_release(Version::new(1, 0, 0), None, Vec::new()).is_none());
    assert!(matches!(plan_release_checked(Version::new(1, 0, 0), None, Vec::new()), Ok(None)));
}

#[test]
fn housekeeping_commits_still_bump_the_patch() {
    let plan = plan_release(
        Version::parse("0.9.9").expect("valid semver"),
        Some("v0.9.9".to_string()),
        vec![commit("1", "docs: readme", ""), commit("2", "chore: tidy", "")],
    )
    .expect("plan should exist");
    assert_eq!(plan.bump_level, BumpLevel::Patch);
    assert_eq!(plan.next_version.to_string(), "0.9.10");
    assert_eq!(plan.base_tag.as_deref(), Some("v0.9.9"));
    assert_eq!(plan.commits.len(), 2);
    assert_eq!(plan.commits[1].kind, CommitKind::Chore);
}

#[test]
fn bump_is_the_largest_asked_for_in_any_order() {
    let forward = plan_release(
        Version::new(2, 3, 4),
        None,
        vec![commit("1", "fix: a", ""), commit("2", "feat!: b", ""), commit("3", "feat: c", "")],
    )
    .expect("plan should exist");
    let backward = plan_release(
        Version::new(2, 3, 4),
        None,
        vec![commit("3", "feat: c", ""), commit("2", "feat!: b", ""), commit("1", "fix: a", "")],
    )
    .expect("plan should exist");
    assert_eq!(forward.bump_level, BumpLevel::Major);
    assert_eq!(backward.bump_level, BumpLevel::Major);
    assert_eq!(forward.next_version.to_string(), "3.0.0");
    assert_eq!(backward.next_version, forward.next_version);
}

#[test]
fn bumps_keep_pre_release_and_build() {
    let v = Version::parse("1.2.3-rc.1+build.5").expect("valid semver");
    assert_eq!(BumpLevel::Patch.apply(&v).to_string(), "1.2.4-rc.1+build.5");
    assert_eq!(BumpLevel::Minor.apply(&v).to_string(), "1.3.0-rc.1+build.5");
    assert_eq!(BumpLevel::Major.apply(&v).to_string(), "2.0.0-rc.1+build.5");
    assert_eq!(BumpLevel::NoBump.apply(&v), v);
    assert_eq!(BumpLevel::Patch.max(BumpLevel::Minor), BumpLevel::Minor);
    assert_eq!(BumpLevel::Major.max(BumpLevel::NoBump), BumpLevel::Major);
}

#[test]
fn overflowing_bump_is_refused() {
    let top = Version::new(1, 2, u64::MAX);
    let result = plan_release_checked(top, None, vec![commit("1", "fix: x", "")]);
    assert!(matches!(result, Err(BumpLevel::Patch)));
}

#[test]
fn version_parse_and_text() {
    assert!(Version::parse("1.2").is_none());
    assert!(Version::parse("v1.2.3").is_none());
    let v = Version::parse("10.20.30").expect("valid semver");
    assert_eq!(v, Version::new(10, 20, 30));
    assert_eq!(v.to_string(), "10.20.30");
}

#[test]
fn release_depends_only_on_the_set_of_changed_crates() {
    let graph = WorkspaceGraph::from_crates(vec![
        workspace_crate("a", &[]),
        workspace_crate("b", &["a"]),
        workspace_crate("c", &[]),
        workspace_crate("d", &["c", "b"]),
    ]);
    let one = graph.release_topology(&["c", "a"]);
    let two = graph.release_topology(&["a", "c", "a", "zzz"]);
    assert_eq!(one.directly_affected(), two.directly_affected());
    assert_eq!(one.release_crates(), two.release_crates());
    assert_eq!(one.release_crates(), &names(&["a", "b", "c", "d"]));
}

#[test]
fn rendered_requirements_read_back_as_the_same_style() {
    let version = Version::parse("3.14.15-beta.2").expect("valid semver");
    for requirement in ["1", "^1.2", "~1.2.3", ">=0.4", "<=2", "=0.1.0", ">5", "<6.1", "0.9"] {
        let style = RequirementStyle::parse(requirement).expect("parse style");
        let written = style.render(&version);
        assert_eq!(RequirementStyle::parse(&written).expect("parse written"), style, "{requirement} -> {written}");
    }
}

#[test]
fn release_ignores_crate_order_and_stray_dependencies() {
    let one = WorkspaceGraph::from_crates(vec![
        workspace_crate("core", &[]),
        workspace_crate("api", &["core", "serde"]),
        workspace_crate("cli", &["api", "cli"]),
    ]);
    let two = WorkspaceGraph::from_crates(vec![
        workspace_crate("cli", &["api"]),
        workspace_crate("core", &["core"]),
        workspace_crate("api", &["core"]),
    ]);
    let a = one.release_topology(&["core"]);
    let b = two.release_topology(&["core"]);
    assert_eq!(a.release_crates(), b.release_crates());
    assert_eq!(a.release_crates(), &names(&["api", "cli", "core"]));
}

#[test]
fn operators_read_back_from_their_text() {
    let ops = [
        RequirementOperator::Bare,
        RequirementOperator::GreaterEq,
        RequirementOperator::LessEq,
        RequirementOperator::Caret,
        RequirementOperator::Tilde,
        RequirementOperator::Exact,
        RequirementOperator::Greater,
        RequirementOperator::Less,
    ];
    for op in ops {
        let text: Vec<char> = format!("{}1.2.3", op.prefix()).chars().collect();
        assert_eq!(RequirementOperator::parse(&text), op);
    }
    let ge: Vec<char> = ">=1.0".chars().collect();
    assert_eq!(RequirementOperator::parse(&ge), RequirementOperator::GreaterEq);
}
