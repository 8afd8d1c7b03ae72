use release_kthx::manifest::{parse_crate_info, set_lockfile_versions, set_manifest_version};
use release_kthx::git::{version_commit, version_commit_args};
use release_kthx::path::sorted_unique_paths;
use release_kthx::planner::{start_planning, HistoryAnswer, HistoryQuery, PlanProgress};
use release_kthx::release::{
    affected_crates, base_from_lookups, build_crate_release_plans_with_history, crate_contains_file, is_manifest_file, render_tag_name,
    skips_directory, sort_crates,
    CommitHistoryService, CrateInfo, CrateReleasePlan, HistoryCommit, HistoryError, ReleaseError,
};
use release_kthx::release_plan::ReleasePlan;
use release_kthx::version::Version;
use release_kthx::versioning::BumpLevel;

fn path(p: &str) -> Vec<String> {
    p.split('/').map(|s| s.to_string()).collect()
}

fn test_plan(crate_name: &str, current: &str, next: &str) -> CrateReleasePlan {
    CrateReleasePlan {
        crate_name: crate_name.to_string(),
        manifest_path: path(&format!("crates/{crate_name}/Cargo.toml")),
        plan: ReleasePlan {
            base_tag: None,
            current_version: Version::parse(current).expect("valid semver"),
            next_version: Version::parse(next).expect("valid semver"),
            bump_level: BumpLevel::Patch,
            commits: Vec::new(),
        },
    }
}

fn crate_info(name: &str, dir: &str, version: &str) -> CrateInfo {
    let manifest = if dir == "." { "Cargo.toml".to_string() } else { format!("{dir}/Cargo.toml") };
    CrateInfo {
        name: name.to_string(),
        manifest_path: path(&manifest),
        crate_dir: path(dir),
        version: Version::parse(version).expect("valid semver"),
    }
}

#[test]
fn tag_template_requires_crate_placeholder_for_multiple_crates() {
    let result = render_tag_name("v{{ version }}", "my-crate", &Version::parse("0.2.0").expect("valid semver"), 2);
    assert!(result.is_err());
}

#[test]
fn tag_template_renders_crate_and_version() {
    let tag = render_tag_name("{{ crate }}-v{{ version }}", "my-crate", &Version::parse("0.2.0").expect("valid semver"), 2)
        .expect("tag renders");
    assert_eq!(tag, "my-crate-v0.2.0");
}

#[test]
fn single_crate_template_may_omit_the_crate() {
    let tag = render_tag_name("v{{ version }}", "my-crate", &Version::new(3, 0, 1), 1).expect("tag renders");
    assert_eq!(tag, "v3.0.1");
    let err = render_tag_name("v{{ version }}", "my-crate", &Version::new(3, 0, 1), 3).unwrap_err();
    assert_eq!(err.to_string(), "release.tag_template must include '{ crate }' when multiple crates are released");
}

#[test]
fn updates_workspace_package_versions_in_lockfile() {
    let original = "version = 4\n\n[[package]]\nname = \"release-kthx\"\nversion = \"0.1.0\"\n\n[[package]]\nname = \"release-kthx-domain\"\nversion = \"0.1.0\"\n";

    let plans = vec![test_plan("release-kthx", "0.1.0", "0.1.1"), test_plan("release-kthx-domain", "0.1.0", "0.2.0")];

    let changed = set_lockfile_versions(original, &plans).expect("lock update");
    assert!(changed.is_some());

    let updated = changed.expect("read updated lock");
    assert!(updated.contains("name = \"release-kthx\"\nversion = \"0.1.1\""));
    assert!(updated.contains("name = \"release-kthx-domain\"\nversion = \"0.2.0\""));
}

#[test]
fn lockfile_without_changes_is_left_alone() {
    let original = "[[package]]\nname = \"a\"\nversion = \"0.1.1\"\n\n[[package]]\nname = \"other\"\nversion = \"9.9.9\"\n";
    let plans = vec![test_plan("a", "0.1.0", "0.1.1")];
    assert!(matches!(set_lockfile_versions(original, &plans), Ok(None)));
    assert!(matches!(set_lockfile_versions("version = 4\n", &plans), Ok(None)));
    assert!(matches!(set_lockfile_versions("[[package]\n", &plans), Err(ReleaseError::TomlParse)));
}

#[test]
fn manifest_versions_are_rewritten() {
    let next = Version::new(0, 3, 0);
    let text = "[package]\nname = \"a\"\nversion = \"0.2.0\" # keep\nedition = \"2021\"\n";
    let updated = set_manifest_version(text, &next).expect("parse").expect("changed");
    assert_eq!(updated, "[package]\nname = \"a\"\nversion = \"0.3.0\"\nedition = \"2021\"\n");
    let workspace = "[workspace.package]\nversion = \"0.2.0\"\n";
    let updated = set_manifest_version(workspace, &next).expect("parse").expect("changed");
    assert!(updated.contains("version = \"0.3.0\""));
    assert!(matches!(set_manifest_version("[package]\nname = \"a\"\n", &next), Ok(None)));
    assert!(matches!(set_manifest_version("[package]\nversion = \"0.3.0\"\n", &next), Ok(None)));
    assert!(matches!(set_manifest_version("= broken", &next), Err(ReleaseError::TomlParse)));
}

#[test]
fn crate_info_is_read_from_the_manifest() {
    let info = parse_crate_info("[package]\nname = \"api\"\nversion = \"1.2.3\"\n", path("crates/api/Cargo.toml"))
        .expect("parse")
        .expect("a package");
    assert_eq!(info.name, "api");
    assert_eq!(info.crate_dir, path("crates/api"));
    assert_eq!(info.version, Version::new(1, 2, 3));
    let root = parse_crate_info("[package]\nname = \"root\"\nversion = \"0.1.0\"\n", path("Cargo.toml"))
        .expect("parse")
        .expect("a package");
    assert_eq!(root.crate_dir, path("."));
    assert!(matches!(parse_crate_info("[workspace]\nmembers = []\n", path("Cargo.toml")), Ok(None)));
    assert!(matches!(parse_crate_info("[package]\nname = \"x\"\nversion = \"one\"\n", path("Cargo.toml")), Err(ReleaseError::InvalidVersion)));
    assert!(matches!(parse_crate_info("[package", path("Cargo.toml")), Err(ReleaseError::TomlParse)));
}

#[test]
fn files_belong_to_the_deepest_crate() {
    let crates = vec![
        crate_info("root", ".", "0.1.0"),
        crate_info("api", "crates/api", "0.1.0"),
        crate_info("core", "crates/api/core", "0.1.0"),
    ];
    assert!(crate_contains_file(&path("."), &path("README.md")));
    assert!(crate_contains_file(&path("crates/api"), &path("crates/api/src/lib.rs")));
    assert!(!crate_contains_file(&path("crates/api"), &path("crates/apis/src/lib.rs")));
    let files = vec![path("crates/api/core/src/lib.rs"), path("README.md"), path("crates/api/src/lib.rs")];
    assert_eq!(affected_crates(&crates, &files), vec![0, 1, 2]);
    assert_eq!(affected_crates(&crates, &vec![path("crates/api/core/x")]), vec![2]);
    assert_eq!(affected_crates(&crates, &Vec::new()), Vec::<usize>::new());
}

#[test]
fn crates_are_sorted_by_manifest_path() {
    let sorted = sort_crates(vec![
        crate_info("b", "crates/b", "0.1.0"),
        crate_info("root", ".", "0.1.0"),
        crate_info("a", "crates/a", "0.1.0"),
    ]);
    let names: Vec<&str> = sorted.iter().map(|c| c.name.as_str()).collect();
    assert_eq!(names, vec!["root", "a", "b"]);
}

#[test]
fn changed_manifests_are_sorted_and_unique() {
    let paths = sorted_unique_paths(vec![path("b/Cargo.toml"), path("Cargo.toml"), path("b/Cargo.toml"), path("a/Cargo.toml")]);
    assert_eq!(paths, vec![path("Cargo.toml"), path("a/Cargo.toml"), path("b/Cargo.toml")]);
}

struct FakeHistory {
    tags: Vec<String>,
    commits: Vec<(&'static str, &'static str, Vec<&'static str>)>,
}

impl CommitHistoryService for FakeHistory {
    fn tag_exists(&self, tag_name: &str) -> Result<bool, HistoryError> {
        Ok(self.tags.iter().any(|t| t == tag_name))
    }

    fn find_version_commit(&self, _manifest_path: &Vec<String>, _version: &str) -> Result<Option<String>, HistoryError> {
        Ok(None)
    }

    fn latest_tag(&self) -> Result<Option<String>, HistoryError> {
        Ok(self.tags.last().cloned())
    }

    fn collect_commits(&self, _base_ref: Option<&str>) -> Result<Vec<HistoryCommit>, HistoryError> {
        Ok(self
            .commits
            .iter()
            .map(|(hash, subject, files)| HistoryCommit {
                hash: hash.to_string(),
                subject: subject.to_string(),
                body: String::new(),
                files: files.iter().map(|f| path(f)).collect(),
            })
            .collect())
    }
}

#[test]
fn crate_plans_follow_the_files_each_commit_touches() {
    let history = FakeHistory {
        tags: vec!["api-v0.1.0".to_string()],
        commits: vec![
            ("111", "feat: api endpoint", vec!["crates/api/src/lib.rs"]),
            ("222", "fix: core bug", vec!["crates/core/src/lib.rs"]),
            ("333", "docs: api", vec!["crates/api/README.md"]),
        ],
    };
    let crates = vec![
        crate_info("core", "crates/core", "1.0.0"),
        crate_info("api", "crates/api", "0.1.0"),
        crate_info("tool", "crates/tool", "2.0.0"),
    ];
    let plans = build_crate_release_plans_with_history(&history, crates, None, "{{ crate }}-v{{ version }}")
        .expect("plans");
    assert_eq!(plans.len(), 2);
    assert_eq!(plans[0].crate_name, "api");
    assert_eq!(plans[0].plan.base_tag.as_deref(), Some("api-v0.1.0"));
    assert_eq!(plans[0].plan.bump_level, BumpLevel::Minor);
    assert_eq!(plans[0].plan.next_version.to_string(), "0.2.0");
    assert_eq!(plans[0].plan.commits.len(), 2);
    assert_eq!(plans[1].crate_name, "core");
    assert_eq!(plans[1].plan.base_tag.as_deref(), Some("api-v0.1.0"));
    assert_eq!(plans[1].plan.next_version.to_string(), "1.0.1");
}

#[test]
fn crate_plans_report_their_errors() {
    let history = FakeHistory { tags: Vec::new(), commits: Vec::new() };
    let err = build_crate_release_plans_with_history(&history, Vec::new(), None, "v{{ version }}").unwrap_err();
    assert_eq!(err.to_string(), "no Cargo package manifests found");
    let crates = vec![crate_info("a", "crates/a", "0.1.0"), crate_info("b", "crates/b", "0.1.0")];
    let err = build_crate_release_plans_with_history(&history, crates, None, "v{{ version }}").unwrap_err();
    assert!(matches!(err, ReleaseError::TemplateWithoutCrate));
    let crates = vec![crate_info("a", "crates/a", "0.1.0"), crate_info("b", "crates/b", "0.1.0")];
    let plans = build_crate_release_plans_with_history(&history, crates, Some("v0"), "v{{ version }}").expect("plans");
    assert!(plans.is_empty());
    let history = FakeHistory { tags: Vec::new(), commits: vec![("1", "fix: x", vec!["crates/a/x"])] };
    let crates = vec![crate_info("a", "crates/a", "0.1.18446744073709551615")];
    let err = build_crate_release_plans_with_history(&history, crates, Some("v0"), "v{{ version }}").unwrap_err();
    assert_eq!(err.to_string(), "version overflow for a");
}

#[test]
fn manifest_search_rules() {
    assert!(skips_directory(".git"));
    assert!(skips_directory("target"));
    assert!(!skips_directory("crates"));
    assert!(is_manifest_file("Cargo.toml"));
    assert!(!is_manifest_file("Cargo.lock"));
}

#[test]
fn base_reference_follows_the_lookup_order() {
    let tag = || "api-v1".to_string();
    assert_eq!(base_from_lookups(tag(), true, Some("c".to_string()), Some("t".to_string())), Some("api-v1".to_string()));
    assert_eq!(base_from_lookups(tag(), false, Some("c".to_string()), Some("t".to_string())), Some("c".to_string()));
    assert_eq!(base_from_lookups(tag(), false, None, Some("t".to_string())), Some("t".to_string()));
    assert_eq!(base_from_lookups(tag(), false, None, None), None);
}

struct Broken;

impl CommitHistoryService for Broken {
    fn tag_exists(&self, _tag_name: &str) -> Result<bool, HistoryError> {
        Err(HistoryError { message: "git failed".to_string() })
    }
    fn find_version_commit(&self, _m: &Vec<String>, _v: &str) -> Result<Option<String>, HistoryError> {
        Ok(None)
    }
    fn latest_tag(&self) -> Result<Option<String>, HistoryError> {
        Ok(None)
    }
    fn collect_commits(&self, _base_ref: Option<&str>) -> Result<Vec<HistoryCommit>, HistoryError> {
        Ok(Vec::new())
    }
}

#[test]
fn history_errors_are_passed_on() {
    let crates = vec![crate_info("a", "crates/a", "0.1.0")];
    let err = build_crate_release_plans_with_history(&Broken, crates, None, "v{{ version }}").unwrap_err();
    assert_eq!(err.to_string(), "git failed");
}

fn answer_with(history: &FakeHistory, query: &HistoryQuery) -> Result<HistoryAnswer, HistoryError> {
    match query {
        HistoryQuery::TagExists { tag } => history.tag_exists(tag).map(HistoryAnswer::TagExists),
        HistoryQuery::VersionCommit { manifest_path, version } => {
            history.find_version_commit(manifest_path, version).map(HistoryAnswer::VersionCommit)
        }
        HistoryQuery::LatestTag => history.latest_tag().map(HistoryAnswer::LatestTag),
        HistoryQuery::Commits { base } => history.collect_commits(base.as_deref()).map(HistoryAnswer::Commits),
    }
}

#[test]
fn planner_asks_in_order_and_plans_like_the_history_service() {
    let history = FakeHistory {
        tags: vec!["api-v0.1.0".to_string()],
        commits: vec![
            ("111", "feat: api endpoint", vec!["crates/api/src/lib.rs"]),
            ("222", "fix: core bug", vec!["crates/core/src/lib.rs"]),
        ],
    };
    let crates = || vec![crate_info("core", "crates/core", "1.0.0"), crate_info("api", "crates/api", "0.1.0")];
    let template = "{{ crate }}-v{{ version }}".to_string();
    let mut asked = Vec::new();
    let mut progress = start_planning(crates(), None, template.clone()).expect("start");
    let plans = loop {
        let planner = match progress {
            PlanProgress::Done(plans) => break plans,
            PlanProgress::Ask(planner) => planner,
        };
        let answer = answer_with(&history, &planner.pending);
        asked.push(planner.pending.describe());
        progress = planner.next(answer).expect("next");
    };
    assert_eq!(
        asked,
        vec![
            "tag api-v0.1.0".to_string(),
            "commits api-v0.1.0".to_string(),
            "tag core-v1.0.0".to_string(),
            "version crates/core/Cargo.toml 1.0.0".to_string(),
            "latest".to_string(),
            "commits api-v0.1.0".to_string(),
        ]
    );
    let direct = build_crate_release_plans_with_history(&history, crates(), None, &template).expect("plans");
    assert_eq!(plans.len(), direct.len());
    for (a, b) in plans.iter().zip(direct.iter()) {
        assert_eq!(a.crate_name, b.crate_name);
        assert_eq!(a.plan.next_version, b.plan.next_version);
        assert_eq!(a.plan.base_tag, b.plan.base_tag);
    }
}

trait Describe {
    fn describe(&self) -> String;
}

impl Describe for HistoryQuery {
    fn describe(&self) -> String {
        match self {
            HistoryQuery::TagExists { tag } => format!("tag {tag}"),
            HistoryQuery::VersionCommit { manifest_path, version } => {
                format!("version {} {version}", manifest_path.join("/"))
            }
            HistoryQuery::LatestTag => "latest".to_string(),
            HistoryQuery::Commits { base } => format!("commits {}", base.clone().unwrap_or_default()),
        }
    }
}

#[test]
fn planner_errors() {
    assert!(matches!(start_planning(Vec::new(), None, "v{{ version }}".to_string()), Err(ReleaseError::NoManifests)));
    let two = vec![crate_info("a", "crates/a", "0.1.0"), crate_info("b", "crates/b", "0.1.0")];
    assert!(matches!(start_planning(two, None, "v{{ version }}".to_string()), Err(ReleaseError::TemplateWithoutCrate)));
    let one = vec![crate_info("a", "crates/a", "0.1.0")];
    let progress = start_planning(one, Some("v0".to_string()), "v{{ version }}".to_string()).expect("start");
    let planner = match progress {
        PlanProgress::Ask(p) => p,
        PlanProgress::Done(_) => panic!("expected a question"),
    };
    assert_eq!(planner.pending, HistoryQuery::Commits { base: Some("v0".to_string()) });
    let err = planner.next(Err(HistoryError { message: "boom".to_string() })).unwrap_err();
    assert_eq!(err.to_string(), "boom");
}

#[test]
fn version_commit_lookup_arguments() {
    assert_eq!(
        version_commit_args(&path("crates/api/Cargo.toml"), "1.2.3"),
        vec!["log", "-n", "1", "--format=%H", "-G", "^version = \"1.2.3\"", "--", "crates/api/Cargo.toml"]
    );
    assert_eq!(version_commit(" abc\n"), Some("abc".to_string()));
    assert_eq!(version_commit("\n"), None);
}

#[test]
fn lockfile_update_is_due_exactly_when_a_version_differs() {
    let plans = vec![test_plan("a", "0.1.0", "0.2.0"), test_plan("a", "0.1.0", "9.9.9")];
    let lock = "[[package]]\nname = \"a\"\nversion = \"0.1.0\"\n\n[[package]]\nname = \"b\"\nversion = \"0.1.0\"\n";
    let updated = set_lockfile_versions(lock, &plans).expect("parse").expect("changed");
    assert_eq!(updated, "[[package]]\nname = \"a\"\nversion = \"0.2.0\"\n\n[[package]]\nname = \"b\"\nversion = \"0.1.0\"\n");
    assert!(matches!(set_lockfile_versions(&updated, &plans), Ok(None)));
}
