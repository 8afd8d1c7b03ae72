use release_kthx::changelog::{render_markdown, short_hash};
use release_kthx::commands::{
    publish_actions, publish_notes, release_pr_body, release_pr_files, release_pr_title, release_tag_actions,
    release_tag_name, release_title, PublishAction, ReleasePrError, TagAction,
};
use release_kthx::commit::{CommitKind, PlannedCommit};
use release_kthx::config::{ConfigError, InternalDependencyPolicy, ReleaseKthxConfig};
use release_kthx::event::{is_push_event, push_range};
use release_kthx::git::{
    add_files_args, changed_files, changed_files_args, checkout_branch_args, collect_commits, collect_commits_args,
    commit_args, create_annotated_tag, latest_tag, latest_tag_args, push_branch_args, push_tag, staged_changes_args,
    tag_exists_args, GitError,
};
use release_kthx::github::{
    create_or_update_release, create_or_update_release_pr, format_gh_error, optional_output, GhFlowError,
    ReleaseFlow, ReleasePrFlow, ReleasePrRequest, ReleaseRequest,
};
use release_kthx::release_plan::ReleasePlan;
use release_kthx::version::Version;
use release_kthx::versioning::BumpLevel;

fn feature_plan() -> ReleasePlan {
    ReleasePlan {
        base_tag: Some("v0.1.0".to_string()),
        current_version: Version::parse("0.1.0").expect("valid semver"),
        next_version: Version::parse("0.2.0").expect("valid semver"),
        bump_level: BumpLevel::Minor,
        commits: vec![PlannedCommit {
            hash: "abcdef123456".to_string(),
            subject: "feat: add private release mode".to_string(),
            kind: CommitKind::Feature,
            breaking: false,
        }],
    }
}

#[test]
fn renders_feature_section() {
    let plan = feature_plan();
    let text = render_markdown(&plan);
    assert!(text.contains("### Features"));
    assert!(text.contains("add private release mode"));
}

#[test]
fn release_notes_are_exact() {
    let mut plan = feature_plan();
    plan.commits.push(PlannedCommit {
        hash: "0123456789".to_string(),
        subject: "fix!: drop old flag".to_string(),
        kind: CommitKind::Fix,
        breaking: true,
    });
    assert_eq!(
        render_markdown(&plan),
        "## 0.2.0\n\nChanges since `v0.1.0`\n\n### Features\n- feat: add private release mode (abcdef1)\n\n### Fixes\n- fix!: drop old flag (0123456) **BREAKING**\n\n"
    );
    plan.base_tag = None;
    plan.commits.clear();
    assert_eq!(render_markdown(&plan), "## 0.2.0\n\n");
}

#[test]
fn short_hash_keeps_seven_bytes() {
    assert_eq!(short_hash("abcdef123456").into_iter().collect::<String>(), "abcdef1");
    assert_eq!(short_hash("abc").into_iter().collect::<String>(), "abc");
}

#[test]
fn default_config_validates() {
    let cfg = ReleaseKthxConfig::default();
    assert!(cfg.validate().is_ok());
}

#[test]
fn template_requires_version_placeholder() {
    let mut cfg = ReleaseKthxConfig::default();
    cfg.release.tag_template = "release".to_string();
    assert!(cfg.validate().is_err());
}

#[test]
fn default_policy_is_auto() {
    let cfg = ReleaseKthxConfig::default();
    assert_eq!(cfg.release.internal_dependency_policy, InternalDependencyPolicy::Auto);
}

#[test]
fn each_config_error_has_its_input() {
    let mut cfg = ReleaseKthxConfig::default();
    assert_eq!(cfg.release.tag_template, "{{ crate }}-v{{ version }}");
    assert_eq!(cfg.github.token_env, "GITHUB_TOKEN");
    assert!(cfg.github.create_release);
    cfg.release.tag_template = "  ".to_string();
    assert_eq!(cfg.validate(), Err(ConfigError::EmptyTagTemplate));
    cfg.release.tag_template = "v{{ version }}".to_string();
    cfg.github.token_env = " ".to_string();
    assert_eq!(cfg.validate(), Err(ConfigError::EmptyTokenEnv));
    cfg.github.token_env = "TOKEN".to_string();
    cfg.github.repository_env = String::new();
    assert_eq!(cfg.validate(), Err(ConfigError::EmptyRepositoryEnv));
    assert_eq!(ConfigError::TagTemplateWithoutVersion.to_string(), "release.tag_template must contain '{ version }'");
}

#[test]
fn parse_empty_log_output() {
    let commits = collect_commits("");
    assert!(commits.is_empty());
}

#[test]
fn log_output_is_split_into_commits() {
    let raw = "aaa\u{1f}feat: one\u{1f}body one\u{1e}\n bbb\u{1f}fix: two\u{1f}\u{1e}\n\u{1f}no hash\u{1f}x\u{1e}ccc\u{1f} \u{1e}";
    let commits = collect_commits(raw);
    assert_eq!(commits.len(), 2);
    assert_eq!(commits[0].hash, "aaa");
    assert_eq!(commits[0].subject, "feat: one");
    assert_eq!(commits[0].body, "body one");
    assert_eq!(commits[1].hash, "bbb");
    assert_eq!(commits[1].body, "");
}

#[test]
fn git_argument_lists() {
    assert_eq!(collect_commits_args(None), vec!["log", "--pretty=format:%H%x1f%s%x1f%b%x1e"]);
    assert_eq!(collect_commits_args(Some("v1")), vec!["log", "--pretty=format:%H%x1f%s%x1f%b%x1e", "v1..HEAD"]);
    assert_eq!(tag_exists_args("v1"), vec!["rev-parse", "--verify", "--quiet", "refs/tags/v1"]);
    assert_eq!(push_tag("v1"), vec!["push", "origin", "v1"]);
    assert_eq!(create_annotated_tag(false, "v1", "Release 1"), Ok(vec!["tag".to_string(), "-a".into(), "v1".into(), "-m".into(), "Release 1".into()]));
    let refused = create_annotated_tag(true, "v1", "Release 1");
    assert_eq!(refused, Err(GitError::TagExists("v1".to_string())));
    assert_eq!(refused.unwrap_err().to_string(), "tag v1 already exists");
}

#[test]
fn latest_tag_reads_trimmed_output() {
    assert_eq!(latest_tag(true, " v1.2.0\n"), Some("v1.2.0".to_string()));
    assert_eq!(latest_tag(true, " \n"), None);
    assert_eq!(latest_tag(false, "v1.2.0"), None);
}

#[test]
fn gh_errors_are_explained() {
    let args = vec!["pr".to_string(), "create".to_string()];
    let blocked = format_gh_error(&args, "GraphQL: createPullRequest denied");
    assert!(blocked.starts_with("Cannot create release PR from this workflow run."));
    assert!(blocked.ends_with("Original gh args: [\"pr\", \"create\"]\nOriginal error: GraphQL: createPullRequest denied"));
    let legacy = format_gh_error(&args, "Projects (classic) is being deprecated");
    assert!(legacy.starts_with("GitHub CLI failed due to a legacy Projects(classic) GraphQL field.\n"));
    assert_eq!(format_gh_error(&args, "boom"), "gh [\"pr\", \"create\"] failed: boom");
}

#[test]
fn optional_output_is_none_for_failure_blank_or_null() {
    assert_eq!(optional_output(false, "12"), None);
    assert_eq!(optional_output(true, "  \n"), None);
    assert_eq!(optional_output(true, "null\n"), None);
    assert_eq!(optional_output(true, " 12\n"), Some("12".to_string()));
}

fn pr_request(repository: Option<&str>) -> ReleasePrRequest {
    ReleasePrRequest {
        base_branch: "main".to_string(),
        pr_branch: "release".to_string(),
        title: "chore(release): v0.2.0".to_string(),
        body: "notes".to_string(),
        repository: repository.map(|r| r.to_string()),
    }
}

#[test]
fn release_pr_flow_updates_an_open_pull_request() {
    let req = pr_request(Some("acme/tool"));
    let (flow, cmd) = create_or_update_release_pr(&req, ReleasePrFlow::Start, None).expect("start");
    let cmd = cmd.expect("list command");
    assert!(cmd.optional);
    assert_eq!(cmd.args[0..4], ["pr", "list", "--head", "release"]);
    let (flow, cmd) = create_or_update_release_pr(&req, flow, Some("7".to_string())).expect("listed");
    assert_eq!(flow, ReleasePrFlow::Updating { number: "7".to_string() });
    let cmd = cmd.expect("update command");
    assert!(!cmd.optional);
    assert_eq!(
        cmd.args,
        vec!["api", "--method", "PATCH", "repos/acme/tool/pulls/7", "-f", "title=chore(release): v0.2.0", "-f", "body=notes"]
    );
    let (flow, cmd) = create_or_update_release_pr(&req, flow, Some(String::new())).expect("updated");
    assert_eq!(flow, ReleasePrFlow::FetchingUrl { number: "7".to_string() });
    assert_eq!(cmd.expect("url command").args, vec!["api", "repos/acme/tool/pulls/7", "--jq", ".html_url"]);
    let (flow, cmd) = create_or_update_release_pr(&req, flow, Some("https://x/7".to_string())).expect("done");
    assert_eq!(flow, ReleasePrFlow::Finished { url: "https://x/7".to_string() });
    assert!(cmd.is_none());
}

#[test]
fn release_pr_flow_creates_when_none_is_open() {
    let req = pr_request(None);
    let (flow, _) = create_or_update_release_pr(&req, ReleasePrFlow::Start, None).expect("start");
    let (flow, cmd) = create_or_update_release_pr(&req, flow, None).expect("listed");
    assert_eq!(flow, ReleasePrFlow::Creating);
    assert_eq!(
        cmd.expect("create command").args,
        vec!["pr", "create", "--base", "main", "--head", "release", "--title", "chore(release): v0.2.0", "--body", "notes"]
    );
    let (flow, _) = create_or_update_release_pr(&req, flow, Some("https://x/8".to_string())).expect("done");
    assert_eq!(flow, ReleasePrFlow::Finished { url: "https://x/8".to_string() });
}

#[test]
fn release_pr_flow_needs_the_repository_to_update() {
    let req = pr_request(None);
    let result = create_or_update_release_pr(&req, ReleasePrFlow::Listing, Some("7".to_string()));
    assert!(matches!(result, Err(GhFlowError::MissingRepository)));
    let result = create_or_update_release_pr(&req, ReleasePrFlow::Creating, None);
    assert!(matches!(result, Err(GhFlowError::MissingOutput)));
}

#[test]
fn release_flow_edits_or_creates() {
    let req = ReleaseRequest { tag_name: "v1".to_string(), title: "Release 1".to_string(), notes: "n".to_string() };
    let (flow, cmd) = create_or_update_release(&req, ReleaseFlow::Start, None).expect("start");
    assert_eq!(flow, ReleaseFlow::Viewing);
    assert_eq!(cmd.expect("view").args, vec!["release", "view", "v1", "--json", "url", "--jq", ".url"]);
    let (edit, cmd) = create_or_update_release(&req, ReleaseFlow::Viewing, Some("u".to_string())).expect("seen");
    assert_eq!(edit, ReleaseFlow::Editing);
    assert_eq!(cmd.expect("edit").args, vec!["release", "edit", "v1", "--title", "Release 1", "--notes", "n"]);
    let (review, cmd) = create_or_update_release(&req, edit, Some(String::new())).expect("edited");
    assert_eq!(review, ReleaseFlow::Reviewing);
    assert!(!cmd.expect("view again").optional);
    let (done, _) = create_or_update_release(&req, review, Some("u2".to_string())).expect("done");
    assert_eq!(done, ReleaseFlow::Finished { url: "u2".to_string() });
    let (create, cmd) = create_or_update_release(&req, ReleaseFlow::Viewing, None).expect("missing");
    assert_eq!(create, ReleaseFlow::Creating);
    assert_eq!(cmd.expect("create").args[1], "create");
}

#[test]
fn command_texts() {
    let v = Version::new(1, 4, 0);
    assert_eq!(release_tag_name("v{{ version }}", &v), "v1.4.0");
    assert_eq!(release_tag_name("{{ version }}/{{ version }}", &v), "1.4.0/1.4.0");
    assert_eq!(release_pr_title(&v), "chore(release): v1.4.0");
    assert_eq!(release_title(&v), "Release 1.4.0");
    assert_eq!(
        publish_notes(&v),
        "Automated publish for `1.4.0`.\n\nThis release is created after the release PR merge."
    );
}

#[test]
fn release_pr_body_lists_manifests_and_notes() {
    let plan = feature_plan();
    let body = release_pr_body(&plan, &["Cargo.toml".to_string(), "crates/a/Cargo.toml".to_string()]);
    assert_eq!(
        body,
        "## Release PR\n\n- Current version: `0.1.0`\n- Next version: `0.2.0`\n- Bump: `minor`\n\n## Changed manifests\n- `Cargo.toml`\n- `crates/a/Cargo.toml`\n\n"
            .to_string()
            + &render_markdown(&plan)
    );
}

#[test]
fn push_events_and_their_range() {
    assert!(is_push_event("push"));
    assert!(!is_push_event("pull_request"));
    assert_eq!(push_range("0000000000000000000000000000000000000000".to_string(), "abc".to_string()), None);
    assert_eq!(push_range("def".to_string(), "abc".to_string()), Some(("def".to_string(), "abc".to_string())));
}

#[test]
fn release_tag_actions_follow_dry_run_and_push() {
    let v = Version::new(0, 2, 0);
    assert!(release_tag_actions("v0.2.0", &v, true, true).is_empty());
    assert_eq!(
        release_tag_actions("v0.2.0", &v, false, true),
        vec![
            TagAction::CreateTag { tag: "v0.2.0".to_string(), message: "Release 0.2.0".to_string() },
            TagAction::PushTag { tag: "v0.2.0".to_string() },
        ]
    );
    assert_eq!(release_tag_actions("v0.2.0", &v, false, false)[1], TagAction::PushHint { tag: "v0.2.0".to_string() });
}

#[test]
fn publish_actions_follow_dry_run_push_and_release() {
    let v = Version::new(1, 0, 0);
    assert!(publish_actions("v1", &v, true, true, true).is_empty());
    let all = publish_actions("v1", &v, false, true, true);
    assert_eq!(all.len(), 3);
    assert_eq!(all[0], PublishAction::CreateTag { tag: "v1".to_string(), message: "Release 1.0.0".to_string() });
    assert_eq!(all[1], PublishAction::PushTag { tag: "v1".to_string() });
    assert_eq!(
        all[2],
        PublishAction::CreateRelease {
            tag: "v1".to_string(),
            title: "Release 1.0.0".to_string(),
            notes: "Automated publish for `1.0.0`.\n\nThis release is created after the release PR merge.".to_string(),
        }
    );
    assert_eq!(publish_actions("v1", &v, false, false, false).len(), 1);
    assert!(matches!(publish_actions("v1", &v, false, false, true)[1], PublishAction::CreateRelease { .. }));
}

#[test]
fn release_pr_stages_manifests_and_changed_lock() {
    assert_eq!(release_pr_files(Vec::new(), true), Err(ReleasePrError::NoVersionFields));
    assert_eq!(ReleasePrError::NoVersionFields.to_string(), "no Cargo.toml version fields found to update");
    assert_eq!(release_pr_files(vec!["Cargo.toml".to_string()], false), Ok(vec!["Cargo.toml".to_string()]));
    assert_eq!(
        release_pr_files(vec!["a/Cargo.toml".to_string()], true),
        Ok(vec!["a/Cargo.toml".to_string(), "Cargo.lock".to_string()])
    );
}

#[test]
fn more_git_arguments_and_file_lists() {
    assert_eq!(changed_files_args("abc"), vec!["show", "--name-only", "--format=", "abc"]);
    assert_eq!(latest_tag_args(), vec!["describe", "--tags", "--abbrev=0"]);
    assert_eq!(checkout_branch_args("rel"), vec!["checkout", "-B", "rel"]);
    assert_eq!(add_files_args(&vec!["a".to_string(), "b".to_string()]), vec!["add", "--", "a", "b"]);
    assert_eq!(staged_changes_args(), vec!["diff", "--cached", "--quiet"]);
    assert_eq!(push_branch_args("rel"), vec!["push", "--force-with-lease", "origin", "rel"]);
    assert_eq!(commit_args(false, "m"), None);
    assert_eq!(commit_args(true, "m"), Some(vec!["commit".to_string(), "-m".to_string(), "m".to_string()]));
    let files = changed_files("\ncrates/api/src/lib.rs\r\n  README.md \n\na//b/\n");
    assert_eq!(
        files,
        vec![
            vec!["crates".to_string(), "api".to_string(), "src".to_string(), "lib.rs".to_string()],
            vec!["README.md".to_string()],
            vec!["a".to_string(), "b".to_string()],
        ]
    );
    assert!(changed_files("").is_empty());
}
