//! What the release flow asks of the GitHub CLI, step by step, and how its
//! failures are explained.
//!
//! Running `gh` is the caller's business: each step function takes the flow's
//! state and what the last command printed, and gives the next state and the
//! next command.

use vstd::prelude::*;

use crate::git::{args_of, args_view};
use crate::text::{contains_seq, contains_str, owned, push_str, trim, trim_str};

verus! {

/// The start of the message for a token that may not create pull requests.
pub const PR_BLOCKED_MESSAGE: &'static str = "Cannot create release PR from this workflow run. GitHub is blocking pull request creation for this token.\n\nWhat to do:\n1) In repository settings, set Actions -> General -> Workflow permissions to 'Read and write permissions'.\n2) In repository settings, enable 'Allow GitHub Actions to create and approve pull requests'.\n3) Keep workflow job permissions including `pull-requests: write` and `contents: write`.\n\nOriginal gh args: ";

/// The start of the message for a failure in a legacy GraphQL field.
pub const LEGACY_PROJECTS_MESSAGE: &'static str = "GitHub CLI failed due to a legacy Projects(classic) GraphQL field.\nThis usually comes from older gh flows using projectCards.\nrelease-kthx now uses REST for PR updates to avoid this, so rerun after updating to the latest action commit.\n\nOriginal gh args: ";

/// A `gh` run: its arguments, and whether a failure just means "nothing"
/// (the output is then read as optional).
#[derive(Debug)]
pub struct GhCommand {
    pub args: Vec<String>,
    pub optional: bool,
}

/// Why a flow cannot go on.
#[derive(Debug, Clone, Copy, PartialEq, Eq, Structural)]
pub enum GhFlowError {
    /// The repository slug (`GITHUB_REPOSITORY`) is needed and unknown.
    MissingRepository,
    /// A command that must print something printed nothing usable.
    MissingOutput,
}

/// Where the release pull request flow stands.
#[derive(Debug, PartialEq, Eq)]
pub enum ReleasePrFlow {
    Start,
    /// Looking for an open pull request from the release branch.
    Listing,
    /// Updating the title and body of pull request `number`.
    Updating { number: String },
    /// Asking for the address of pull request `number`.
    FetchingUrl { number: String },
    /// Creating the pull request.
    Creating,
    /// Done; `url` is the pull request's address.
    Finished { url: String },
}

/// Where the GitHub release flow stands.
#[derive(Debug, PartialEq, Eq)]
pub enum ReleaseFlow {
    Start,
    /// Looking for the release of the tag.
    Viewing,
    /// Editing the existing release.
    Editing,
    /// Asking for the edited release's address.
    Reviewing,
    /// Creating the release.
    Creating,
    /// Done; `url` is the release's address.
    Finished { url: String },
}

/// What a release pull request is made of.
#[derive(Debug)]
pub struct ReleasePrRequest {
    pub base_branch: String,
    pub pr_branch: String,
    pub title: String,
    pub body: String,
    /// The `owner/name` of the repository, when known.
    pub repository: Option<String>,
}

/// What a GitHub release is made of.
#[derive(Debug)]
pub struct ReleaseRequest {
    pub tag_name: String,
    pub title: String,
    pub notes: String,
}

// ---------------------------------------------------------------------------
// Specifications
// ---------------------------------------------------------------------------

/// How `{:?}` shows a list of strings. It depends on the strings alone.
pub uninterp spec fn spec_debug_args(args: Seq<Seq<char>>) -> Seq<char>;

/// The message for a failed `gh` run: an explanation for a token that may not
/// create pull requests, or for a legacy GraphQL field, else the arguments
/// and the error.
pub open spec fn gh_error_text(args: Seq<Seq<char>>, stderr: Seq<char>) -> Seq<char> {
    if contains_seq(stderr, "GitHub Actions is not permitted to create or approve pull requests"@)
        || contains_seq(stderr, "createPullRequest"@) {
        PR_BLOCKED_MESSAGE@ + spec_debug_args(args) + "\nOriginal error: "@ + stderr
    } else if contains_seq(stderr, "repository.pullRequest.projectCards"@) || contains_seq(
        stderr,
        "Projects (classic) is being deprecated"@,
    ) {
        LEGACY_PROJECTS_MESSAGE@ + spec_debug_args(args) + "\nOriginal error: "@ + stderr
    } else {
        "gh "@ + spec_debug_args(args) + " failed: "@ + stderr
    }
}

/// The REST endpoint of a pull request.
pub open spec fn pull_endpoint(repo: Seq<char>, number: Seq<char>) -> Seq<char> {
    "repos/"@ + repo + "/pulls/"@ + number
}

/// The arguments that list the open pull request from the release branch.
pub open spec fn list_pr_args(req: ReleasePrRequest) -> Seq<Seq<char>> {
    seq![
        "pr"@,
        "list"@,
        "--head"@,
        req.pr_branch@,
        "--base"@,
        req.base_branch@,
        "--state"@,
        "open"@,
        "--json"@,
        "number"@,
        "--jq"@,
        ".[0].number"@,
    ]
}

/// The arguments that update a pull request's title and body.
pub open spec fn update_pr_args(req: ReleasePrRequest, repo: Seq<char>, number: Seq<char>) -> Seq<Seq<char>> {
    seq![
        "api"@,
        "--method"@,
        "PATCH"@,
        pull_endpoint(repo, number),
        "-f"@,
        "title="@ + req.title@,
        "-f"@,
        "body="@ + req.body@,
    ]
}

/// The arguments that ask for a pull request's address.
pub open spec fn pr_url_args(repo: Seq<char>, number: Seq<char>) -> Seq<Seq<char>> {
    seq!["api"@, pull_endpoint(repo, number), "--jq"@, ".html_url"@]
}

/// The arguments that create the pull request.
pub open spec fn create_pr_args(req: ReleasePrRequest) -> Seq<Seq<char>> {
    seq![
        "pr"@,
        "create"@,
        "--base"@,
        req.base_branch@,
        "--head"@,
        req.pr_branch@,
        "--title"@,
        req.title@,
        "--body"@,
        req.body@,
    ]
}

/// The arguments that show a release's address.
pub open spec fn view_release_args(req: ReleaseRequest) -> Seq<Seq<char>> {
    seq!["release"@, "view"@, req.tag_name@, "--json"@, "url"@, "--jq"@, ".url"@]
}

/// The arguments that edit or create (`verb`) a release.
pub open spec fn write_release_args(req: ReleaseRequest, verb: Seq<char>) -> Seq<Seq<char>> {
    seq!["release"@, verb, req.tag_name@, "--title"@, req.title@, "--notes"@, req.notes@]
}

/// `cmd` runs `args`, optional or not.
pub open spec fn runs(cmd: Option<GhCommand>, args: Seq<Seq<char>>, optional: bool) -> bool {
    cmd matches Some(c) && args_view(c.args@) == args && c.optional == optional
}

/// The output of an optional run: none when it failed, printed only
/// whitespace or printed `null`; else the trimmed output.
pub open spec fn optional_text(succeeded: bool, stdout: Seq<char>) -> Option<Seq<char>> {
    if !succeeded || trim(stdout).len() == 0 || trim(stdout) == "null"@ {
        None
    } else {
        Some(trim(stdout))
    }
}

// ---------------------------------------------------------------------------
// Trusted call into std
// ---------------------------------------------------------------------------

/// `format!("{:?}", args)`; the contract names the result (`spec_debug_args`).
#[verifier::external_body]
fn debug_args(args: &Vec<String>) -> (r: String)
    ensures
        r@ == spec_debug_args(args_view(args@)),
{
    format!("{:?}", args)
}

// ---------------------------------------------------------------------------
// Implementation
// ---------------------------------------------------------------------------

/// `prefix` followed by `text`.
fn joined(prefix: &str, text: &str) -> (r: String)
    ensures
        r@ == prefix@ + text@,
{
    let mut r = owned(prefix);
    push_str(&mut r, text);
    r
}

/// The REST endpoint of a pull request.
fn pull_endpoint_text(repo: &str, number: &str) -> (r: String)
    ensures
        r@ == pull_endpoint(repo@, number@),
{
    let mut r = owned("repos/");
    push_str(&mut r, repo);
    push_str(&mut r, "/pulls/");
    push_str(&mut r, number);
    r
}

/// The message for a failed `gh` run with these arguments and error output.
pub fn format_gh_error(args: &Vec<String>, stderr: &str) -> (r: String)
    ensures
        r@ == gh_error_text(args_view(args@), stderr@),
{
    let shown = debug_args(args);
    if contains_str(stderr, "GitHub Actions is not permitted to create or approve pull requests")
        || contains_str(stderr, "createPullRequest") {
        let mut r = owned(PR_BLOCKED_MESSAGE);
        push_str(&mut r, shown.as_str());
        push_str(&mut r, "\nOriginal error: ");
        push_str(&mut r, stderr);
        return r;
    }
    if contains_str(stderr, "repository.pullRequest.projectCards") || contains_str(
        stderr,
        "Projects (classic) is being deprecated",
    ) {
        let mut r = owned(LEGACY_PROJECTS_MESSAGE);
        push_str(&mut r, shown.as_str());
        push_str(&mut r, "\nOriginal error: ");
        push_str(&mut r, stderr);
        return r;
    }
    let mut r = owned("gh ");
    push_str(&mut r, shown.as_str());
    push_str(&mut r, " failed: ");
    push_str(&mut r, stderr);
    r
}

/// The output of an optional `gh` run.
pub fn optional_output(succeeded: bool, stdout: &str) -> (r: Option<String>)
    ensures
        match optional_text(succeeded, stdout@) {
            None => r is None,
            Some(t) => r matches Some(s) && s@ == t,
        },
{
    if !succeeded {
        return None;
    }
    let out = trim_str(stdout);
    let oc = crate::text::chars_of(out.as_str());
    if out.as_str().is_empty() || crate::text::chars_eq_str(oc.as_slice(), "null") {
        None
    } else {
        Some(out)
    }
}

/// The arguments that update a pull request's title and body.
fn update_pull_request(req: &ReleasePrRequest, repo: &str, number: &str) -> (r: Vec<String>)
    ensures
        args_view(r@) == update_pr_args(*req, repo@, number@),
{
    let endpoint = pull_endpoint_text(repo, number);
    let title = joined("title=", req.title.as_str());
    let body = joined("body=", req.body.as_str());
    let r = args_of(&["api", "--method", "PATCH", endpoint.as_str(), "-f", title.as_str(), "-f", body.as_str()]);
    assert(args_view(r@) =~= update_pr_args(*req, repo@, number@));
    r
}

/// The arguments that ask for a pull request's address.
fn pull_request_url(repo: &str, number: &str) -> (r: Vec<String>)
    ensures
        args_view(r@) == pr_url_args(repo@, number@),
{
    let endpoint = pull_endpoint_text(repo, number);
    let r = args_of(&["api", endpoint.as_str(), "--jq", ".html_url"]);
    assert(args_view(r@) =~= pr_url_args(repo@, number@));
    r
}

/// The next step of creating or updating the release pull request, given
/// what the previous command printed (its trimmed output, `None` for an
/// optional run that found nothing). The flow lists open pull requests from
/// the release branch; when one exists it updates its title and body and
/// asks for its address, otherwise it creates one; the address printed last
/// ends the flow.
pub fn create_or_update_release_pr(req: &ReleasePrRequest, flow: ReleasePrFlow, output: Option<String>) -> (r: Result<(ReleasePrFlow, Option<GhCommand>), GhFlowError>)
    ensures
        match flow {
            ReleasePrFlow::Start => r matches Ok((f, c)) && f == ReleasePrFlow::Listing && runs(c, list_pr_args(*req), true),
            ReleasePrFlow::Listing => match output {
                Some(number) => match req.repository {
                    Some(repo) => r matches Ok((f, c)) && f == (ReleasePrFlow::Updating { number })
                        && runs(c, update_pr_args(*req, repo@, number@), false),
                    None => r == Err::<(ReleasePrFlow, Option<GhCommand>), GhFlowError>(GhFlowError::MissingRepository),
                },
                None => r matches Ok((f, c)) && f == ReleasePrFlow::Creating && runs(c, create_pr_args(*req), false),
            },
            ReleasePrFlow::Updating { number } => match req.repository {
                Some(repo) => r matches Ok((f, c)) && f == (ReleasePrFlow::FetchingUrl { number })
                    && runs(c, pr_url_args(repo@, number@), false),
                None => r == Err::<(ReleasePrFlow, Option<GhCommand>), GhFlowError>(GhFlowError::MissingRepository),
            },
            ReleasePrFlow::FetchingUrl { .. } | ReleasePrFlow::Creating => match output {
                Some(url) => r matches Ok((f, c)) && f == (ReleasePrFlow::Finished { url }) && c is None,
                None => r == Err::<(ReleasePrFlow, Option<GhCommand>), GhFlowError>(GhFlowError::MissingOutput),
            },
            ReleasePrFlow::Finished { url } => r matches Ok((f, c)) && f == (ReleasePrFlow::Finished { url }) && c is None,
        },
{
    match flow {
        ReleasePrFlow::Start => {
            let args = args_of(
                &[
                    "pr",
                    "list",
                    "--head",
                    req.pr_branch.as_str(),
                    "--base",
                    req.base_branch.as_str(),
                    "--state",
                    "open",
                    "--json",
                    "number",
                    "--jq",
                    ".[0].number",
                ],
            );
            assert(args_view(args@) =~= list_pr_args(*req));
            Ok((ReleasePrFlow::Listing, Some(GhCommand { args, optional: true })))
        },
        ReleasePrFlow::Listing => match output {
            Some(number) => match &req.repository {
                Some(repo) => {
                    let args = update_pull_request(req, repo.as_str(), number.as_str());
                    Ok((ReleasePrFlow::Updating { number }, Some(GhCommand { args, optional: false })))
                },
                None => Err(GhFlowError::MissingRepository),
            },
            None => {
                let args = args_of(
                    &[
                        "pr",
                        "create",
                        "--base",
                        req.base_branch.as_str(),
                        "--head",
                        req.pr_branch.as_str(),
                        "--title",
                        req.title.as_str(),
                        "--body",
                        req.body.as_str(),
                    ],
                );
                assert(args_view(args@) =~= create_pr_args(*req));
                Ok((ReleasePrFlow::Creating, Some(GhCommand { args, optional: false })))
            },
        },
        ReleasePrFlow::Updating { number } => match &req.repository {
            Some(repo) => {
                let args = pull_request_url(repo.as_str(), number.as_str());
                Ok((ReleasePrFlow::FetchingUrl { number }, Some(GhCommand { args, optional: false })))
            },
            None => Err(GhFlowError::MissingRepository),
        },
        ReleasePrFlow::FetchingUrl { .. } | ReleasePrFlow::Creating => match output {
            Some(url) => Ok((ReleasePrFlow::Finished { url }, None)),
            None => Err(GhFlowError::MissingOutput),
        },
        ReleasePrFlow::Finished { url } => Ok((ReleasePrFlow::Finished { url }, None)),
    }
}

/// The arguments that edit or create (`verb`) a release.
fn write_release(req: &ReleaseRequest, verb: &str) -> (r: Vec<String>)
    ensures
        args_view(r@) == write_release_args(*req, verb@),
{
    let r = args_of(
        &["release", verb, req.tag_name.as_str(), "--title", req.title.as_str(), "--notes", req.notes.as_str()],
    );
    assert(args_view(r@) =~= write_release_args(*req, verb@));
    r
}

/// The arguments that show a release's address.
fn view_release(req: &ReleaseRequest) -> (r: Vec<String>)
    ensures
        args_view(r@) == view_release_args(*req),
{
    let r = args_of(&["release", "view", req.tag_name.as_str(), "--json", "url", "--jq", ".url"]);
    assert(args_view(r@) =~= view_release_args(*req));
    r
}

/// The next step of creating or updating the GitHub release of a tag, given
/// what the previous command printed (its trimmed output, `None` for an
/// optional run that found nothing). The flow looks for the release; when it
/// exists it edits it and asks for its address again, otherwise it creates
/// it; the address printed last ends the flow.
pub fn create_or_update_release(req: &ReleaseRequest, flow: ReleaseFlow, output: Option<String>) -> (r: Result<(ReleaseFlow, Option<GhCommand>), GhFlowError>)
    ensures
        match flow {
            ReleaseFlow::Start => r matches Ok((f, c)) && f == ReleaseFlow::Viewing && runs(c, view_release_args(*req), true),
            ReleaseFlow::Viewing => match output {
                Some(_) => r matches Ok((f, c)) && f == ReleaseFlow::Editing && runs(c, write_release_args(*req, "edit"@), false),
                None => r matches Ok((f, c)) && f == ReleaseFlow::Creating && runs(c, write_release_args(*req, "create"@), false),
            },
            ReleaseFlow::Editing => r matches Ok((f, c)) && f == ReleaseFlow::Reviewing && runs(c, view_release_args(*req), false),
            ReleaseFlow::Reviewing | ReleaseFlow::Creating => match output {
                Some(url) => r matches Ok((f, c)) && f == (ReleaseFlow::Finished { url }) && c is None,
                None => r == Err::<(ReleaseFlow, Option<GhCommand>), GhFlowError>(GhFlowError::MissingOutput),
            },
            ReleaseFlow::Finished { url } => r matches Ok((f, c)) && f == (ReleaseFlow::Finished { url }) && c is None,
        },
{
    match flow {
        ReleaseFlow::Start => {
            let args = view_release(req);
            Ok((ReleaseFlow::Viewing, Some(GhCommand { args, optional: true })))
        },
        ReleaseFlow::Viewing => match output {
            Some(_) => {
                let args = write_release(req, "edit");
                Ok((ReleaseFlow::Editing, Some(GhCommand { args, optional: false })))
            },
            None => {
                let args = write_release(req, "create");
                Ok((ReleaseFlow::Creating, Some(GhCommand { args, optional: false })))
            },
        },
        ReleaseFlow::Editing => {
            let args = view_release(req);
            Ok((ReleaseFlow::Reviewing, Some(GhCommand { args, optional: false })))
        },
        ReleaseFlow::Reviewing | ReleaseFlow::Creating => match output {
            Some(url) => Ok((ReleaseFlow::Finished { url }, None)),
            None => Err(GhFlowError::MissingOutput),
        },
        ReleaseFlow::Finished { url } => Ok((ReleaseFlow::Finished { url }, None)),
    }
}

} // verus!
