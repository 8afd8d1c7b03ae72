# release-kthx

Release automation for Rust workspaces, planned from conventional commits.

`src/` is the library, verified with Verus: commit classification and
version bumps, the release topology of a workspace, per-crate release plans
read from commit history, release notes, the configuration rules, the edits
of `Cargo.toml` and `Cargo.lock`, the steps of tagging, publishing and
preparing the release pull request, and the `git` and `gh` commands (their
arguments, how their output is read, what comes next). Each public function
states in its `ensures` what it returns. Planning from the commit history
comes in two forms: `planner` asks its questions one at a time and states
the next question, or the plans, for every answer; the trait-based
`build_crate_release_plans_with_history` states what holds whatever the
history returns (its errors, and plans that some history gives), since the
trait's answers come from the repository on disk. The `lemma_*` proof
functions state the laws that span several calls.

The calls into `semver`, `toml`, `toml_edit` and `std` formatting sit behind
`#[verifier::external_body]` wrappers whose contracts name what those crates
return.

`app/` is the command-line program around the library: argument parsing
(clap), the configuration file (serde, toml), the file system, the
environment and the `git` and `gh` processes.

`tests/` runs the library on concrete inputs.
