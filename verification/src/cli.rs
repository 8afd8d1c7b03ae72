//! The command line: which command runs, and on what.

use vstd::prelude::*;

verus! {

/// The parsed command line.
#[derive(Debug)]
pub struct Cli {
    pub command: Command,
}

/// A command of the tool. Every path defaults to the current directory (`.`).
#[derive(Debug)]
pub enum Command {
    /// Write a default `release-kthx.toml`, over an existing one with `force`.
    Init { path: String, force: bool },
    /// Read and validate the configuration.
    Check { path: String },
    /// Show the release plan, counting commits since `from_tag` when given.
    Plan { path: String, from_tag: Option<String> },
    /// Tag the release; `dry_run` only shows it, `push` pushes the tag.
    Release { path: String, from_tag: Option<String>, dry_run: bool, push: bool },
    /// Open or update the pull request that bumps the versions of the
    /// crates with releasable changes, from `pr_branch` into `base_branch`.
    ReleasePr { path: String, from_tag: Option<String>, base_branch: String, pr_branch: String },
    /// Tag the versions in the manifests and create their GitHub releases.
    Publish { path: String, dry_run: bool, push: bool },
}

} // verus!
