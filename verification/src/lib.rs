//! Release planning for Rust workspaces driven by conventional commits.

pub mod text;
pub mod version;
pub mod commit;
pub mod versioning;
pub mod release_plan;
pub mod internal_dependencies;
pub mod sorted;
pub mod topology;
pub mod changelog;
pub mod config;
pub mod path;
pub mod release;
pub mod manifest;
pub mod git;
pub mod github;
pub mod cli;
pub mod event;
pub mod commands;
pub mod planner;
