//! Works out which commit marks a project's last release, lists the commits
//! made since, and keeps the project's version and changelog in step.

pub mod changelog;
pub mod cli;
pub mod error;
pub mod git;
pub mod patterns;
pub mod project;
pub mod selection;
pub mod suggestion;
pub mod text;
pub mod version;

pub use crate::cli::ProjectType;
pub use crate::error::CommitSenseError;
