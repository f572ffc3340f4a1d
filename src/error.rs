//! The errors of the library.

use vstd::prelude::*;

verus! {

/// What can go wrong while working out a release and its changes.
#[derive(Debug)]
pub enum CommitSenseError {
    Config(String),
    /// A git command failed, or its output could not be used.
    GitCommand(String),
    Project(String),
    Api(String),
    Version(String),
    Changelog(String),
    /// A tag regular expression that does not compile.
    Regex(regex::Error),
    /// A tag glob pattern that does not compile.
    Glob(glob::PatternError),
}

/// The message of the error for a repository without commits.
pub const NO_INITIAL_COMMIT: &'static str =
    "Could not find the initial commit (no commits with zero parents found from HEAD).";

/// The message of the error for a tag listing without tags.
pub const NO_VERSION_TAGS: &'static str = "No version tags found";

/// Why the search for a release's base commit gave up.
pub enum ResolveFailure {
    /// The explicitly given reference names no commit.
    ExplicitRef,
    /// The tag that was picked names no commit.
    TagRef,
    /// The tag glob pattern does not compile.
    InvalidGlob,
    /// The tag regular expression does not compile.
    InvalidRegex,
    /// No commit without parents is reachable from `HEAD`: there are no commits.
    NoInitialCommit,
}

impl CommitSenseError {
    /// The text an error carries; for a pattern error, what kind it is.
    pub fn detail(&self) -> (r: String) {
        match self {
            CommitSenseError::Config(m) => m.clone(),
            CommitSenseError::GitCommand(m) => m.clone(),
            CommitSenseError::Project(m) => m.clone(),
            CommitSenseError::Api(m) => m.clone(),
            CommitSenseError::Version(m) => m.clone(),
            CommitSenseError::Changelog(m) => m.clone(),
            CommitSenseError::Regex(_) => "invalid regular expression".to_owned(),
            CommitSenseError::Glob(_) => "invalid glob pattern".to_owned(),
        }
    }

    /// The error is the one reported for `f`; the one for a repository
    /// without commits carries `NO_INITIAL_COMMIT`.
    pub open spec fn signals(&self, f: ResolveFailure) -> bool {
        match f {
            ResolveFailure::ExplicitRef => self is Config,
            ResolveFailure::TagRef => self is Version,
            ResolveFailure::InvalidGlob => self is Glob,
            ResolveFailure::InvalidRegex => self is Regex,
            ResolveFailure::NoInitialCommit => match self {
                CommitSenseError::GitCommand(m) => m@ == NO_INITIAL_COMMIT@,
                _ => false,
            },
        }
    }
}

} // verus!
