//! The options of a run and the kinds of project it can handle.

use crate::error::CommitSenseError;
use crate::git::concat;
use crate::text::same_text;
use vstd::prelude::*;

verus! {

/// The kinds of project whose version file the library can handle.
#[derive(Debug, Clone, Copy, PartialEq, Eq, Structural)]
pub enum ProjectType {
    Rust,
    JavaScript,
}

/// The lower-case form of `s`, as `str::to_lowercase` gives it.
pub uninterp spec fn lowercase_of(s: Seq<char>) -> Seq<char>;

/// Relies on `str::to_lowercase`: the result depends on the characters alone,
/// and an empty text stays empty.
#[verifier::external_body]
fn to_lowercase(s: &str) -> (r: String)
    ensures
        r@ == lowercase_of(s@),
        s@.len() == 0 ==> r@.len() == 0,
{
    s.to_lowercase()
}

/// The project type that a lower-case name stands for.
pub open spec fn project_type_named(name: Seq<char>) -> Option<ProjectType> {
    if name == "rust"@ {
        Some(ProjectType::Rust)
    } else if name == "js"@ || name == "ts"@ || name == "javascript"@ || name == "typescript"@
        || name == "node"@ {
        Some(ProjectType::JavaScript)
    } else {
        None
    }
}

/// The error for a project type name `given` that names no type.
pub open spec fn invalid_type_message(given: Seq<char>) -> Seq<char> {
    "Invalid project type '"@ + given
        + "'. Supported types are 'rust', 'js', 'ts', 'javascript', 'typescript', 'node'."@
}

/// The name shown to users for a project type.
pub open spec fn type_display_name(t: ProjectType) -> Seq<char> {
    match t {
        ProjectType::Rust => "Rust"@,
        ProjectType::JavaScript => "JavaScript/TypeScript"@,
    }
}

impl ProjectType {
    /// The project type that the lower-case `name` stands for; an error that
    /// quotes `given` where it stands for none.
    pub fn from_lowercase(name: &str, given: &str) -> (r: Result<ProjectType, String>)
        ensures
            match project_type_named(name@) {
                Some(t) => r == Ok::<ProjectType, String>(t),
                None => r matches Err(m) && m@ == invalid_type_message(given@),
            },
    {
        if same_text(name, "rust") {
            Ok(ProjectType::Rust)
        } else if same_text(name, "js") || same_text(name, "ts") || same_text(name, "javascript")
            || same_text(name, "typescript") || same_text(name, "node") {
            Ok(ProjectType::JavaScript)
        } else {
            let head = concat("Invalid project type '", given);
            Err(
                concat(
                    head.as_str(),
                    "'. Supported types are 'rust', 'js', 'ts', 'javascript', 'typescript', 'node'.",
                ),
            )
        }
    }

    /// The project type that `s` names, in any letter case.
    pub fn parse_name(s: &str) -> (r: Result<ProjectType, String>)
        ensures
            match project_type_named(lowercase_of(s@)) {
                Some(t) => r == Ok::<ProjectType, String>(t),
                None => r matches Err(m) && m@ == invalid_type_message(s@),
            },
    {
        let lower = to_lowercase(s);
        ProjectType::from_lowercase(lower.as_str(), s)
    }

    /// The name shown to users.
    pub fn display_name(&self) -> (r: &'static str)
        ensures
            r@ == type_display_name(*self),
    {
        match self {
            ProjectType::Rust => "Rust",
            ProjectType::JavaScript => "JavaScript/TypeScript",
        }
    }
}

impl std::str::FromStr for ProjectType {
    type Err = String;

    fn from_str(s: &str) -> Result<ProjectType, String> {
        ProjectType::parse_name(s)
    }
}

/// The options of a run.
pub struct Cli {
    /// The project directory, or a package directory inside a monorepo.
    pub path: String,
    pub api_key: String,
    pub api_url: String,
    pub model: String,
    /// The project type; detected from the files present where absent.
    pub project_type: Option<ProjectType>,
    /// The reference that marks the last release, overriding the search.
    pub base_ref: Option<String>,
    /// A glob for release tags.
    pub tag_pattern: Option<String>,
    /// A regular expression for release tags.
    pub tag_regex: Option<String>,
    /// Write the new version and changelog section instead of only showing them.
    pub write: bool,
    /// Mark the new version as a nightly build of today.
    pub nightly: bool,
}

impl Cli {
    /// Refuses a tag glob and a tag regular expression given together.
    pub fn validate_tag_options(&self) -> (r: Result<(), CommitSenseError>)
        ensures
            r is Err <==> (self.tag_pattern is Some && self.tag_regex is Some),
            r matches Err(e) ==> e is Config,
    {
        if self.tag_pattern.is_some() && self.tag_regex.is_some() {
            Err(
                CommitSenseError::Config(
                    "--tag-pattern and --tag-regex cannot be used together".to_owned(),
                ),
            )
        } else {
            Ok(())
        }
    }
}

} // verus!
