//! The project whose version is managed: its kind and its version file.

use crate::cli::{type_display_name, ProjectType};
use crate::error::CommitSenseError;
use crate::git::concat;
use vstd::prelude::*;

verus! {

/// The file that holds the version of a project of type `t`.
pub open spec fn manifest_name(t: ProjectType) -> Seq<char> {
    match t {
        ProjectType::Rust => "Cargo.toml"@,
        ProjectType::JavaScript => "package.json"@,
    }
}

/// `name` inside the directory `dir`, as `Path::join` writes a relative name.
pub open spec fn join_path(dir: Seq<char>, name: Seq<char>) -> Seq<char> {
    if dir.len() == 0 {
        name
    } else if dir.last() == '/' {
        dir + name
    } else {
        dir + "/"@ + name
    }
}

/// `name` inside the directory `dir`.
pub fn join(dir: &str, name: &str) -> (r: String)
    ensures
        r@ == join_path(dir@, name@),
{
    let v = crate::text::chars_of(dir);
    if v.len() == 0 {
        name.to_owned()
    } else if v[v.len() - 1] == '/' {
        concat(dir, name)
    } else {
        let with_slash = concat(dir, "/");
        concat(with_slash.as_str(), name)
    }
}

fn manifest_file(t: ProjectType) -> (r: &'static str)
    ensures
        r@ == manifest_name(t),
{
    match t {
        ProjectType::Rust => "Cargo.toml",
        ProjectType::JavaScript => "package.json",
    }
}

/// The error for an explicit project type `t` whose version file is not in
/// `path`.
pub open spec fn missing_file_message(t: ProjectType, path: Seq<char>) -> Seq<char> {
    "Explicit project type '"@ + type_display_name(t)
        + "' specified, but the expected version file '"@ + manifest_name(t)
        + "' was not found in '"@ + path + "'."@
}

/// The error for a directory `path` with neither version file.
pub open spec fn undetected_message(path: Seq<char>) -> Seq<char> {
    "Could not auto-detect project type. No 'Cargo.toml' or 'package.json' found in '"@ + path
        + "'. Please specify the type using --project-type."@
}

/// The project whose version is being managed.
#[derive(Debug)]
pub struct Project {
    root_path: String,
    project_type: ProjectType,
    version_file: String,
}

/// The type a project gets: the explicit one where its version file exists,
/// else Rust where `Cargo.toml` exists, else JavaScript where `package.json`
/// exists; none otherwise.
pub open spec fn chosen_type(
    explicit_type: Option<ProjectType>,
    cargo_toml_exists: bool,
    package_json_exists: bool,
) -> Option<ProjectType> {
    match explicit_type {
        Some(ProjectType::Rust) => if cargo_toml_exists {
            Some(ProjectType::Rust)
        } else {
            None
        },
        Some(ProjectType::JavaScript) => if package_json_exists {
            Some(ProjectType::JavaScript)
        } else {
            None
        },
        None => if cargo_toml_exists {
            Some(ProjectType::Rust)
        } else if package_json_exists {
            Some(ProjectType::JavaScript)
        } else {
            None
        },
    }
}

impl Project {
    pub closed spec fn spec_root(&self) -> Seq<char> {
        self.root_path@
    }

    pub closed spec fn spec_type(&self) -> ProjectType {
        self.project_type
    }

    pub closed spec fn spec_version_file(&self) -> Seq<char> {
        self.version_file@
    }

    /// The project in `path`, given which of its possible version files
    /// exist there.
    pub fn new(
        path: &str,
        explicit_type: Option<ProjectType>,
        cargo_toml_exists: bool,
        package_json_exists: bool,
    ) -> (r: Result<Project, CommitSenseError>)
        ensures
            match chosen_type(explicit_type, cargo_toml_exists, package_json_exists) {
                Some(t) => r matches Ok(p) && p.spec_type() == t && p.spec_root() == path@
                    && p.spec_version_file() == join_path(path@, manifest_name(t)),
                None => r matches Err(CommitSenseError::Config(m)) && m@ == match explicit_type {
                    Some(t) => missing_file_message(t, path@),
                    None => undetected_message(path@),
                },
            },
    {
        let chosen = match explicit_type {
            Some(t) => {
                let present = match t {
                    ProjectType::Rust => cargo_toml_exists,
                    ProjectType::JavaScript => package_json_exists,
                };
                if !present {
                    let m = concat("Explicit project type '", t.display_name());
                    let m = concat(m.as_str(), "' specified, but the expected version file '");
                    let m = concat(m.as_str(), manifest_file(t));
                    let m = concat(m.as_str(), "' was not found in '");
                    let m = concat(m.as_str(), path);
                    let m = concat(m.as_str(), "'.");
                    return Err(CommitSenseError::Config(m));
                }
                t
            },
            None => if cargo_toml_exists {
                ProjectType::Rust
            } else if package_json_exists {
                ProjectType::JavaScript
            } else {
                let m = concat(
                    "Could not auto-detect project type. No 'Cargo.toml' or 'package.json' found in '",
                    path,
                );
                let m = concat(m.as_str(), "'. Please specify the type using --project-type.");
                return Err(CommitSenseError::Config(m));
            },
        };
        let version_file = join(path, manifest_file(chosen));
        Ok(Project { root_path: path.to_owned(), project_type: chosen, version_file })
    }

    /// The type of the project.
    pub fn project_type(&self) -> (r: ProjectType)
        ensures
            r == self.spec_type(),
    {
        self.project_type
    }

    /// The file that holds the project's version.
    pub fn version_file_path(&self) -> (r: &str)
        ensures
            r@ == self.spec_version_file(),
    {
        self.version_file.as_str()
    }

    /// The project directory.
    pub fn root_path(&self) -> (r: &str)
        ensures
            r@ == self.spec_root(),
    {
        self.root_path.as_str()
    }
}

} // verus!
