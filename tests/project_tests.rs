use commit_sense::cli::ProjectType;
use commit_sense::git::TagFilter;
use commit_sense::patterns::{TagGlob, TagRegex, TagVersion};
use commit_sense::project::{join, Project};
use commit_sense::suggestion::extract_json_block;
use commit_sense::CommitSenseError;

#[test]
fn explicit_type_needs_its_file() {
    let p = Project::new("/work/app", Some(ProjectType::JavaScript), true, true).unwrap();
    assert_eq!(p.project_type(), ProjectType::JavaScript);
    assert_eq!(p.version_file_path(), "/work/app/package.json");
    let e = Project::new("/work/app", Some(ProjectType::Rust), false, true);
    match e {
        Err(CommitSenseError::Config(m)) => assert_eq!(
            m,
            "Explicit project type 'Rust' specified, but the expected version file 'Cargo.toml' was not found in '/work/app'."
        ),
        other => panic!("unexpected result {:?}", other),
    }
}

#[test]
fn detection_prefers_cargo() {
    let p = Project::new("/work/", None, true, true).unwrap();
    assert_eq!(p.project_type(), ProjectType::Rust);
    assert_eq!(p.version_file_path(), "/work/Cargo.toml");
    let q = Project::new("pkg", None, false, true).unwrap();
    assert_eq!(q.project_type(), ProjectType::JavaScript);
    match Project::new("pkg", None, false, false) {
        Err(CommitSenseError::Config(m)) => assert_eq!(
            m,
            "Could not auto-detect project type. No 'Cargo.toml' or 'package.json' found in 'pkg'. Please specify the type using --project-type."
        ),
        other => panic!("unexpected result {:?}", other),
    }
}

#[test]
fn joins_relative_names() {
    assert_eq!(join("", "Cargo.toml"), "Cargo.toml");
    assert_eq!(join("a/", "b"), "a/b");
    assert_eq!(join("a", "b"), "a/b");
}

#[test]
fn project_type_names_in_any_case() {
    assert_eq!(ProjectType::parse_name("RUST"), Ok(ProjectType::Rust));
    assert_eq!(ProjectType::parse_name("TypeScript"), Ok(ProjectType::JavaScript));
    assert_eq!("node".parse::<ProjectType>(), Ok(ProjectType::JavaScript));
    assert_eq!(
        ProjectType::parse_name("Python"),
        Err("Invalid project type 'Python'. Supported types are 'rust', 'js', 'ts', 'javascript', 'typescript', 'node'.".to_string())
    );
    assert_eq!(ProjectType::JavaScript.display_name(), "JavaScript/TypeScript");
}

#[test]
fn tag_filters_compile_and_match() {
    let g = TagFilter::Glob(TagGlob::new("v*.*.*").ok().unwrap());
    assert!(g.accepts("v1.2.3"));
    assert!(!g.accepts("1.2.3"));
    assert!(TagGlob::new("a**b").is_err());
    let x = TagFilter::Regex(TagRegex::new(r"^v\d+$").ok().unwrap());
    assert!(x.accepts("v12"));
    assert!(!x.accepts("v1.2"));
    assert!(TagRegex::new("(").is_err());
}

#[test]
fn tag_versions_parse_semantic_versions_only() {
    assert!(TagVersion::parse("2.0.0-rc.1").is_some());
    assert!(TagVersion::parse("1.0.0+build.5").is_some());
    assert!(TagVersion::parse("latest").is_none());
    assert!(TagVersion::parse("1.0").is_none());
    assert!(TagVersion::parse("v1.0.0").is_none());
}

#[test]
fn json_block_handles_nesting_and_strings() {
    let text = "reply: {\"a\": {\"b\": \"}\\\"{\"}, \"c\": 1} trailing }";
    assert_eq!(
        extract_json_block(text),
        Some("{\"a\": {\"b\": \"}\\\"{\"}, \"c\": 1}".to_string())
    );
    assert_eq!(extract_json_block("no json here"), None);
    assert_eq!(extract_json_block("```json\n{\"x\": 1}\nunclosed {\"y\": 2}"), Some("{\"x\": 1}".to_string()));
    assert_eq!(extract_json_block("```json\n  {\"z\": 3}  \n```"), Some("{\"z\": 3}".to_string()));
}
