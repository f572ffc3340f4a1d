use commit_sense::cli::Cli;
use commit_sense::git::{
    commits_since, find_base_commit_oid, get_commits_since_oid, head_commit, latest_version_tag,
    log_lines, resolve_base_commit, GitCommandExecutor, GitInterface, NO_INITIAL_COMMIT,
    NO_VERSION_TAGS,
};
use commit_sense::CommitSenseError;

/// Answers each argument list from a script; anything else fails with the
/// argument list as a `Config` error.
fn scripted(
    script: Vec<(Vec<&'static str>, &'static str)>,
) -> impl Fn(Vec<String>) -> Result<String, CommitSenseError> {
    move |args: Vec<String>| {
        script
            .iter()
            .find(|(k, _)| k.len() == args.len() && k.iter().zip(args.iter()).all(|(a, b)| a == b))
            .map(|(_, v)| v.to_string())
            .ok_or(CommitSenseError::Config(args.join(" ")))
    }
}

fn release_search() -> Vec<&'static str> {
    vec!["log", "--grep=^release: ", "-i", "-E", "-n", "1", "--format=%H", "HEAD"]
}

fn tag_repo() -> Vec<(Vec<&'static str>, &'static str)> {
    vec![
        (vec!["tag", "--list"], "v1.0.0\nv2.0.0\nother\n"),
        (vec!["log", "-1", "--format=%ct", "v1.0.0"], "200\n"),
        (vec!["log", "-1", "--format=%ct", "v2.0.0"], "100\n"),
        (vec!["log", "-1", "--format=%ct", "other"], "300\n"),
        (vec!["rev-parse", "v1.0.0^{commit}"], "aaa111\n"),
        (vec!["rev-parse", "v2.0.0^{commit}"], "bbb222\n"),
        (vec!["rev-parse", "other^{commit}"], "ccc333\n"),
        (vec!["rev-parse", "main^{commit}"], "ddd444\n"),
        (vec!["rev-list", "--max-parents=0", "HEAD"], "root000\n"),
    ]
}

#[test]
fn explicit_ref_overrides_tag_pattern() {
    let ask = scripted(tag_repo());
    let r = resolve_base_commit(&ask, Some("main"), Some("v*"), None);
    assert_eq!(r.unwrap(), "ddd444");
    let r = resolve_base_commit(&ask, Some("main"), None, Some("^v"));
    assert_eq!(r.unwrap(), "ddd444");
}

#[test]
fn unresolvable_explicit_ref_is_a_config_error() {
    let ask = scripted(tag_repo());
    let r = resolve_base_commit(&ask, Some("missing"), None, None);
    match r {
        Err(CommitSenseError::Config(m)) => assert!(
            m.starts_with("Failed to resolve explicit base ref 'missing': "),
            "{}",
            m
        ),
        other => panic!("unexpected result {:?}", other),
    }
}

#[test]
fn glob_takes_the_latest_matching_tag() {
    let ask = scripted(tag_repo());
    // v1.0.0 (time 200) is later than v2.0.0 (time 100); `other` does not match
    let r = resolve_base_commit(&ask, None, Some("v*"), None);
    assert_eq!(r.unwrap(), "aaa111");
}

#[test]
fn glob_with_later_second_tag_takes_it() {
    let mut script = tag_repo();
    script[2] = (vec!["log", "-1", "--format=%ct", "v2.0.0"], "250\n");
    let ask = scripted(script);
    let r = resolve_base_commit(&ask, None, Some("v*"), None);
    assert_eq!(r.unwrap(), "bbb222");
}

#[test]
fn regex_takes_the_latest_matching_tag() {
    let ask = scripted(tag_repo());
    let r = resolve_base_commit(&ask, None, None, Some("^v2"));
    assert_eq!(r.unwrap(), "bbb222");
}

#[test]
fn glob_without_match_falls_back_to_release_commit() {
    let mut script = tag_repo();
    script.push((release_search(), "rel999\n"));
    let ask = scripted(script);
    let r = resolve_base_commit(&ask, None, Some("x*"), None);
    assert_eq!(r.unwrap(), "rel999");
}

#[test]
fn malformed_glob_is_reported() {
    let ask = scripted(tag_repo());
    let r = resolve_base_commit(&ask, None, Some("a**b"), None);
    assert!(matches!(r, Err(CommitSenseError::Glob(_))));
}

#[test]
fn malformed_regex_is_reported() {
    let ask = scripted(tag_repo());
    let r = resolve_base_commit(&ask, None, None, Some("("));
    assert!(matches!(r, Err(CommitSenseError::Regex(_))));
}

#[test]
fn release_commit_comes_before_semver_tags() {
    let mut script = tag_repo();
    script.push((release_search(), "rel999\n"));
    let ask = scripted(script);
    let r = resolve_base_commit(&ask, None, None, None);
    assert_eq!(r.unwrap(), "rel999");
}

#[test]
fn semver_prerelease_of_higher_major_wins() {
    let ask = scripted(vec![
        (vec!["tag", "--list"], "v1.0.0\nv0.9.0\nv2.0.0-rc.1\n"),
        (vec!["log", "-1", "--format=%ct", "v1.0.0"], "300"),
        (vec!["log", "-1", "--format=%ct", "v0.9.0"], "200"),
        (vec!["log", "-1", "--format=%ct", "v2.0.0-rc.1"], "100"),
        (vec!["rev-parse", "v1.0.0^{commit}"], "one"),
        (vec!["rev-parse", "v0.9.0^{commit}"], "zero"),
        (vec!["rev-parse", "v2.0.0-rc.1^{commit}"], "two-rc"),
        (release_search(), ""),
    ]);
    let r = resolve_base_commit(&ask, None, None, None);
    assert_eq!(r.unwrap(), "two-rc");
}

#[test]
fn equal_versions_go_to_the_later_commit() {
    let ask = scripted(vec![
        (vec!["tag", "--list"], "v1.0.0\n1.0.0\n"),
        (vec!["log", "-1", "--format=%ct", "v1.0.0"], "10"),
        (vec!["log", "-1", "--format=%ct", "1.0.0"], "20"),
        (vec!["rev-parse", "v1.0.0^{commit}"], "with-v"),
        (vec!["rev-parse", "1.0.0^{commit}"], "without-v"),
    ]);
    let r = resolve_base_commit(&ask, None, None, None);
    assert_eq!(r.unwrap(), "without-v");
}

#[test]
fn non_semver_tags_are_never_picked() {
    let ask = scripted(vec![
        (vec!["tag", "--list"], "release-candidate\nlatest\n"),
        (vec!["log", "-1", "--format=%ct", "release-candidate"], "10"),
        (vec!["log", "-1", "--format=%ct", "latest"], "20"),
        (vec!["rev-parse", "release-candidate^{commit}"], "rc"),
        (vec!["rev-parse", "latest^{commit}"], "latest"),
        (vec!["rev-list", "--max-parents=0", "HEAD"], "root000\nroot001\n"),
    ]);
    let r = resolve_base_commit(&ask, None, None, None);
    assert_eq!(r.unwrap(), "root000");
}

#[test]
fn empty_repository_has_no_initial_commit() {
    let ask = scripted(vec![(vec!["tag", "--list"], "")]);
    let r = resolve_base_commit(&ask, None, None, None);
    match r {
        Err(CommitSenseError::GitCommand(m)) => assert_eq!(m, NO_INITIAL_COMMIT),
        other => panic!("unexpected result {:?}", other),
    }
}

#[test]
fn picked_tag_without_commit_is_a_version_error() {
    let ask = scripted(vec![
        (vec!["tag", "--list"], "v3.0.0\n"),
        (vec!["log", "-1", "--format=%ct", "v3.0.0"], "10"),
    ]);
    let r = resolve_base_commit(&ask, None, None, None);
    assert!(matches!(r, Err(CommitSenseError::Version(_))));
}

#[test]
fn both_tag_options_are_refused_upstream() {
    let cli = Cli {
        path: ".".to_string(),
        api_key: "key".to_string(),
        api_url: "https://example.invalid".to_string(),
        model: "model".to_string(),
        project_type: None,
        base_ref: None,
        tag_pattern: Some("v*".to_string()),
        tag_regex: Some("^v".to_string()),
        write: false,
        nightly: false,
    };
    assert!(matches!(cli.validate_tag_options(), Err(CommitSenseError::Config(_))));
    let single = Cli { tag_regex: None, ..cli };
    assert!(single.validate_tag_options().is_ok());
}

#[test]
fn no_new_commits_when_head_is_the_base() {
    let ask = scripted(vec![(vec!["rev-parse", "HEAD^{commit}"], "abc123\n")]);
    let r = commits_since(&ask, "abc123");
    assert_eq!(r.unwrap(), Vec::<String>::new());
}

#[test]
fn commit_messages_are_split_at_end_markers() {
    let ask = scripted(vec![
        (vec!["rev-parse", "HEAD^{commit}"], "head999\n"),
        (
            vec!["log", "base1..HEAD", "--format=%B%n<EOM>", "--reverse"],
            "feat: a\n\nbody\n\n<EOM>\nfix: b\n\n<EOM>\n",
        ),
    ]);
    let r = commits_since(&ask, "base1");
    assert_eq!(r.unwrap(), vec!["feat: a\n\nbody".to_string(), "fix: b".to_string()]);
}

#[test]
fn commits_since_fails_without_head() {
    let ask = scripted(vec![]);
    assert!(commits_since(&ask, "base1").is_err());
}

struct Repo;

impl GitCommandExecutor for Repo {
    fn run_git_command(&self, path: &str, args: &[String]) -> Result<String, CommitSenseError> {
        assert_eq!(path, "/repo");
        let joined = args.join("|");
        match joined.as_str() {
            "rev-parse|HEAD^{commit}" | "rev-parse|HEAD" => Ok("head999\n".to_string()),
            "log|base1..HEAD|--format=%B%n<EOM>|--reverse" => Ok("one\n<EOM>\ntwo\n<EOM>\n".to_string()),
            "tag|--list" => Ok("v0.1.0\n".to_string()),
            "log|-1|--format=%ct|v0.1.0" => Ok("5\n".to_string()),
            "rev-parse|v0.1.0^{commit}" => Ok("tagged\n".to_string()),
            _ => Err(CommitSenseError::GitCommand(format!("unexpected: {}", joined))),
        }
    }
}

#[test]
fn executor_entry_points_use_the_same_logic() {
    let r = find_base_commit_oid(&Repo, "/repo", None, None, None);
    assert_eq!(r.unwrap(), "tagged");
    let c = get_commits_since_oid(&Repo, "/repo", "base1");
    assert_eq!(c.unwrap(), vec!["one".to_string(), "two".to_string()]);
}

#[test]
fn build_metadata_does_not_order_versions() {
    let ask = scripted(vec![
        (vec!["tag", "--list"], "v1.0.0+b\nv1.0.0+a\n"),
        (vec!["log", "-1", "--format=%ct", "v1.0.0+b"], "10"),
        (vec!["log", "-1", "--format=%ct", "v1.0.0+a"], "20"),
        (vec!["rev-parse", "v1.0.0+b^{commit}"], "build-b"),
        (vec!["rev-parse", "v1.0.0+a^{commit}"], "build-a"),
    ]);
    let r = resolve_base_commit(&ask, None, None, None);
    assert_eq!(r.unwrap(), "build-a");
}

#[test]
fn facade_queries_send_their_commands() {
    let ask = scripted(vec![
        (vec!["rev-parse", "HEAD"], "  abc\n"),
        (vec!["log", "b0..HEAD", "--format=%s", "--reverse"], "one\ntwo\n"),
        (vec!["tag", "--sort=-v:refname", "--list", "v*"], "v2\nv1\n"),
        (vec!["tag", "--sort=-v:refname"], ""),
    ]);
    assert_eq!(head_commit(&ask).unwrap(), "  abc\n");
    assert_eq!(log_lines(&ask, "b0", "%s").unwrap(), vec!["one".to_string(), "two".to_string()]);
    assert_eq!(latest_version_tag(&ask, Some("v*")).unwrap(), "v2");
    match latest_version_tag(&ask, None) {
        Err(CommitSenseError::GitCommand(m)) => assert_eq!(m, NO_VERSION_TAGS),
        other => panic!("unexpected result {:?}", other),
    }
}

#[test]
fn facade_queries_pass_executor_errors_on() {
    let ask = scripted(vec![]);
    match log_lines(&ask, "zz", "%s") {
        Err(CommitSenseError::Config(m)) => assert_eq!(m, "log zz..HEAD --format=%s --reverse"),
        other => panic!("unexpected result {:?}", other),
    }
    match latest_version_tag(&ask, Some("x")) {
        Err(CommitSenseError::Config(m)) => assert_eq!(m, "tag --sort=-v:refname --list x"),
        other => panic!("unexpected result {:?}", other),
    }
    assert!(matches!(head_commit(&ask), Err(CommitSenseError::Config(_))));
}

#[test]
fn facade_goes_through_its_executor() {
    let git = GitInterface::new(Box::new(Repo));
    assert_eq!(git.get_latest_commit_oid("/repo").unwrap(), "head999\n");
    match git.find_latest_version_tag("/repo", None) {
        Err(CommitSenseError::GitCommand(m)) => assert_eq!(m, "unexpected: tag|--sort=-v:refname"),
        other => panic!("unexpected result {:?}", other),
    }
}
