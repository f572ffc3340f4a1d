use commit_sense::git::{GitCommandExecutor, GitInterface};
use commit_sense::CommitSenseError;

// Mock implementation for testing
struct MockGitCommandExecutor;

impl GitCommandExecutor for MockGitCommandExecutor {
    fn run_git_command(&self, _path: &str, args: &[String]) -> Result<String, CommitSenseError> {
        // Mock different responses based on the command
        if args.contains(&"rev-parse".to_string()) {
            if args.contains(&"HEAD".to_string()) {
                return Ok("abcdef1234567890".to_string());
            }
            if args.contains(&"--is-inside-work-tree".to_string()) {
                return Ok("true".to_string());
            }
        }

        if args.contains(&"log".to_string()) {
            // Check if this is a commit format request
            for arg in args {
                if arg.starts_with("--format=") {
                    // Simple format - just return commit messages
                    if arg.contains("%s") {
                        return Ok("feat: Add new feature\nfix: Fix bug\ndocs: Update README".to_string());
                    }
                    // More complex format with body
                    if arg.contains("%B") {
                        return Ok("feat: Add new feature\n\nThis is the body\n<EOM>\nfix: Fix bug\n<EOM>\ndocs: Update README\n<EOM>".to_string());
                    }
                }
            }
        }

        if args.contains(&"tag".to_string()) {
            if args.contains(&"--sort=-v:refname".to_string()) {
                return Ok("v1.0.0\nv0.9.0\nv0.8.5".to_string());
            }
            // Simple tag list
            return Ok("v1.0.0\nv0.9.0\nv0.8.5".to_string());
        }

        // Default fallback
        Ok("".to_string())
    }
}

#[test]
fn test_get_latest_commit_oid() {
    let executor = MockGitCommandExecutor;
    let git = GitInterface::new(Box::new(executor));

    let path = "/fake/path";
    let result = git.get_latest_commit_oid(path);

    assert!(result.is_ok());
    assert_eq!(result.unwrap(), "abcdef1234567890");
}

#[test]
fn test_get_commits_since_oid() {
    let executor = MockGitCommandExecutor;
    let git = GitInterface::new(Box::new(executor));

    let path = "/fake/path";
    let result = git.get_commits_since_oid(path, "1234567", "%s");

    assert!(result.is_ok());
    let commits = result.unwrap();
    assert_eq!(commits.len(), 3);
    assert_eq!(commits[0], "feat: Add new feature");
    assert_eq!(commits[1], "fix: Fix bug");
    assert_eq!(commits[2], "docs: Update README");
}

#[test]
fn test_find_latest_version_tag() {
    let executor = MockGitCommandExecutor;
    let git = GitInterface::new(Box::new(executor));

    let path = "/fake/path";
    let result = git.find_latest_version_tag(path, None);

    assert!(result.is_ok());
    assert_eq!(result.unwrap(), "v1.0.0");
}

#[test]
fn test_find_latest_version_tag_with_pattern() {
    let executor = MockGitCommandExecutor;
    let git = GitInterface::new(Box::new(executor));

    let path = "/fake/path";
    let result = git.find_latest_version_tag(path, Some("v*.*.*"));

    assert!(result.is_ok());
    assert_eq!(result.unwrap(), "v1.0.0");
}
