use reposentry::config::Config;
use reposentry::git::{
    normalize_url, parse_commit_timestamp, parse_rev_count, pick_most_recent_branch,
    repo_directory, GitClient,
};
use reposentry::glob::{matches_exclusion_pattern, matches_pattern};

#[test]
fn test_remote_url_matching() {
    let config = Config::default();
    let git_client = GitClient::new(config);

    assert!(git_client.remote_urls_match(
        "git@github.com:user/repo.git",
        "https://github.com/user/repo"
    ));

    assert!(git_client.remote_urls_match(
        "https://github.com/user/repo.git",
        "https://github.com/user/repo"
    ));

    assert!(!git_client.remote_urls_match(
        "https://github.com/user/repo1",
        "https://github.com/user/repo2"
    ));
}

#[test]
fn test_directory_path_construction() {
    let base = "/tmp/repos";

    // Organization separation enabled.
    let org_enabled_path = repo_directory(base, true, "prefix-org", "octocat", "Hello-World");
    assert_eq!(org_enabled_path, "/tmp/repos/octocat/Hello-World");

    // Organization separation disabled with the prefix policy.
    let prefix_path = repo_directory(base, false, "prefix-org", "octocat", "Hello-World");
    assert_eq!(prefix_path, "/tmp/repos/octocat-Hello-World");

    // Simple repository name fallback.
    let simple_path = repo_directory(base, false, "skip", "octocat", "Hello-World");
    assert_eq!(simple_path, "/tmp/repos/Hello-World");
}

#[test]
fn test_url_normalization() {
    // The three spellings of one remote share a normal form.
    let a = normalize_url("git@github.com:a/b.git");
    let b = normalize_url("https://github.com/a/b");
    let c = normalize_url("https://github.com/A/B.git");

    assert_eq!(a, "https://github.com/a/b");
    assert_eq!(a, b);
    assert_eq!(b, c);
}

#[test]
fn test_parse_pull_output_classification() {
    let config = Config::default();
    let client = GitClient::new(config);
    assert_eq!(client.parse_pull_output("Updating abc123..def456\nFast-forward\n"), 1);
    assert_eq!(client.parse_pull_output("Already up to date.\n"), 0);
    assert_eq!(client.parse_pull_output("something unexpected"), 1);
}

#[test]
fn test_parse_rev_count_values() {
    assert_eq!(parse_rev_count("3\n"), 3);
    assert_eq!(parse_rev_count("  0  "), 0);
    assert_eq!(parse_rev_count("not a number"), 0);
    assert_eq!(parse_rev_count(""), 0);
    assert_eq!(parse_rev_count("99999999999999999999999999"), 0);
}

#[test]
fn test_parse_commit_timestamp_range() {
    // 2021-ish timestamps pass; the epoch and the far future are
    // rejected, as is garbage.
    assert_eq!(parse_commit_timestamp("1609459200\n"), Some(1609459200));
    assert_eq!(parse_commit_timestamp("100"), None);
    assert_eq!(parse_commit_timestamp("9999999999"), None);
    assert_eq!(parse_commit_timestamp("yesterday"), None);
    assert_eq!(parse_commit_timestamp("-5"), None);
}

#[test]
fn test_pick_most_recent_branch_filters() {
    let lines: Vec<String> = vec![
        "origin/HEAD".to_string(),
        "origin/feature/x".to_string(),
        "origin/main".to_string(),
    ];
    let no_excludes: Vec<String> = vec![];
    assert_eq!(
        pick_most_recent_branch(&lines, &no_excludes),
        Some("feature/x".to_string())
    );

    let excludes = vec!["feature/*".to_string()];
    assert_eq!(
        pick_most_recent_branch(&lines, &excludes),
        Some("main".to_string())
    );

    let only_head: Vec<String> = vec!["origin/HEAD".to_string(), "".to_string()];
    assert_eq!(pick_most_recent_branch(&only_head, &no_excludes), None);
}

#[test]
fn test_glob_pattern_matching() {
    assert!(matches_pattern("archived-*", "archived-foo"));
    assert!(!matches_pattern("archived-*", "active-foo"));
    assert!(matches_pattern("*.github.io", "me.github.io"));
    // The dot is literal, not a wildcard.
    assert!(!matches_pattern("*.github.io", "megithubxio"));
    assert!(matches_pattern("exact", "exact"));
    assert!(!matches_pattern("exact", "exactly"));

    let patterns = vec!["test-*".to_string(), "fork-*".to_string()];
    assert!(matches_exclusion_pattern("test-one", &patterns));
    assert!(!matches_exclusion_pattern("release", &patterns));
}
