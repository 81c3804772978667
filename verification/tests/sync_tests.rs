use reposentry::config::Config;
use reposentry::discovery::{CloneMethod, RepoSpec};
use reposentry::git::SyncResult;
use reposentry::sync::{repo_name_from_path, timeout_outcome, SyncEngine};

fn spec_with_size(i: usize, size_bytes: u64) -> RepoSpec {
    RepoSpec {
        name: format!("repo{}", i),
        owner: "test".to_string(),
        clone_url: format!("git@github.com:test/repo{}.git", i),
        clone_url_alt: None,
        clone_method: CloneMethod::Ssh,
        local_path: format!("/test/repo{}", i),
        is_fork: false,
        is_archived: false,
        size_bytes: Some(size_bytes),
        default_branch: Some("main".to_string()),
        provider: "test".to_string(),
    }
}

#[test]
fn test_sync_summary_calculation() {
    let results = vec![
        SyncResult::Cloned {
            path: "/test/repo1".to_string(),
            branch: Some("main".to_string()),
        },
        SyncResult::Pulled {
            path: "/test/repo2".to_string(),
            commits_updated: 5,
            branch: Some("main".to_string()),
        },
        SyncResult::Failed {
            path: "/test/repo3".to_string(),
            error: "Test error".to_string(),
        },
        SyncResult::Skipped {
            path: "/test/repo4".to_string(),
            reason: "Has changes".to_string(),
        },
    ];

    let config = Config::default();
    let engine = SyncEngine::new(config);
    let summary = engine.compile_summary(results, 10_000);

    assert_eq!(summary.total_repositories, 4);
    assert_eq!(summary.successful_operations, 2);
    assert_eq!(summary.failed_operations, 1);
    assert_eq!(summary.skipped_operations, 1);
}

#[test]
fn test_sync_engine_creation() {
    let config = Config::default();
    let engine = SyncEngine::new(config);
    assert_eq!(engine.config().sync.max_parallel, 4);
}

#[test]
fn test_adaptive_concurrency_calculation() {
    let config = Config::default();
    let engine = SyncEngine::new(config);

    // Small repositories keep full concurrency, inside the bounds.
    let small_repos: Vec<RepoSpec> = (0..5).map(|i| spec_with_size(i, 1024 * 1024)).collect();

    let concurrency = engine.calculate_adaptive_concurrency(&small_repos, 4);
    assert!(concurrency >= 1 && concurrency <= 12);
}

#[test]
fn test_semaphore_limits() {
    let config = Config::default();
    let engine = SyncEngine::new(config);

    // A large number of large repositories must reduce concurrency.
    let large_repos: Vec<RepoSpec> =
        (0..100).map(|i| spec_with_size(i, 100 * 1024 * 1024)).collect();

    let concurrency = engine.calculate_adaptive_concurrency(&large_repos, 4);
    assert!(concurrency <= 6);
}

#[test]
fn test_adaptive_concurrency_large_fleet_value() {
    // One hundred repositories of one hundred mebibytes at the
    // default base parallelism: the effective limit comes out at two.
    let config = Config::default();
    let engine = SyncEngine::new(config);
    let repos: Vec<RepoSpec> = (0..100).map(|i| spec_with_size(i, 100 * 1024 * 1024)).collect();
    assert_eq!(engine.calculate_adaptive_concurrency(&repos, 4), 2);
}

#[test]
fn test_adaptive_concurrency_bounds_extremes() {
    let config = Config::default();
    let engine = SyncEngine::new(config);

    let none: Vec<RepoSpec> = vec![];
    let c = engine.calculate_adaptive_concurrency(&none, 0);
    assert!(c >= 1 && c <= 12);

    let one = vec![spec_with_size(0, 1)];
    let c = engine.calculate_adaptive_concurrency(&one, 1000);
    assert!(c >= 1 && c <= 12);
}

#[test]
fn test_timeout_outcome_message() {
    match timeout_outcome("/test/repo", 300) {
        SyncResult::Failed { path, error } => {
            assert_eq!(path, "/test/repo");
            assert_eq!(error, "Operation timed out after 300s");
        }
        other => panic!("expected a failure outcome, got {:?}", other),
    }
}

#[test]
fn test_repo_name_from_path_components() {
    assert_eq!(repo_name_from_path("/base/owner/repo"), "owner/repo");
    assert_eq!(repo_name_from_path("/repo"), "repo");
    assert_eq!(repo_name_from_path("repo"), "repo");
    assert_eq!(repo_name_from_path("/home/dev/org/project"), "org/project");
}
