use reposentry::config::Config;
use reposentry::discovery::{
    apply_filters, dedup_by_local_path, repo_to_spec, CloneMethod, RawRepo, RepoSpec,
};

fn raw(name: &str, owner: &str) -> RawRepo {
    RawRepo {
        name: name.to_string(),
        owner: Some(owner.to_string()),
        ssh_url: Some(format!("git@github.com:{}/{}.git", owner, name)),
        clone_url: Some(format!("https://github.com/{}/{}.git", owner, name)),
        fork: Some(false),
        archived: Some(false),
        size_kb: Some(1024),
        default_branch: Some("main".to_string()),
        updated_at_unix: Some(1_700_000_000),
    }
}

#[test]
fn test_repo_spec_full_name() {
    let spec = RepoSpec {
        name: "reposentry".to_string(),
        owner: "MKSG".to_string(),
        clone_url: "git@github.com:MKSG/reposentry.git".to_string(),
        clone_url_alt: Some("https://github.com/MKSG/reposentry.git".to_string()),
        clone_method: CloneMethod::Ssh,
        local_path: "/home/user/dev/MKSG/reposentry".to_string(),
        is_fork: false,
        is_archived: false,
        size_bytes: Some(1024 * 1024),
        default_branch: Some("main".to_string()),
        provider: "github".to_string(),
    };

    assert_eq!(spec.full_name(), "MKSG/reposentry");
}

#[test]
fn test_repo_spec_exists_locally() {
    let spec = RepoSpec {
        name: "nonexistent".to_string(),
        owner: "test".to_string(),
        clone_url: "git@github.com:test/nonexistent.git".to_string(),
        clone_url_alt: None,
        clone_method: CloneMethod::Ssh,
        local_path: "/nonexistent/path/repo".to_string(),
        is_fork: false,
        is_archived: false,
        size_bytes: None,
        default_branch: None,
        provider: "test".to_string(),
    };

    assert!(!spec.exists_locally());
}

#[test]
fn test_clone_method_default() {
    assert_eq!(CloneMethod::default(), CloneMethod::Ssh);
}

#[test]
fn test_repo_to_spec_prefers_ssh() {
    let mut config = Config::default();
    config.base_directory = "/base".to_string();
    let r = raw("proj", "org");
    let spec = repo_to_spec(&config, &r);
    assert_eq!(spec.clone_url, "git@github.com:org/proj.git");
    assert_eq!(spec.clone_method, CloneMethod::Ssh);
    assert_eq!(
        spec.clone_url_alt,
        Some("https://github.com/org/proj.git".to_string())
    );
    assert_eq!(spec.local_path, "/base/org/proj");
    assert_eq!(spec.size_bytes, Some(1024 * 1024));
    assert_eq!(spec.provider, "github");
}

#[test]
fn test_repo_to_spec_https_fallback() {
    let mut config = Config::default();
    config.base_directory = "/base".to_string();
    config.organization.separate_org_dirs = false;
    let mut r = raw("proj", "org");
    r.ssh_url = None;
    let spec = repo_to_spec(&config, &r);
    assert_eq!(spec.clone_url, "https://github.com/org/proj.git");
    assert_eq!(spec.clone_method, CloneMethod::Https);
    assert_eq!(spec.clone_url_alt, None);
    // Prefix-org conflict policy folds the owner into the folder name.
    assert_eq!(spec.local_path, "/base/org-proj");
}

#[test]
fn test_repo_to_spec_without_urls() {
    let config = Config::default();
    let mut r = raw("proj", "org");
    r.ssh_url = None;
    r.clone_url = None;
    let spec = repo_to_spec(&config, &r);
    assert_eq!(spec.clone_url, "git@github.com:org/proj.git");
    assert_eq!(spec.clone_method, CloneMethod::Ssh);
}

#[test]
fn test_dedup_keeps_first_path_holder() {
    let config = Config::default();
    let a = repo_to_spec(&config, &raw("proj", "org"));
    let mut b = repo_to_spec(&config, &raw("proj", "org"));
    b.clone_url = "git@github.com:elsewhere/proj.git".to_string();
    let c = repo_to_spec(&config, &raw("other", "org"));

    let deduped = dedup_by_local_path(vec![a, b, c]);
    assert_eq!(deduped.len(), 2);
    // The first holder of the contested path stays.
    assert_eq!(deduped[0].clone_url, "git@github.com:org/proj.git");
    assert_eq!(deduped[1].name, "other");
}

#[test]
fn test_apply_filters_patterns_forks_age_size() {
    let mut config = Config::default();
    config.github.exclude_patterns = vec!["archived-*".to_string()];
    config.github.include_forks = false;
    config.filters.age.max_age = Some("3month".to_string());
    config.filters.size.max_size = Some("100MB".to_string());

    let now: i64 = 1_700_000_000;

    let keep = raw("good", "org");
    let mut excluded = raw("archived-old", "org");
    excluded.updated_at_unix = Some(now);
    let mut fork = raw("forked", "org");
    fork.fork = Some(true);
    let mut stale = raw("stale", "org");
    stale.updated_at_unix = Some(now - 200 * 86400);
    let mut huge = raw("huge", "org");
    huge.size_kb = Some(200 * 1024); // 200 MB

    let kept = apply_filters(&config, vec![keep, excluded, fork, stale, huge], now);
    assert_eq!(kept.len(), 1);
    assert_eq!(kept[0].name, "good");
}
