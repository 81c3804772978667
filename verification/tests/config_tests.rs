use reposentry::config::Config;

#[test]
fn test_config_default_values() {
    let config = Config::default();

    assert_eq!(config.base_directory, "${HOME}/dev");
    assert!(config.github.include_organizations);
    assert!(!config.github.include_forks);
    assert_eq!(config.sync.max_parallel, 4);
    assert_eq!(config.sync.timeout, 300);
    assert!(!config.sync.auto_stash);
    assert!(config.sync.fast_forward_only);
    assert!(!config.daemon.enabled);
    assert!(config.organization.separate_org_dirs);
    assert!(config.advanced.preserve_timestamps);
}

#[test]
fn test_age_filter_duration() {
    let mut config = Config::default();

    // One month is thirty days of seconds.
    config.filters.age.max_age = Some("1month".to_string());
    assert_eq!(config.age_filter_duration().unwrap(), 30 * 86400);

    config.filters.age.max_age = Some("3month".to_string());
    assert_eq!(config.age_filter_duration().unwrap(), 90 * 86400);

    config.filters.age.max_age = Some("6month".to_string());
    assert_eq!(config.age_filter_duration().unwrap(), 180 * 86400);

    config.filters.age.max_age = Some("invalid".to_string());
    assert!(config.age_filter_duration().is_none());

    config.filters.age.max_age = None;
    assert!(config.age_filter_duration().is_none());
}

#[test]
fn test_size_filter_bytes() {
    let mut config = Config::default();

    config.filters.size.max_size = Some("100MB".to_string());
    assert_eq!(config.size_filter_bytes().unwrap(), 100 * 1024 * 1024);

    config.filters.size.max_size = Some("1GB".to_string());
    assert_eq!(config.size_filter_bytes().unwrap(), 1024 * 1024 * 1024);

    config.filters.size.max_size = Some("invalid".to_string());
    assert!(config.size_filter_bytes().is_none());

    config.filters.size.max_size = None;
    assert!(config.size_filter_bytes().is_none());
}

#[test]
fn test_filtering_methods() {
    let mut config = Config::default();
    config.filters.age.max_age = Some("3month".to_string());
    config.filters.size.max_size = Some("1GB".to_string());

    assert_eq!(config.age_filter_duration().unwrap(), 90 * 86400);
    assert_eq!(config.size_filter_bytes().unwrap(), 1024 * 1024 * 1024);

    let now: i64 = 1_700_000_000;
    let old_timestamp = now - 100 * 86400;
    let recent_timestamp = now - 30 * 86400;

    assert!(config.should_filter_by_age(old_timestamp, now));
    assert!(!config.should_filter_by_age(recent_timestamp, now));

    let large_size: u64 = 2 * 1024 * 1024 * 1024;
    let small_size: u64 = 500 * 1024 * 1024;

    assert!(config.should_filter_by_size(large_size));
    assert!(!config.should_filter_by_size(small_size));
}

#[test]
fn test_default_keyword_functions() {
    assert_eq!(reposentry::config::default_auth_method(), "auto");
    assert!(reposentry::config::default_true());
    assert_eq!(reposentry::config::default_sync_strategy(), "safe-pull");
    assert_eq!(reposentry::config::default_max_parallel(), 4);
    assert_eq!(reposentry::config::default_timeout(), 300);
    assert_eq!(reposentry::config::default_interval(), "30m");
    assert_eq!(reposentry::config::default_log_level(), "info");
    assert_eq!(reposentry::config::default_log_format(), "compact");
    assert_eq!(reposentry::config::default_conflict_resolution(), "prefix-org");
    assert_eq!(reposentry::config::default_cache_duration(), "1h");
}
