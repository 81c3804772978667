use reposentry::state::{EventType, RepoStatus, Severity, StateDb, SyncEventBuilder};

#[test]
fn test_db_initialization() {
    let db = StateDb::open_in_memory();
    assert_eq!(db.repo_count(), 0);
    assert_eq!(db.event_count(), 0);
}

#[test]
fn test_repo_upsert_and_get() {
    let mut db = StateDb::open_in_memory();

    db.upsert_repo(
        "owner/repo",
        Some("/path/to/repo"),
        Some("main"),
        RepoStatus::Synced,
        None,
    );

    let repo = db.get_repo("owner/repo").unwrap();
    assert_eq!(repo.full_name, "owner/repo");
    assert_eq!(repo.local_path, Some("/path/to/repo".to_string()));
    assert_eq!(repo.current_branch, Some("main".to_string()));
    assert_eq!(repo.last_sync_status, RepoStatus::Synced);
}

#[test]
fn test_repo_update() {
    let mut db = StateDb::open_in_memory();

    // Initial insert
    db.upsert_repo(
        "owner/repo",
        Some("/path"),
        Some("main"),
        RepoStatus::Synced,
        None,
    );

    // Update with skip
    db.upsert_repo(
        "owner/repo",
        None, // Don't change path
        Some("dev"),
        RepoStatus::Skipped,
        Some("local changes"),
    );

    let repo = db.get_repo("owner/repo").unwrap();
    assert_eq!(repo.local_path, Some("/path".to_string())); // Preserved
    assert_eq!(repo.current_branch, Some("dev".to_string())); // Updated
    assert_eq!(repo.last_sync_status, RepoStatus::Skipped);
    assert_eq!(repo.skip_reason, Some("local changes".to_string()));
    assert_eq!(db.repo_count(), 1);
}

#[test]
fn test_record_and_get_events() {
    let mut db = StateDb::open_in_memory();

    let id = db.record_event(
        SyncEventBuilder::new(EventType::BranchSwitch, "Switched from main to dev")
            .repo("owner/repo")
            .details("dev is 10 commits ahead"),
    );

    assert!(id > 0);

    let events = db.get_unacknowledged_events();
    assert_eq!(events.len(), 1);
    assert_eq!(events[0].event_type, EventType::BranchSwitch);
    assert_eq!(events[0].severity, Severity::Warning);
    assert!(!events[0].acknowledged);
}

#[test]
fn test_acknowledge_events() {
    let mut db = StateDb::open_in_memory();

    db.record_event(SyncEventBuilder::new(EventType::Cloned, "Cloned repo").repo("owner/repo"));

    let first_id = {
        let events = db.get_unacknowledged_events();
        assert_eq!(events.len(), 1);
        events[0].id
    };

    db.acknowledge_event(first_id);

    let events = db.get_unacknowledged_events();
    assert_eq!(events.len(), 0);
}

#[test]
fn test_unacknowledged_counts() {
    let mut db = StateDb::open_in_memory();

    // Add events of different severities
    db.record_event(SyncEventBuilder::new(EventType::Cloned, "Cloned")); // Info
    db.record_event(SyncEventBuilder::new(EventType::BranchSwitch, "Switched")); // Warning
    db.record_event(SyncEventBuilder::new(
        EventType::SkippedLocalChanges,
        "Skipped",
    )); // Warning
    db.record_event(SyncEventBuilder::new(EventType::SyncError, "Error")); // Error

    let (info, warning, error) = db.get_unacknowledged_counts();
    assert_eq!(info, 1);
    assert_eq!(warning, 2);
    assert_eq!(error, 1);
}

#[test]
fn test_repos_with_issues() {
    let mut db = StateDb::open_in_memory();

    db.upsert_repo("owner/ok-repo", None, None, RepoStatus::Synced, None);
    db.upsert_repo(
        "owner/skipped-repo",
        None,
        None,
        RepoStatus::Skipped,
        Some("local changes"),
    );
    db.upsert_repo(
        "owner/error-repo",
        None,
        None,
        RepoStatus::Error,
        Some("network error"),
    );

    let issues = db.get_repos_with_issues();
    assert_eq!(issues.len(), 2);
}

#[test]
fn test_event_type_severity() {
    assert_eq!(EventType::Cloned.severity(), Severity::Info);
    assert_eq!(EventType::Pulled.severity(), Severity::Info);
    assert_eq!(EventType::BranchSwitch.severity(), Severity::Warning);
    assert_eq!(EventType::SkippedLocalChanges.severity(), Severity::Warning);
    assert_eq!(EventType::SyncError.severity(), Severity::Error);
}

#[test]
fn test_acknowledge_all_returns_prior_count() {
    let mut db = StateDb::open_in_memory();
    db.record_event(SyncEventBuilder::new(EventType::Cloned, "one"));
    db.record_event(SyncEventBuilder::new(EventType::SyncError, "two"));
    db.record_event(SyncEventBuilder::new(EventType::Pulled, "three"));

    let first_id = db.get_unacknowledged_events()[0].id;
    db.acknowledge_event(first_id);

    // Two are still unacknowledged; acknowledging all reports that,
    // and afterwards every count is zero.
    let count = db.acknowledge_all_events();
    assert_eq!(count, 2);
    assert_eq!(db.get_unacknowledged_counts(), (0, 0, 0));
    assert_eq!(db.get_unacknowledged_events().len(), 0);
    assert_eq!(db.event_count(), 3);
}

#[test]
fn test_cleanup_spares_unacknowledged() {
    let mut db = StateDb::open_in_memory();
    db.record_event(SyncEventBuilder::new(EventType::Cloned, "acked"));
    db.record_event(SyncEventBuilder::new(EventType::SyncError, "kept"));

    let acked_id = db.get_unacknowledged_events()[1].id; // oldest first in storage, newest first here
    db.acknowledge_event(acked_id);

    // A cutoff far in the future removes every acknowledged event but
    // never an unacknowledged one.
    let far_future: i64 = 4102444800; // 2100-01-01
    let removed = db.cleanup_events_before(far_future);
    assert_eq!(removed, 1);
    assert_eq!(db.event_count(), 1);
    let remaining = db.get_unacknowledged_events();
    assert_eq!(remaining.len(), 1);
    assert_eq!(remaining[0].summary, "kept");
}

#[test]
fn test_cleanup_spares_recent_events() {
    let mut db = StateDb::open_in_memory();
    db.record_event(SyncEventBuilder::new(EventType::Cloned, "recent"));
    db.acknowledge_all_events();

    // A cutoff in the distant past removes nothing: every event is
    // newer.
    let removed = db.cleanup_events_before(0);
    assert_eq!(removed, 0);
    assert_eq!(db.event_count(), 1);
}

#[test]
fn test_event_filters_and_limits() {
    let mut db = StateDb::open_in_memory();
    db.record_event(SyncEventBuilder::new(EventType::Cloned, "a").repo("o/r1"));
    db.record_event(SyncEventBuilder::new(EventType::Pulled, "b").repo("o/r2"));
    db.record_event(SyncEventBuilder::new(EventType::Pulled, "c").repo("o/r1"));

    let pulls = db.get_events_with_filter(None, Some(EventType::Pulled), None);
    assert_eq!(pulls.len(), 2);
    // Newest first.
    assert_eq!(pulls[0].summary, "c");
    assert_eq!(pulls[1].summary, "b");

    let limited = db.get_events_with_filter(None, None, Some(2));
    assert_eq!(limited.len(), 2);
    assert_eq!(limited[0].summary, "c");

    let for_repo = db.get_events_for_repo("o/r1", None);
    assert_eq!(for_repo.len(), 2);
    assert_eq!(for_repo[0].summary, "c");
    assert_eq!(for_repo[1].summary, "a");
}

#[test]
fn test_status_and_severity_names() {
    assert_eq!(RepoStatus::Synced.as_str(), "ok");
    assert_eq!(RepoStatus::parse("ok"), RepoStatus::Synced);
    assert_eq!(RepoStatus::parse("skipped"), RepoStatus::Skipped);
    assert_eq!(RepoStatus::parse("error"), RepoStatus::Error);
    assert_eq!(RepoStatus::parse("anything"), RepoStatus::Unknown);

    assert_eq!(Severity::parse("warning"), Some(Severity::Warning));
    assert_eq!(Severity::parse("bogus"), None);
    assert_eq!(Severity::Error.as_str(), "error");

    assert_eq!(EventType::parse("branch_switch"), Some(EventType::BranchSwitch));
    assert_eq!(EventType::parse("nope"), None);
    assert_eq!(EventType::SkippedAheadOfRemote.as_str(), "skipped_ahead_of_remote");
}
