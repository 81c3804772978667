use reposentry::config::Config;
use reposentry::daemon::{parse_daemon_duration, DaemonStatus};
use reposentry::github::{choose_auth, plausible_github_token, AuthStrategy};
use reposentry::git::SyncResult;
use reposentry::machine::{
    analyze_repo_state, run_all_scripted, CmdOutput, GitAction, MachineCfg, ScriptedRun,
    SyncMachine, SyncStrategy,
};
use reposentry::state::{EventType, RepoStatus, Severity, StateDb};
use reposentry::sync::SyncEngine;

fn ok(stdout: &str) -> CmdOutput {
    CmdOutput { ok: true, stdout: stdout.to_string(), stderr: String::new() }
}

fn fail(stderr: &str) -> CmdOutput {
    CmdOutput { ok: false, stdout: String::new(), stderr: stderr.to_string() }
}

fn cfg_for(config: &Config, path: &str, url: &str) -> MachineCfg {
    MachineCfg::from_config(config, path.to_string(), url.to_string(), vec![])
}

#[test]
fn test_strategy_parsing() {
    assert_eq!(SyncStrategy::parse("safe-pull"), SyncStrategy::SafePull);
    assert_eq!(SyncStrategy::parse("fetch-only"), SyncStrategy::FetchOnly);
    assert_eq!(SyncStrategy::parse("interactive"), SyncStrategy::Interactive);
    assert_eq!(
        SyncStrategy::parse("most-recent-branch"),
        SyncStrategy::MostRecentBranch
    );
    assert_eq!(SyncStrategy::parse("launch-missiles"), SyncStrategy::SafePull);
}

#[test]
fn test_dirty_skip() {
    // A dirty working tree is skipped untouched, recorded as skipped,
    // with one local-changes event at warning severity.
    let config = Config::default();
    let cfg = cfg_for(&config, "/r", "git@github.com:a/b.git");
    let mut m = SyncMachine::start(cfg);
    assert!(matches!(m.pending_action(), Some(GitAction::CheckRepoExists)));
    m = m.step(ok("")); // the checkout exists
    assert!(matches!(m.pending_action(), Some(GitAction::StatusPorcelain)));
    m = m.step(ok(" M README.md\n"));
    assert!(m.is_done());
    let outcome = m.into_outcome().unwrap();
    match &outcome {
        SyncResult::Skipped { path, reason } => {
            assert_eq!(path, "/r");
            assert_eq!(
                reason,
                "Repository has local changes (uncommitted or untracked files)"
            );
        }
        other => panic!("expected a skip, got {:?}", other),
    }

    let mut engine = SyncEngine::with_custom_state_db(Config::default(), StateDb::open_in_memory());
    engine.record_sync_result(&outcome, "a/b");
    let db = engine.state_db().unwrap();
    let rec = db.get_repo("a/b").unwrap();
    assert_eq!(rec.last_sync_status, RepoStatus::Skipped);
    assert_eq!(
        rec.skip_reason,
        Some("Repository has local changes (uncommitted or untracked files)".to_string())
    );
    let events = db.get_unacknowledged_events();
    assert_eq!(events.len(), 1);
    assert_eq!(events[0].event_type, EventType::SkippedLocalChanges);
    assert_eq!(events[0].severity, Severity::Warning);
}

#[test]
fn test_clean_fast_forward() {
    // Clean tree, three commits behind and none ahead: the pull runs
    // and reports the sentinel count on the current branch.
    let mut config = Config::default();
    config.advanced.preserve_timestamps = false;
    let cfg = cfg_for(&config, "/r", "git@github.com:a/b.git");
    let mut m = SyncMachine::start(cfg);
    m = m.step(ok("")); // exists
    m = m.step(ok("")); // clean status
    m = m.step(ok("git@github.com:a/b.git\n")); // remote matches
    m = m.step(ok("main\n")); // current branch
    m = m.step(ok("")); // fetch origin
    m = m.step(ok("0\n")); // ahead count
    m = m.step(ok("3\n")); // behind count
    assert!(matches!(m.pending_action(), Some(GitAction::DiffUnmerged)));
    m = m.step(ok("")); // no unmerged files
    assert!(matches!(m.pending_action(), Some(GitAction::Pull { ff_only: true })));
    m = m.step(ok("Updating abc123..def456\nFast-forward\n"));
    assert!(m.is_done());
    let outcome = m.into_outcome().unwrap();
    match &outcome {
        SyncResult::Pulled { commits_updated, branch, .. } => {
            assert_eq!(*commits_updated, 1);
            assert_eq!(branch.as_deref(), Some("main"));
        }
        other => panic!("expected a pull, got {:?}", other),
    }

    let mut engine = SyncEngine::with_custom_state_db(Config::default(), StateDb::open_in_memory());
    engine.record_sync_result(&outcome, "a/b");
    let db = engine.state_db().unwrap();
    let events = db.get_unacknowledged_events();
    assert_eq!(events.len(), 1);
    assert_eq!(events[0].event_type, EventType::Pulled);
    assert_eq!(events[0].severity, Severity::Info);
}

#[test]
fn test_most_recent_branch_switch() {
    // The freshest remote branch wins: switch from main to feature/x,
    // pull, and record a branch-switch event with the movement in its
    // details.
    let mut config = Config::default();
    config.sync.strategy = "most-recent-branch".to_string();
    config.advanced.preserve_timestamps = false;
    let cfg = cfg_for(&config, "/r", "git@github.com:a/b.git");
    let mut m = SyncMachine::start(cfg);
    m = m.step(ok("")); // exists
    m = m.step(ok("")); // clean status
    m = m.step(ok("git@github.com:a/b.git\n")); // remote matches
    m = m.step(ok("main\n")); // current branch
    m = m.step(ok("")); // fetch origin
    m = m.step(ok("0\n")); // ahead
    m = m.step(ok("3\n")); // behind
    m = m.step(ok("")); // no conflicts
    assert!(matches!(m.pending_action(), Some(GitAction::FetchAllPrune)));
    m = m.step(ok(""));
    assert!(matches!(m.pending_action(), Some(GitAction::ListBranchesByRecency)));
    m = m.step(ok("origin/feature/x\norigin/main\norigin/HEAD\n"));
    match m.pending_action() {
        Some(GitAction::Checkout { branch }) => assert_eq!(branch, "feature/x"),
        other => panic!("expected a checkout, got {:?}", other),
    }
    m = m.step(ok("")); // checkout succeeded
    m = m.step(ok("Updating abc123..def456\n")); // pull
    assert!(m.is_done());
    let outcome = m.into_outcome().unwrap();
    match &outcome {
        SyncResult::BranchSwitched { from_branch, to_branch, commits_updated, .. } => {
            assert_eq!(from_branch, "main");
            assert_eq!(to_branch, "feature/x");
            assert_eq!(*commits_updated, 1);
        }
        other => panic!("expected a branch switch, got {:?}", other),
    }

    let mut engine = SyncEngine::with_custom_state_db(Config::default(), StateDb::open_in_memory());
    engine.record_sync_result(&outcome, "a/b");
    let db = engine.state_db().unwrap();
    let events = db.get_unacknowledged_events();
    assert_eq!(events.len(), 1);
    assert_eq!(events[0].event_type, EventType::BranchSwitch);
    let details = events[0].details.clone().unwrap();
    assert!(details.contains("\"from\": \"main\""));
    assert!(details.contains("\"to\": \"feature/x\""));
    assert!(details.contains("\"commits\": 1"));
}

#[test]
fn test_ahead_of_remote() {
    // Two commits ahead and none behind: never merge into ahead
    // history, only fetch, and record the ahead event.
    let mut config = Config::default();
    config.advanced.preserve_timestamps = false;
    let cfg = cfg_for(&config, "/r", "git@github.com:a/b.git");
    let mut m = SyncMachine::start(cfg);
    m = m.step(ok("")); // exists
    m = m.step(ok("")); // clean status
    m = m.step(ok("git@github.com:a/b.git\n"));
    m = m.step(ok("main\n"));
    m = m.step(ok("")); // fetch
    m = m.step(ok("2\n")); // ahead
    m = m.step(ok("0\n")); // behind
    m = m.step(ok("")); // no conflicts
    assert!(m.is_done());
    let outcome = m.into_outcome().unwrap();
    match &outcome {
        SyncResult::FetchedOnly { reason, .. } => {
            assert_eq!(reason, "Repository is ahead of remote (has local commits)");
        }
        other => panic!("expected fetched-only, got {:?}", other),
    }

    let mut engine = SyncEngine::with_custom_state_db(Config::default(), StateDb::open_in_memory());
    engine.record_sync_result(&outcome, "a/b");
    let db = engine.state_db().unwrap();
    let events = db.get_unacknowledged_events();
    assert_eq!(events.len(), 1);
    assert_eq!(events[0].event_type, EventType::SkippedAheadOfRemote);
}

#[test]
fn test_clone_with_verify_and_cleanup() {
    // A fresh clone whose integrity check fails is removed again and
    // reported as a failure naming the integrity check.
    let config = Config::default(); // verify_clone and cleanup_on_error are on
    let cfg = cfg_for(&config, "/r", "git@github.com:a/b.git");
    let mut m = SyncMachine::start(cfg);
    m = m.step(fail("")); // the checkout does not exist
    assert!(matches!(m.pending_action(), Some(GitAction::EnsureParentDir)));
    m = m.step(ok(""));
    match m.pending_action() {
        Some(GitAction::CloneRepo { url, dest }) => {
            assert_eq!(url, "git@github.com:a/b.git");
            assert_eq!(dest, "/r");
        }
        other => panic!("expected a clone, got {:?}", other),
    }
    m = m.step(ok("")); // clone succeeded
    assert!(matches!(m.pending_action(), Some(GitAction::VerifyIntegrity)));
    m = m.step(fail("fsck found corruption"));
    assert!(matches!(m.pending_action(), Some(GitAction::RemoveDir)));
    m = m.step(ok(""));
    assert!(m.is_done());
    let outcome = m.into_outcome().unwrap();
    match &outcome {
        SyncResult::Failed { path, error } => {
            assert_eq!(path, "/r");
            assert!(error.contains("integrity"));
        }
        other => panic!("expected a failure, got {:?}", other),
    }

    let mut engine = SyncEngine::with_custom_state_db(Config::default(), StateDb::open_in_memory());
    engine.record_sync_result(&outcome, "a/b");
    let db = engine.state_db().unwrap();
    let rec = db.get_repo("a/b").unwrap();
    assert_eq!(rec.last_sync_status, RepoStatus::Error);
    let events = db.get_unacknowledged_events();
    assert_eq!(events.len(), 1);
    assert_eq!(events[0].event_type, EventType::SyncError);
    assert_eq!(events[0].severity, Severity::Error);
}

#[test]
fn test_clone_switches_to_most_recent_branch() {
    // A fresh clone under the most-recent strategy ends up on the
    // freshest remote branch but still reports a plain clone.
    let mut config = Config::default();
    config.sync.strategy = "most-recent-branch".to_string();
    config.advanced.verify_clone = false;
    config.advanced.preserve_timestamps = false;
    let cfg = cfg_for(&config, "/r", "git@github.com:a/b.git");
    let mut m = SyncMachine::start(cfg);
    m = m.step(fail("")); // absent: clone it
    m = m.step(ok("")); // parent directory made
    m = m.step(ok("")); // clone succeeded
    assert!(matches!(m.pending_action(), Some(GitAction::FetchAllPrune)));
    m = m.step(ok(""));
    m = m.step(ok("origin/dev\norigin/HEAD\n")); // branch listing
    assert!(matches!(m.pending_action(), Some(GitAction::ReadCurrentBranch)));
    m = m.step(ok("main\n")); // checked out elsewhere
    match m.pending_action() {
        Some(GitAction::Checkout { branch }) => assert_eq!(branch, "dev"),
        other => panic!("expected a checkout, got {:?}", other),
    }
    m = m.step(ok(""));
    assert!(m.is_done());
    match m.into_outcome().unwrap() {
        SyncResult::Cloned { branch, .. } => assert_eq!(branch.as_deref(), Some("dev")),
        other => panic!("expected a clone, got {:?}", other),
    }
}

#[test]
fn test_pull_preserves_directory_timestamp() {
    // With timestamp preservation on, a successful pull reads the
    // latest committer time and stamps the directory with it, then
    // reports the pull.
    let config = Config::default(); // preserve_timestamps is on
    let cfg = cfg_for(&config, "/r", "git@github.com:a/b.git");
    let mut m = SyncMachine::start(cfg);
    m = m.step(ok(""));
    m = m.step(ok(""));
    m = m.step(ok("git@github.com:a/b.git\n"));
    m = m.step(ok("main\n"));
    m = m.step(ok(""));
    m = m.step(ok("0\n"));
    m = m.step(ok("3\n"));
    m = m.step(ok(""));
    m = m.step(ok("Updating abc..def\n")); // pull
    assert!(matches!(m.pending_action(), Some(GitAction::ReadLatestCommitTime)));
    m = m.step(ok("1609459200\n"));
    match m.pending_action() {
        Some(GitAction::SetDirTimestamp { unix_time }) => assert_eq!(unix_time, 1609459200),
        other => panic!("expected a timestamp action, got {:?}", other),
    }
    m = m.step(ok(""));
    assert!(m.is_done());
    match m.into_outcome().unwrap() {
        SyncResult::Pulled { commits_updated, .. } => assert_eq!(commits_updated, 1),
        other => panic!("expected a pull, got {:?}", other),
    }
}

#[test]
fn test_pull_stamp_skipped_for_implausible_time() {
    // An out-of-range committer time is rejected and the stamp is
    // skipped; the outcome is unaffected.
    let config = Config::default();
    let cfg = cfg_for(&config, "/r", "git@github.com:a/b.git");
    let mut m = SyncMachine::start(cfg);
    m = m.step(ok(""));
    m = m.step(ok(""));
    m = m.step(ok("git@github.com:a/b.git\n"));
    m = m.step(ok("main\n"));
    m = m.step(ok(""));
    m = m.step(ok("0\n"));
    m = m.step(ok("3\n"));
    m = m.step(ok(""));
    m = m.step(ok("Updating abc..def\n"));
    m = m.step(ok("100\n")); // long before git existed: rejected
    assert!(m.is_done());
    assert!(matches!(
        m.into_outcome().unwrap(),
        SyncResult::Pulled { .. }
    ));
}

#[test]
fn test_up_to_date_is_silent() {
    // Not behind at all: up to date, no event recorded.
    let mut config = Config::default();
    config.advanced.preserve_timestamps = false;
    let cfg = cfg_for(&config, "/r", "git@github.com:a/b.git");
    let mut m = SyncMachine::start(cfg);
    m = m.step(ok(""));
    m = m.step(ok(""));
    m = m.step(ok("git@github.com:a/b.git\n"));
    m = m.step(ok("main\n"));
    m = m.step(ok(""));
    m = m.step(ok("0\n"));
    m = m.step(ok("0\n"));
    m = m.step(ok(""));
    let outcome = m.into_outcome().unwrap();
    assert!(matches!(&outcome, SyncResult::UpToDate { .. }));

    let mut engine = SyncEngine::with_custom_state_db(Config::default(), StateDb::open_in_memory());
    engine.record_sync_result(&outcome, "a/b");
    let db = engine.state_db().unwrap();
    assert_eq!(db.event_count(), 0);
    assert_eq!(db.get_repo("a/b").unwrap().last_sync_status, RepoStatus::Synced);
}

#[test]
fn test_remote_mismatch_skips() {
    let mut config = Config::default();
    config.advanced.preserve_timestamps = false;
    let cfg = cfg_for(&config, "/r", "git@github.com:a/b.git");
    let mut m = SyncMachine::start(cfg);
    m = m.step(ok(""));
    m = m.step(ok(""));
    m = m.step(ok("git@github.com:someone/else.git\n"));
    m = m.step(ok("main\n"));
    assert!(m.is_done());
    match m.into_outcome().unwrap() {
        SyncResult::Skipped { reason, .. } => assert_eq!(reason, "Remote URL mismatch"),
        other => panic!("expected a skip, got {:?}", other),
    }
}

#[test]
fn test_fetch_only_strategy() {
    let mut config = Config::default();
    config.sync.strategy = "fetch-only".to_string();
    let cfg = cfg_for(&config, "/r", "git@github.com:a/b.git");
    let mut m = SyncMachine::start(cfg);
    m = m.step(ok(""));
    m = m.step(ok(""));
    m = m.step(ok("git@github.com:a/b.git\n"));
    m = m.step(ok("main\n"));
    m = m.step(ok(""));
    m = m.step(ok("0\n"));
    m = m.step(ok("5\n"));
    m = m.step(ok(""));
    match m.into_outcome().unwrap() {
        SyncResult::FetchedOnly { reason, .. } => {
            assert_eq!(reason, "Fetch-only strategy configured")
        }
        other => panic!("expected fetched-only, got {:?}", other),
    }
}

#[test]
fn test_conflicts_fall_back_to_fetch() {
    let mut config = Config::default();
    config.advanced.preserve_timestamps = false;
    let cfg = cfg_for(&config, "/r", "git@github.com:a/b.git");
    let mut m = SyncMachine::start(cfg);
    m = m.step(ok(""));
    m = m.step(ok(""));
    m = m.step(ok("git@github.com:a/b.git\n"));
    m = m.step(ok("main\n"));
    m = m.step(ok(""));
    m = m.step(ok("0\n"));
    m = m.step(ok("3\n"));
    m = m.step(ok("conflicted.rs\n")); // unmerged paths exist
    match m.into_outcome().unwrap() {
        SyncResult::FetchedOnly { reason, .. } => {
            assert_eq!(reason, "Repository has unresolved conflicts")
        }
        other => panic!("expected fetched-only, got {:?}", other),
    }
}

#[test]
fn test_pull_failure_is_reported() {
    let mut config = Config::default();
    config.advanced.preserve_timestamps = false;
    let cfg = cfg_for(&config, "/r", "git@github.com:a/b.git");
    let mut m = SyncMachine::start(cfg);
    m = m.step(ok(""));
    m = m.step(ok(""));
    m = m.step(ok("git@github.com:a/b.git\n"));
    m = m.step(ok("main\n"));
    m = m.step(ok(""));
    m = m.step(ok("0\n"));
    m = m.step(ok("3\n"));
    m = m.step(ok(""));
    m = m.step(fail("fatal: Not possible to fast-forward, aborting."));
    match m.into_outcome().unwrap() {
        SyncResult::Failed { error, .. } => {
            assert!(error.contains("Git pull failed"));
            assert!(error.contains("fast-forward"));
        }
        other => panic!("expected a failure, got {:?}", other),
    }
}

#[test]
fn test_scripted_run_produces_one_outcome() {
    let mut config = Config::default();
    config.advanced.preserve_timestamps = false;
    let cfg = cfg_for(&config, "/r", "git@github.com:a/b.git");
    let replies = vec![
        ok(""),
        ok(" M file\n"), // dirty: the run settles early
    ];
    let outcome = reposentry::machine::run_scripted(cfg, replies);
    assert!(matches!(outcome, Some(SyncResult::Skipped { .. })));
}

#[test]
fn test_scripted_runs_one_outcome_slot_each() {
    let mut config = Config::default();
    config.advanced.preserve_timestamps = false;
    let dirty = ScriptedRun {
        cfg: cfg_for(&config, "/r1", "git@github.com:a/b.git"),
        replies: vec![ok(""), ok(" M file\n")],
    };
    let starved = ScriptedRun {
        cfg: cfg_for(&config, "/r2", "git@github.com:a/c.git"),
        replies: vec![],
    };
    let outcomes = run_all_scripted(vec![dirty, starved]);
    assert_eq!(outcomes.len(), 2);
    assert!(matches!(outcomes[0], Some(SyncResult::Skipped { .. })));
    assert!(outcomes[1].is_none()); // no replies: the run never settles
}

#[test]
fn test_analyze_repo_state_assembly() {
    let absent = analyze_repo_state(
        "/r",
        "git@github.com:a/b.git",
        false,
        &ok(""),
        &ok(""),
        &ok(""),
        &ok(""),
        &ok(""),
        &ok(""),
        &ok(""),
    );
    assert!(!absent.exists);
    assert!(!absent.has_uncommitted_changes);
    assert_eq!(absent.remote_url.as_deref(), Some("git@github.com:a/b.git"));
    assert!(absent.current_branch.is_none());

    let state = analyze_repo_state(
        "/r",
        "git@github.com:a/b.git",
        true,
        &ok(" M README.md\n"),              // porcelain status
        &ok(""),                            // untracked listing
        &ok("main\n"),                      // current branch
        &ok("git@github.com:a/b.git\n"),    // remote URL
        &ok("2\n"),                         // ahead count
        &ok("0\n"),                         // behind count
        &ok(""),                            // unmerged paths
    );
    assert!(state.exists);
    assert!(state.has_uncommitted_changes);
    assert!(!state.has_untracked_files);
    assert!(state.is_ahead_of_remote);
    assert!(!state.is_behind_remote);
    assert!(!state.has_conflicts);
    assert_eq!(state.current_branch.as_deref(), Some("main"));
    assert_eq!(state.remote_url.as_deref(), Some("git@github.com:a/b.git"));

    let failed_probe = analyze_repo_state(
        "/r",
        "git@github.com:a/b.git",
        true,
        &ok(""),
        &ok(""),
        &fail("no branch"),
        &fail("no remote"),
        &fail(""),
        &fail(""),
        &ok(""),
    );
    assert!(failed_probe.current_branch.is_none());
    assert!(failed_probe.remote_url.is_none());
    assert!(!failed_probe.is_ahead_of_remote);
}

#[test]
fn test_daemon_duration_parsing() {
    assert_eq!(parse_daemon_duration("30m").unwrap(), 1800);
    assert_eq!(parse_daemon_duration("1h").unwrap(), 3600);
    assert_eq!(parse_daemon_duration("2d").unwrap(), 172800);
    assert_eq!(parse_daemon_duration("45s").unwrap(), 45);
    assert_eq!(parse_daemon_duration("300").unwrap(), 300);
    assert_eq!(parse_daemon_duration(" 30M ").unwrap(), 1800);
    assert!(parse_daemon_duration("").is_err());
    assert!(parse_daemon_duration("m").is_err());
    assert!(parse_daemon_duration("ten minutes").is_err());
}

#[test]
fn test_daemon_status() {
    let status = DaemonStatus::compute(true, 12, "5m");
    assert!(status.is_running);
    assert_eq!(status.uptime, 12);
    assert!(status.next_sync_in.is_some());
    assert_eq!(status.next_sync_in.unwrap(), 300);

    let stopped = DaemonStatus::compute(false, 0, "5m");
    assert!(stopped.next_sync_in.is_none());

    let fallback = DaemonStatus::compute(true, 1, "not-a-duration");
    assert_eq!(fallback.next_sync_in.unwrap(), 1800);
}

#[test]
fn test_auth_choice() {
    let r = choose_auth("auto", Some("cli-token".to_string()), Some("env-token".to_string()));
    let (s, t) = r.unwrap();
    assert_eq!(s, AuthStrategy::GitHubCLI);
    assert_eq!(t, "cli-token");

    let r = choose_auth("auto", None, Some("env-token".to_string()));
    let (s, t) = r.unwrap();
    assert_eq!(s, AuthStrategy::EnvironmentToken);
    assert_eq!(t, "env-token");

    assert!(choose_auth("auto", None, None).is_err());
    assert!(choose_auth("gh_cli", None, Some("x".to_string())).is_err());
    assert!(choose_auth("token", Some("x".to_string()), None).is_err());
    assert!(choose_auth("carrier-pigeon", Some("x".to_string()), None).is_err());

    assert!(plausible_github_token("ghp_0123456789"));
    assert!(plausible_github_token("gho_0123456789"));
    assert!(!plausible_github_token("not-a-token"));
}
