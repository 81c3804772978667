//! The sync orchestrator's decisions: adaptive concurrency, summary
//! aggregation, the timeout outcome, and the mapping from each
//! outcome to exactly one repository upsert and at most one event.
//! The parallel dispatch itself — tasks, semaphore and timers — is
//! the embedding application's loop around these functions.

use vstd::prelude::*;

use crate::config::Config;
use crate::discovery::RepoSpec;
use crate::git::{GitClient, SyncResult};
use crate::machine::opt_view_eq;
use crate::state::{
    name_differs, EventType, RepoStatus, StateDb, SyncEventBuilder,
};
use crate::strutil::{
    find_last, lemma_filter_push, lemma_last_index_bounds, last_index_of, spec_contains_sub,
    spec_dec_digits, contains_sub, u32_to_string, u64_to_string,
};

verus! {

/// Results from a complete sync operation.
#[derive(Debug)]
pub struct SyncSummary {
    pub total_repositories: usize,
    pub successful_operations: usize,
    pub failed_operations: usize,
    pub skipped_operations: usize,
    /// Wall-clock duration of the run, in milliseconds.
    pub duration_ms: u64,
    pub results: Vec<SyncResult>,
}

/// The outcomes counted as successful: everything but a skip or a
/// failure.
pub open spec fn is_successful(r: SyncResult) -> bool {
    ||| r matches SyncResult::Cloned { .. }
    ||| r matches SyncResult::Pulled { .. }
    ||| r matches SyncResult::BranchSwitched { .. }
    ||| r matches SyncResult::FetchedOnly { .. }
    ||| r matches SyncResult::UpToDate { .. }
}

pub open spec fn is_skipped(r: SyncResult) -> bool {
    r matches SyncResult::Skipped { .. }
}

pub open spec fn is_failed(r: SyncResult) -> bool {
    r matches SyncResult::Failed { .. }
}

/// The local path an outcome speaks of.
pub open spec fn spec_path_of(r: SyncResult) -> Seq<char> {
    match r {
        SyncResult::Cloned { path, .. } => path@,
        SyncResult::Pulled { path, .. } => path@,
        SyncResult::BranchSwitched { path, .. } => path@,
        SyncResult::FetchedOnly { path, .. } => path@,
        SyncResult::UpToDate { path, .. } => path@,
        SyncResult::Skipped { path, .. } => path@,
        SyncResult::Failed { path, .. } => path@,
    }
}

/// The event type a skip-like reason text denotes, judged by its
/// wording; unrecognized reasons count as local changes.
pub open spec fn spec_reason_event_type(reason: Seq<char>) -> EventType {
    if spec_contains_sub(reason, "local changes"@) {
        EventType::SkippedLocalChanges
    } else if spec_contains_sub(reason, "conflict"@) {
        EventType::SkippedConflicts
    } else if spec_contains_sub(reason, "ahead"@) {
        EventType::SkippedAheadOfRemote
    } else {
        EventType::SkippedLocalChanges
    }
}

/// Whether a fetched-only reason is one of the skip kinds; any other
/// reason is the quiet fetch path.
pub open spec fn spec_fetched_only_is_skip(reason: Seq<char>) -> bool {
    ||| spec_contains_sub(reason, "local changes"@)
    ||| spec_contains_sub(reason, "conflict"@)
    ||| spec_contains_sub(reason, "ahead"@)
}

/// The event type recorded for an outcome that emits one.
pub open spec fn spec_event_type_of(r: SyncResult) -> EventType {
    match r {
        SyncResult::Cloned { .. } => EventType::Cloned,
        SyncResult::Pulled { .. } => EventType::Pulled,
        SyncResult::BranchSwitched { .. } => EventType::BranchSwitch,
        SyncResult::FetchedOnly { reason, .. } => spec_reason_event_type(reason@),
        SyncResult::UpToDate { .. } => EventType::Pulled,
        SyncResult::Skipped { reason, .. } => spec_reason_event_type(reason@),
        SyncResult::Failed { .. } => EventType::SyncError,
    }
}

/// The record status an outcome maps to.
pub open spec fn spec_status_of(r: SyncResult) -> RepoStatus {
    match r {
        SyncResult::Cloned { .. } => RepoStatus::Synced,
        SyncResult::Pulled { .. } => RepoStatus::Synced,
        SyncResult::BranchSwitched { .. } => RepoStatus::Synced,
        SyncResult::FetchedOnly { reason, .. } => if spec_fetched_only_is_skip(reason@) {
            RepoStatus::Skipped
        } else {
            RepoStatus::Synced
        },
        SyncResult::UpToDate { .. } => RepoStatus::Synced,
        SyncResult::Skipped { .. } => RepoStatus::Skipped,
        SyncResult::Failed { .. } => RepoStatus::Error,
    }
}

/// Whether an outcome emits an event: every outcome does except an
/// up-to-date repository, a pull of zero commits, and a fetched-only
/// outcome whose reason is not a skip.
pub open spec fn outcome_emits_event(r: SyncResult) -> bool {
    match r {
        SyncResult::UpToDate { .. } => false,
        SyncResult::Pulled { commits_updated, .. } => commits_updated > 0,
        SyncResult::FetchedOnly { reason, .. } => spec_fetched_only_is_skip(reason@),
        _ => true,
    }
}

/// The summary text of the event an outcome emits.  (An outcome that
/// emits none has no summary; the empty text stands in.)
pub open spec fn spec_event_summary(r: SyncResult) -> Seq<char> {
    match r {
        SyncResult::Cloned { branch, .. } => match branch {
            Some(b) => "Cloned on branch "@ + b@,
            None => "Cloned"@,
        },
        SyncResult::Pulled { commits_updated, .. } => "Pulled "@ + spec_dec_digits(
            commits_updated as nat,
        ) + " commits"@,
        SyncResult::BranchSwitched { from_branch, to_branch, commits_updated, .. } => {
            "Switched from "@ + from_branch@ + " to "@ + to_branch@ + " ("@ + spec_dec_digits(
                commits_updated as nat,
            ) + " commits)"@
        },
        SyncResult::FetchedOnly { reason, .. } => "Fetch only: "@ + reason@,
        SyncResult::UpToDate { .. } => Seq::empty(),
        SyncResult::Skipped { reason, .. } => "Skipped: "@ + reason@,
        SyncResult::Failed { error, .. } => "Sync error: "@ + error@,
    }
}

/// The details text of the event an outcome emits: a branch switch
/// carries the movement as JSON, everything else carries none.
pub open spec fn spec_event_details(r: SyncResult) -> Option<Seq<char>> {
    match r {
        SyncResult::BranchSwitched { from_branch, to_branch, commits_updated, .. } => Some(
            "{\"from\": \""@ + from_branch@ + "\", \"to\": \""@ + to_branch@
                + "\", \"commits\": "@ + spec_dec_digits(commits_updated as nat) + "}"@,
        ),
        _ => None,
    }
}

/// The skip reason (or error) an outcome stores on its record.
pub open spec fn spec_record_reason(r: SyncResult) -> Option<Seq<char>> {
    match r {
        SyncResult::FetchedOnly { reason, .. } => Some(reason@),
        SyncResult::Skipped { reason, .. } => Some(reason@),
        SyncResult::Failed { error, .. } => Some(error@),
        _ => None,
    }
}

/// The branch an outcome writes to its record, when it names one; an
/// outcome without one leaves the stored branch alone.
pub open spec fn spec_record_branch(r: SyncResult) -> Option<Seq<char>> {
    match r {
        SyncResult::Cloned { branch, .. } => match branch {
            Some(b) => Some(b@),
            None => None,
        },
        SyncResult::Pulled { branch, .. } => match branch {
            Some(b) => Some(b@),
            None => None,
        },
        SyncResult::BranchSwitched { to_branch, .. } => Some(to_branch@),
        SyncResult::UpToDate { branch, .. } => match branch {
            Some(b) => Some(b@),
            None => None,
        },
        _ => None,
    }
}

/// The repository name a local path denotes: its last two path
/// components as `owner/name`, or the single last component, or the
/// path itself when it has no components.
pub open spec fn spec_repo_name_of_path(path: Seq<char>) -> Seq<char> {
    let a = last_index_of(path, '/');
    if a < 0 {
        path
    } else {
        let repo = path.skip(a + 1);
        let rest = path.take(a);
        let b = last_index_of(rest, '/');
        let owner = rest.skip(b + 1);
        if owner.len() == 0 {
            repo
        } else {
            owner + "/"@ + repo
        }
    }
}

/// The repository name an outcome is recorded under: derived from
/// its local path.
pub open spec fn spec_record_name(r: SyncResult) -> Seq<char> {
    spec_repo_name_of_path(spec_path_of(r))
}

/// Whether some record carries the name.
pub open spec fn has_repo_named(s: Seq<crate::state::RepoState>, name: Seq<char>) -> bool {
    exists|i: int| 0 <= i < s.len() && (#[trigger] s[i]).full_name@ == name
}

/// Derives `owner/name` from a local path.
pub fn repo_name_from_path(path: &str) -> (r: String)
    ensures
        r@ == spec_repo_name_of_path(path@),
{
    proof {
        lemma_last_index_bounds(path@, '/');
    }
    match find_last(path, '/') {
        None => String::from_str(path),
        Some(a) => {
            let len = path.unicode_len();
            let repo = path.substring_char(a + 1, len);
            let rest = path.substring_char(0, a);
            proof {
                lemma_last_index_bounds(rest@, '/');
            }
            let owner: &str = match find_last(rest, '/') {
                None => rest,
                Some(b) => rest.substring_char(b + 1, rest.unicode_len()),
            };
            if owner.unicode_len() == 0 {
                String::from_str(repo)
            } else {
                let mut s = String::from_str(owner);
                s.append("/");
                s.append(repo);
                s
            }
        },
    }
}

/// The outcome the orchestrator records when one repository's
/// operation outlives the configured deadline of `secs` seconds.
pub fn timeout_outcome(path: &str, secs: u64) -> (r: SyncResult)
    ensures
        r matches SyncResult::Failed { path: p, error } && p@ == path@ && error@
            == "Operation timed out after "@ + spec_dec_digits(secs as nat) + "s"@,
{
    let mut e = String::from_str("Operation timed out after ");
    let digits = u64_to_string(secs);
    e.append(digits.as_str());
    e.append("s");
    SyncResult::Failed { path: String::from_str(path), error: e }
}

/// What one outcome writes to the store: the upsert's fields and the
/// event, when one is emitted.
pub struct RecordPlan {
    pub local_path: String,
    pub branch: Option<String>,
    pub status: RepoStatus,
    pub skip_reason: Option<String>,
    pub event: Option<(EventType, String, Option<String>)>,
}

/// Computes the store writes an outcome maps to: one upsert always,
/// and an event exactly when the outcome emits one.
pub fn plan_record(result: &SyncResult) -> (p: RecordPlan)
    ensures
        p.local_path@ == spec_path_of(*result),
        p.status == spec_status_of(*result),
        (p.event is Some) == outcome_emits_event(*result),
        p.event matches Some((et, summary, details)) ==> et == spec_event_type_of(*result)
            && summary@ == spec_event_summary(*result) && (match (
            details,
            spec_event_details(*result),
        ) {
            (Some(d), Some(t)) => d@ == t,
            (None, None) => true,
            _ => false,
        }),
        match (p.branch, spec_record_branch(*result)) {
            (Some(b), Some(t)) => b@ == t,
            (None, None) => true,
            _ => false,
        },
        match (p.skip_reason, spec_record_reason(*result)) {
            (Some(sr), Some(t)) => sr@ == t,
            (None, None) => true,
            _ => false,
        },
{
    match result {
        SyncResult::Cloned { path, branch } => {
            let summary: String = match branch {
                Some(b) => {
                    let mut s = String::from_str("Cloned on branch ");
                    s.append(b.as_str());
                    s
                },
                None => String::from_str("Cloned"),
            };
            RecordPlan {
                local_path: path.clone(),
                branch: clone_opt_string(branch),
                status: RepoStatus::Synced,
                skip_reason: None,
                event: Some((EventType::Cloned, summary, None)),
            }
        },
        SyncResult::Pulled { path, commits_updated, branch } => {
            let event: Option<(EventType, String, Option<String>)> = if *commits_updated > 0 {
                let mut s = String::from_str("Pulled ");
                let digits = u32_to_string(*commits_updated);
                s.append(digits.as_str());
                s.append(" commits");
                Some((EventType::Pulled, s, None))
            } else {
                None
            };
            RecordPlan {
                local_path: path.clone(),
                branch: clone_opt_string(branch),
                status: RepoStatus::Synced,
                skip_reason: None,
                event,
            }
        },
        SyncResult::BranchSwitched { path, from_branch, to_branch, commits_updated } => {
            let digits = u32_to_string(*commits_updated);
            let mut summary = String::from_str("Switched from ");
            summary.append(from_branch.as_str());
            summary.append(" to ");
            summary.append(to_branch.as_str());
            summary.append(" (");
            summary.append(digits.as_str());
            summary.append(" commits)");
            let mut details = String::from_str("{\"from\": \"");
            details.append(from_branch.as_str());
            details.append("\", \"to\": \"");
            details.append(to_branch.as_str());
            details.append("\", \"commits\": ");
            details.append(digits.as_str());
            details.append("}");
            RecordPlan {
                local_path: path.clone(),
                branch: Some(to_branch.clone()),
                status: RepoStatus::Synced,
                skip_reason: None,
                event: Some((EventType::BranchSwitch, summary, Some(details))),
            }
        },
        SyncResult::FetchedOnly { path, reason } => {
            let local = contains_sub(reason.as_str(), "local changes");
            let conflict = contains_sub(reason.as_str(), "conflict");
            let ahead = contains_sub(reason.as_str(), "ahead");
            let is_skip = local || conflict || ahead;
            let event_type = if local {
                EventType::SkippedLocalChanges
            } else if conflict {
                EventType::SkippedConflicts
            } else if ahead {
                EventType::SkippedAheadOfRemote
            } else {
                EventType::SkippedLocalChanges
            };
            let status = if is_skip {
                RepoStatus::Skipped
            } else {
                RepoStatus::Synced
            };
            let event: Option<(EventType, String, Option<String>)> = if is_skip {
                let mut s = String::from_str("Fetch only: ");
                s.append(reason.as_str());
                Some((event_type, s, None))
            } else {
                None
            };
            RecordPlan {
                local_path: path.clone(),
                branch: None,
                status,
                skip_reason: Some(reason.clone()),
                event,
            }
        },
        SyncResult::UpToDate { path, branch } => {
            RecordPlan {
                local_path: path.clone(),
                branch: clone_opt_string(branch),
                status: RepoStatus::Synced,
                skip_reason: None,
                event: None,
            }
        },
        SyncResult::Skipped { path, reason } => {
            let local = contains_sub(reason.as_str(), "local changes");
            let conflict = contains_sub(reason.as_str(), "conflict");
            let ahead = contains_sub(reason.as_str(), "ahead");
            let event_type = if local {
                EventType::SkippedLocalChanges
            } else if conflict {
                EventType::SkippedConflicts
            } else if ahead {
                EventType::SkippedAheadOfRemote
            } else {
                EventType::SkippedLocalChanges
            };
            let mut s = String::from_str("Skipped: ");
            s.append(reason.as_str());
            RecordPlan {
                local_path: path.clone(),
                branch: None,
                status: RepoStatus::Skipped,
                skip_reason: Some(reason.clone()),
                event: Some((event_type, s, None)),
            }
        },
        SyncResult::Failed { path, error } => {
            let mut s = String::from_str("Sync error: ");
            s.append(error.as_str());
            RecordPlan {
                local_path: path.clone(),
                branch: None,
                status: RepoStatus::Error,
                skip_reason: Some(error.clone()),
                event: Some((EventType::SyncError, s, None)),
            }
        },
    }
}

fn clone_opt_string(o: &Option<String>) -> (r: Option<String>)
    ensures
        opt_view_eq(r, *o),
{
    match o {
        Some(s) => Some(s.clone()),
        None => None,
    }
}

fn opt_as_str(o: &Option<String>) -> (r: Option<&str>)
    ensures
        match (r, *o) {
            (Some(a), Some(b)) => a@ == b@,
            (None, None) => true,
            _ => false,
        },
{
    match o {
        Some(s) => Some(s.as_str()),
        None => None,
    }
}

/// The sum of the known repository sizes, in bytes.
pub open spec fn spec_sum_sizes(repos: Seq<RepoSpec>) -> nat
    decreases repos.len(),
{
    if repos.len() == 0 {
        0
    } else {
        spec_sum_sizes(repos.drop_last()) + (match repos.last().size_bytes {
            Some(s) => s as nat,
            None => 0nat,
        })
    }
}

proof fn lemma_sum_sizes_step(repos: Seq<RepoSpec>, i: int)
    requires
        0 <= i < repos.len(),
    ensures
        spec_sum_sizes(repos.take(i + 1)) == spec_sum_sizes(repos.take(i)) + (
        match repos[i].size_bytes {
            Some(s) => s as nat,
            None => 0nat,
        }),
{
    assert(repos.take(i + 1).drop_last() =~= repos.take(i));
    assert(repos.take(i + 1).last() == repos[i]);
}

/// The effective concurrency: the network-aware base, scaled down by
/// the mean repository size and by the repository count, rounded half
/// up and clamped between one and twelve.
pub open spec fn spec_adaptive_concurrency(repos: Seq<RepoSpec>, base: nat) -> nat {
    let n = repos.len();
    let sum = spec_sum_sizes(repos);
    let nn: nat = if n == 0 {
        1
    } else {
        n
    };
    let sf_n: nat = if sum > 50000000 * nn {
        1
    } else if sum > 10000000 * nn {
        3
    } else {
        1
    };
    let sf_d: nat = if sum > 50000000 * nn {
        2
    } else if sum > 10000000 * nn {
        4
    } else {
        1
    };
    let bb: nat = if base == 0 {
        1
    } else {
        base
    };
    let cf_n: nat = if n > 50 {
        3
    } else if n > 20 {
        4
    } else {
        1
    };
    let cf_d: nat = if n > 50 {
        if bb < 5 {
            bb
        } else {
            5
        }
    } else if n > 20 {
        5
    } else {
        1
    };
    let nb: nat = if base == 4 {
        if n < 6 {
            n
        } else {
            6
        }
    } else {
        base
    };
    let num = nb * sf_n * cf_n;
    let den = sf_d * cf_d;
    let rounded = (2 * num + den) / (2 * den);
    if rounded < 1 {
        1
    } else if rounded > 12 {
        12
    } else {
        rounded
    }
}

/// The main sync engine: the decision half of the orchestrator.  The
/// embedding application owns the task pool and the semaphore; it
/// sizes them and records its outcomes through these functions.
pub struct SyncEngine {
    pub git_client: GitClient,
    pub state_db: Option<StateDb>,
}

impl SyncEngine {
    /// The engine is well formed when its store, if any, is.
    pub open spec fn wf(self) -> bool {
        match self.state_db {
            Some(db) => db.wf(),
            None => true,
        }
    }

    /// Create a new sync engine with the given configuration and no
    /// event tracking.
    pub fn new(config: Config) -> (r: Self)
        ensures
            r.wf(),
            r.git_client.config == config,
            r.state_db is None,
    {
        Self { git_client: GitClient::new(config), state_db: None }
    }

    /// Create a sync engine that records into the given store.
    pub fn with_custom_state_db(config: Config, state_db: StateDb) -> (r: Self)
        requires
            state_db.wf(),
        ensures
            r.wf(),
            r.git_client.config == config,
            r.state_db == Some(state_db),
    {
        Self { git_client: GitClient::new(config), state_db: Some(state_db) }
    }

    /// The configuration the engine runs under.
    pub fn config(&self) -> (r: &Config)
        ensures
            r == &self.git_client.config,
    {
        &self.git_client.config
    }

    /// The git client for direct operations.
    pub fn git_client(&self) -> (r: &GitClient)
        ensures
            r == &self.git_client,
    {
        &self.git_client
    }

    /// Takes the state store out of the engine, for persisting it.
    pub fn take_state_db(&mut self) -> (r: Option<StateDb>)
        ensures
            final(self).state_db is None,
            final(self).git_client == old(self).git_client,
            r == old(self).state_db,
    {
        let mut out: Option<StateDb> = None;
        core::mem::swap(&mut out, &mut self.state_db);
        out
    }

    /// The state store, if one is configured.
    pub fn state_db(&self) -> (r: Option<&StateDb>)
        ensures
            match (r, self.state_db) {
                (Some(a), Some(b)) => *a == b,
                (None, None) => true,
                _ => false,
            },
    {
        match &self.state_db {
            Some(db) => Some(db),
            None => None,
        }
    }

    /// Aggregates outcomes into a summary.  The buckets partition the
    /// outcomes: the total equals successful plus skipped plus
    /// failed, and equals the number of outcomes.
    pub fn compile_summary(&self, results: Vec<SyncResult>, duration_ms: u64) -> (s: SyncSummary)
        ensures
            s.total_repositories == results@.len(),
            s.successful_operations == results@.filter(|r: SyncResult| is_successful(r)).len(),
            s.skipped_operations == results@.filter(|r: SyncResult| is_skipped(r)).len(),
            s.failed_operations == results@.filter(|r: SyncResult| is_failed(r)).len(),
            s.total_repositories == s.successful_operations + s.skipped_operations
                + s.failed_operations,
            s.results == results,
            s.duration_ms == duration_ms,
    {
        let n = results.len();
        let mut successful: usize = 0;
        let mut skipped: usize = 0;
        let mut failed: usize = 0;
        let mut i: usize = 0;
        proof {
            assert(results@.take(0).filter(|r: SyncResult| is_successful(r))
                =~= Seq::<SyncResult>::empty());
            assert(results@.take(0).filter(|r: SyncResult| is_skipped(r))
                =~= Seq::<SyncResult>::empty());
            assert(results@.take(0).filter(|r: SyncResult| is_failed(r))
                =~= Seq::<SyncResult>::empty());
        }
        while i < n
            invariant
                i <= n,
                n == results@.len(),
                successful == results@.take(i as int).filter(
                    |r: SyncResult| is_successful(r),
                ).len(),
                skipped == results@.take(i as int).filter(|r: SyncResult| is_skipped(r)).len(),
                failed == results@.take(i as int).filter(|r: SyncResult| is_failed(r)).len(),
                successful + skipped + failed == i,
            decreases n - i,
        {
            proof {
                assert(results@.take(i + 1) =~= results@.take(i as int).push(results@[i as int]));
                lemma_filter_push(
                    results@.take(i as int),
                    results@[i as int],
                    |r: SyncResult| is_successful(r),
                );
                lemma_filter_push(
                    results@.take(i as int),
                    results@[i as int],
                    |r: SyncResult| is_skipped(r),
                );
                lemma_filter_push(
                    results@.take(i as int),
                    results@[i as int],
                    |r: SyncResult| is_failed(r),
                );
            }
            match &results[i] {
                SyncResult::Skipped { .. } => {
                    skipped = skipped + 1;
                },
                SyncResult::Failed { .. } => {
                    failed = failed + 1;
                },
                _ => {
                    successful = successful + 1;
                },
            }
            i += 1;
        }
        proof {
            assert(results@.take(n as int) =~= results@);
        }
        SyncSummary {
            total_repositories: n,
            successful_operations: successful,
            failed_operations: failed,
            skipped_operations: skipped,
            duration_ms,
            results,
        }
    }

    /// Calculate the effective concurrency for a run.  For any
    /// inputs the result lies between one and twelve.
    pub fn calculate_adaptive_concurrency(&self, repos: &Vec<RepoSpec>, base_parallel: usize) -> (r:
        usize)
        ensures
            r as nat == spec_adaptive_concurrency(repos@, base_parallel as nat),
            1 <= r <= 12,
    {
        let n = repos.len();
        let mut sum: u128 = 0;
        let mut i: usize = 0;
        while i < n
            invariant
                i <= n,
                n == repos@.len(),
                sum == spec_sum_sizes(repos@.take(i as int)),
                sum <= (i as nat) * (u64::MAX as nat),
            decreases n - i,
        {
            proof {
                lemma_sum_sizes_step(repos@, i as int);
                assert((i as nat) * (u64::MAX as nat) + (u64::MAX as nat) == ((i + 1) as nat) * (
                u64::MAX as nat)) by (nonlinear_arith);
                assert(((i + 1) as nat) * (u64::MAX as nat) < u128::MAX) by (nonlinear_arith)
                    requires
                        (i + 1) as nat <= usize::MAX as nat,
                ;
            }
            let add: u64 = match repos[i].size_bytes {
                Some(s) => s,
                None => 0,
            };
            sum = sum + add as u128;
            i += 1;
        }
        proof {
            assert(repos@.take(n as int) =~= repos@);
        }
        let nn: u128 = if n == 0 {
            1
        } else {
            n as u128
        };
        let big = sum > 50000000 * nn;
        let medium = !big && sum > 10000000 * nn;
        let sf_n: u128 = if big {
            1
        } else if medium {
            3
        } else {
            1
        };
        let sf_d: u128 = if big {
            2
        } else if medium {
            4
        } else {
            1
        };
        let bb: u128 = if base_parallel == 0 {
            1
        } else {
            base_parallel as u128
        };
        let cf_n: u128 = if n > 50 {
            3
        } else if n > 20 {
            4
        } else {
            1
        };
        let cf_d: u128 = if n > 50 {
            if bb < 5 {
                bb
            } else {
                5
            }
        } else if n > 20 {
            5
        } else {
            1
        };
        let nb: u128 = if base_parallel == 4 {
            if n < 6 {
                n as u128
            } else {
                6
            }
        } else {
            base_parallel as u128
        };
        proof {
            assert(nb * sf_n * cf_n <= nb * 3 * 4) by (nonlinear_arith)
                requires
                    sf_n <= 3,
                    cf_n <= 4,
            ;
        }
        let num: u128 = nb * sf_n * cf_n;
        let den: u128 = sf_d * cf_d;
        let rounded: u128 = (2 * num + den) / (2 * den);
        let r: usize = if rounded < 1 {
            1
        } else if rounded > 12 {
            12
        } else {
            rounded as usize
        };
        r
    }

    /// Record a sync result to the state store: exactly one
    /// repository upsert, and exactly one appended event when the
    /// outcome emits one; without a store nothing changes.  The
    /// updated record carries the outcome's path, status, branch and
    /// skip reason as the outcome-to-record table prescribes, and the
    /// event its exact summary and details.
    pub fn record_sync_result(&mut self, result: &SyncResult, repo_full_name: &str)
        requires
            old(self).wf(),
        ensures
            final(self).wf(),
            final(self).git_client == old(self).git_client,
            match (old(self).state_db, final(self).state_db) {
                (None, None) => true,
                (Some(db0), Some(db1)) => {
                    &&& db1.events().len() == db0.events().len() + (if outcome_emits_event(
                        *result,
                    ) {
                        1nat
                    } else {
                        0nat
                    })
                    &&& outcome_emits_event(*result) ==> {
                        let ev = db1.events().last();
                        &&& db1.events().drop_last() == db0.events()
                        &&& ev.event_type == spec_event_type_of(*result)
                        &&& ev.severity == spec_event_type_of(*result).spec_severity()
                        &&& ev.repo_full_name matches Some(nm) && nm@ == repo_full_name@
                        &&& ev.acknowledged == false
                        &&& ev.summary@ == spec_event_summary(*result)
                        &&& match (ev.details, spec_event_details(*result)) {
                            (Some(d), Some(t)) => d@ == t,
                            (None, None) => true,
                            _ => false,
                        }
                    }
                    &&& !outcome_emits_event(*result) ==> db1.events() == db0.events()
                    &&& db1.repos_seq().len() >= 1
                    &&& ({
                        let rec = db1.repos_seq()[0];
                        let prev = crate::state::spec_find_repo(db0.repos_seq(), repo_full_name@);
                        &&& rec.full_name@ == repo_full_name@
                        &&& rec.last_sync_status == spec_status_of(*result)
                        &&& rec.local_path matches Some(lp) && lp@ == spec_path_of(*result)
                        &&& match (rec.skip_reason, spec_record_reason(*result)) {
                            (Some(sr), Some(t)) => sr@ == t,
                            (None, None) => true,
                            _ => false,
                        }
                        &&& match spec_record_branch(*result) {
                            Some(b) => rec.current_branch matches Some(rb) && rb@ == b,
                            None => rec.current_branch == match prev {
                                Some(pr) => pr.current_branch,
                                None => None::<String>,
                            },
                        }
                        &&& (spec_status_of(*result) == RepoStatus::Synced || spec_status_of(
                            *result,
                        ) == RepoStatus::Skipped) ==> rec.last_sync_at is Some
                        &&& spec_status_of(*result) == RepoStatus::Error
                            ==> rec.last_sync_at == match prev {
                            Some(pr) => pr.last_sync_at,
                            None => None::<i64>,
                        }
                    })
                    &&& db1.repos_seq().drop_first() == db0.repos_seq().filter(
                        |x: crate::state::RepoState| name_differs(x, repo_full_name@),
                    )
                },
                _ => false,
            },
    {
        match &mut self.state_db {
            None => {},
            Some(db) => {
                let plan = plan_record(result);
                db.upsert_repo(
                    repo_full_name,
                    Some(plan.local_path.as_str()),
                    opt_as_str(&plan.branch),
                    plan.status,
                    opt_as_str(&plan.skip_reason),
                );
                match plan.event {
                    Some((event_type, summary, details)) => {
                        let builder = SyncEventBuilder::new(event_type, summary.as_str()).repo(
                            repo_full_name,
                        );
                        let builder = match &details {
                            Some(d) => builder.details(d.as_str()),
                            None => builder,
                        };
                        db.record_event(builder);
                    },
                    None => {},
                }
            },
        }
    }

    /// Record all sync results: one upsert per outcome, each keyed
    /// by the `owner/name` derived from the outcome's path.  The
    /// event log grows by exactly the number of event-emitting
    /// outcomes, every outcome's name has a record afterwards, and no
    /// record appears under any other name.
    pub fn record_sync_results(&mut self, results: &Vec<SyncResult>)
        requires
            old(self).wf(),
        ensures
            final(self).wf(),
            final(self).git_client == old(self).git_client,
            match (old(self).state_db, final(self).state_db) {
                (None, None) => true,
                (Some(db0), Some(db1)) => {
                    &&& db1.events().len() == db0.events().len() + results@.filter(
                        |r: SyncResult| outcome_emits_event(r),
                    ).len()
                    &&& forall|k: int|
                        0 <= k < results@.len() ==> #[trigger] has_repo_named(
                            db1.repos_seq(),
                            spec_record_name(results@[k]),
                        )
                    &&& forall|j: int|
                        0 <= j < db1.repos_seq().len() ==> has_repo_named(
                            db0.repos_seq(),
                            (#[trigger] db1.repos_seq()[j]).full_name@,
                        ) || exists|k: int|
                            0 <= k < results@.len() && db1.repos_seq()[j].full_name@
                                == #[trigger] spec_record_name(results@[k])
                },
                _ => false,
            },
    {
        let n = results.len();
        let mut i: usize = 0;
        proof {
            assert(results@.take(0).filter(|r: SyncResult| outcome_emits_event(r))
                =~= Seq::<SyncResult>::empty());
        }
        while i < n
            invariant
                i <= n,
                n == results@.len(),
                self.wf(),
                self.git_client == old(self).git_client,
                match (old(self).state_db, self.state_db) {
                    (None, None) => true,
                    (Some(db0), Some(db1)) => {
                        &&& db1.events().len() == db0.events().len() + results@.take(
                            i as int,
                        ).filter(|r: SyncResult| outcome_emits_event(r)).len()
                        &&& forall|k: int|
                            0 <= k < i ==> #[trigger] has_repo_named(
                                db1.repos_seq(),
                                spec_record_name(results@[k]),
                            )
                        &&& forall|j: int|
                            0 <= j < db1.repos_seq().len() ==> has_repo_named(
                                db0.repos_seq(),
                                (#[trigger] db1.repos_seq()[j]).full_name@,
                            ) || exists|k: int|
                                0 <= k < i && db1.repos_seq()[j].full_name@
                                    == #[trigger] spec_record_name(results@[k])
                    },
                    _ => false,
                },
            decreases n - i,
        {
            proof {
                assert(results@.take(i + 1) =~= results@.take(i as int).push(results@[i as int]));
                lemma_filter_push(
                    results@.take(i as int),
                    results@[i as int],
                    |r: SyncResult| outcome_emits_event(r),
                );
            }
            let path = outcome_path(&results[i]);
            let name = repo_name_from_path(path.as_str());
            let fname = name.as_str();
            let ghost pre_db = self.state_db;
            self.record_sync_result(&results[i], fname);
            proof {
                match (&pre_db, &self.state_db) {
                    (Some(dbp), Some(dbn)) => {
                        let dbp = *dbp;
                        let dbn = *dbn;
                        let nm = spec_record_name(results@[i as int]);
                        assert(fname@ == nm);
                        let pred = |x: crate::state::RepoState| name_differs(x, fname@);
                        let kept = dbp.repos_seq().filter(pred);
                        assert(dbn.repos_seq().drop_first() == kept);
                        assert forall|k: int|
                            0 <= k < i + 1 implies #[trigger] has_repo_named(
                            dbn.repos_seq(),
                            spec_record_name(results@[k]),
                        ) by {
                            let nk = spec_record_name(results@[k]);
                            if k == i || nk == nm {
                                assert(dbn.repos_seq()[0].full_name@ == nk);
                            } else {
                                assert(has_repo_named(dbp.repos_seq(), nk));
                                let w = choose|w: int|
                                    0 <= w < dbp.repos_seq().len() && (#[trigger] dbp.repos_seq()[w]).full_name@
                                        == nk;
                                dbp.repos_seq().lemma_filter_contains(pred, w);
                                let idx = choose|idx: int|
                                    0 <= idx < kept.len() && kept[idx] == dbp.repos_seq()[w];
                                assert(dbn.repos_seq()[idx + 1] == kept[idx]);
                                assert(dbn.repos_seq()[idx + 1].full_name@ == nk);
                            }
                        }
                        assert forall|j: int|
                            0 <= j < dbn.repos_seq().len() implies has_repo_named(
                            match old(self).state_db {
                                Some(db0) => db0.repos_seq(),
                                None => Seq::empty(),
                            },
                            (#[trigger] dbn.repos_seq()[j]).full_name@,
                        ) || exists|k: int|
                            0 <= k < i + 1 && dbn.repos_seq()[j].full_name@
                                == #[trigger] spec_record_name(results@[k]) by {
                            if j == 0 {
                                assert(dbn.repos_seq()[0].full_name@ == spec_record_name(
                                    results@[i as int],
                                ));
                            } else {
                                assert(dbn.repos_seq()[j] == kept[j - 1]);
                                crate::state::lemma_filter_elem_from(dbp.repos_seq(), pred, j - 1);
                                let w = choose|w: int|
                                    0 <= w < dbp.repos_seq().len() && dbp.repos_seq()[w] == kept[j
                                        - 1];
                                assert(dbp.repos_seq()[w].full_name@
                                    == dbn.repos_seq()[j].full_name@);
                            }
                        }
                    },
                    _ => {},
                }
            }
            i += 1;
        }
        proof {
            assert(results@.take(n as int) =~= results@);
        }
    }
}

/// The path field of an outcome.
pub fn outcome_path(r: &SyncResult) -> (p: &String)
    ensures
        p@ == spec_path_of(*r),
{
    match r {
        SyncResult::Cloned { path, .. } => path,
        SyncResult::Pulled { path, .. } => path,
        SyncResult::BranchSwitched { path, .. } => path,
        SyncResult::FetchedOnly { path, .. } => path,
        SyncResult::UpToDate { path, .. } => path,
        SyncResult::Skipped { path, .. } => path,
        SyncResult::Failed { path, .. } => path,
    }
}

} // verus!
