//! Persistent record of per-repository status and an append-only
//! event log, with the queries the observers use: recent events,
//! unacknowledged counts, repositories with issues, acknowledgement
//! and cleanup.
//!
//! The store is an in-memory table pair with full contracts; the
//! embedding application mirrors it to durable storage.  Event
//! timestamps are assigned at write time and are monotonic within one
//! store.

use vstd::prelude::*;

use crate::ext::now_unix;
use crate::strutil::{lemma_filter_push, str_eq};

verus! {

/// Event types that can occur during sync operations.
#[derive(Debug, Clone, Copy, PartialEq, Eq, Structural)]
pub enum EventType {
    /// Repository was cloned for the first time.
    Cloned,
    /// Repository was successfully pulled.
    Pulled,
    /// Branch was switched to track more recent activity.
    BranchSwitch,
    /// Repository was skipped due to local uncommitted changes.
    SkippedLocalChanges,
    /// Repository was skipped due to unresolved conflicts.
    SkippedConflicts,
    /// Repository was skipped because it is ahead of the remote.
    SkippedAheadOfRemote,
    /// Sync operation failed with an error.
    SyncError,
}

impl EventType {
    /// The wire name of this event type.
    pub open spec fn spec_str(self) -> Seq<char> {
        match self {
            EventType::Cloned => "cloned"@,
            EventType::Pulled => "pulled"@,
            EventType::BranchSwitch => "branch_switch"@,
            EventType::SkippedLocalChanges => "skipped_local_changes"@,
            EventType::SkippedConflicts => "skipped_conflicts"@,
            EventType::SkippedAheadOfRemote => "skipped_ahead_of_remote"@,
            EventType::SyncError => "sync_error"@,
        }
    }

    pub fn as_str(&self) -> (r: &'static str)
        ensures
            r@ == self.spec_str(),
    {
        match self {
            EventType::Cloned => "cloned",
            EventType::Pulled => "pulled",
            EventType::BranchSwitch => "branch_switch",
            EventType::SkippedLocalChanges => "skipped_local_changes",
            EventType::SkippedConflicts => "skipped_conflicts",
            EventType::SkippedAheadOfRemote => "skipped_ahead_of_remote",
            EventType::SyncError => "sync_error",
        }
    }

    /// The event type a wire name denotes, if any.
    pub open spec fn spec_parse(s: Seq<char>) -> Option<EventType> {
        if s == "cloned"@ {
            Some(EventType::Cloned)
        } else if s == "pulled"@ {
            Some(EventType::Pulled)
        } else if s == "branch_switch"@ {
            Some(EventType::BranchSwitch)
        } else if s == "skipped_local_changes"@ {
            Some(EventType::SkippedLocalChanges)
        } else if s == "skipped_conflicts"@ {
            Some(EventType::SkippedConflicts)
        } else if s == "skipped_ahead_of_remote"@ {
            Some(EventType::SkippedAheadOfRemote)
        } else if s == "sync_error"@ {
            Some(EventType::SyncError)
        } else {
            None
        }
    }

    pub fn parse(s: &str) -> (r: Option<Self>)
        ensures
            r == Self::spec_parse(s@),
    {
        if str_eq(s, "cloned") {
            Some(EventType::Cloned)
        } else if str_eq(s, "pulled") {
            Some(EventType::Pulled)
        } else if str_eq(s, "branch_switch") {
            Some(EventType::BranchSwitch)
        } else if str_eq(s, "skipped_local_changes") {
            Some(EventType::SkippedLocalChanges)
        } else if str_eq(s, "skipped_conflicts") {
            Some(EventType::SkippedConflicts)
        } else if str_eq(s, "skipped_ahead_of_remote") {
            Some(EventType::SkippedAheadOfRemote)
        } else if str_eq(s, "sync_error") {
            Some(EventType::SyncError)
        } else {
            None
        }
    }

    /// Severity is a function of the event type alone.
    pub open spec fn spec_severity(self) -> Severity {
        match self {
            EventType::Cloned => Severity::Info,
            EventType::Pulled => Severity::Info,
            EventType::BranchSwitch => Severity::Warning,
            EventType::SkippedLocalChanges => Severity::Warning,
            EventType::SkippedConflicts => Severity::Warning,
            EventType::SkippedAheadOfRemote => Severity::Info,
            EventType::SyncError => Severity::Error,
        }
    }

    /// The severity level for this event type.
    pub fn severity(&self) -> (r: Severity)
        ensures
            r == self.spec_severity(),
    {
        match self {
            EventType::Cloned => Severity::Info,
            EventType::Pulled => Severity::Info,
            EventType::BranchSwitch => Severity::Warning,
            EventType::SkippedLocalChanges => Severity::Warning,
            EventType::SkippedConflicts => Severity::Warning,
            EventType::SkippedAheadOfRemote => Severity::Info,
            EventType::SyncError => Severity::Error,
        }
    }
}

/// Severity levels for events.
#[derive(Debug, Clone, Copy, PartialEq, Eq, Structural)]
pub enum Severity {
    Info,
    Warning,
    Error,
}

impl Severity {
    pub open spec fn spec_str(self) -> Seq<char> {
        match self {
            Severity::Info => "info"@,
            Severity::Warning => "warning"@,
            Severity::Error => "error"@,
        }
    }

    pub fn as_str(&self) -> (r: &'static str)
        ensures
            r@ == self.spec_str(),
    {
        match self {
            Severity::Info => "info",
            Severity::Warning => "warning",
            Severity::Error => "error",
        }
    }

    pub open spec fn spec_parse(s: Seq<char>) -> Option<Severity> {
        if s == "info"@ {
            Some(Severity::Info)
        } else if s == "warning"@ {
            Some(Severity::Warning)
        } else if s == "error"@ {
            Some(Severity::Error)
        } else {
            None
        }
    }

    pub fn parse(s: &str) -> (r: Option<Self>)
        ensures
            r == Self::spec_parse(s@),
    {
        if str_eq(s, "info") {
            Some(Severity::Info)
        } else if str_eq(s, "warning") {
            Some(Severity::Warning)
        } else if str_eq(s, "error") {
            Some(Severity::Error)
        } else {
            None
        }
    }
}

/// Current status of a repository.
#[derive(Debug, Clone, PartialEq, Eq, Structural)]
pub enum RepoStatus {
    /// Repository is synced and up to date.
    Synced,
    /// Repository was skipped (see the skip reason).
    Skipped,
    /// Last sync resulted in an error.
    Error,
    /// Repository has never been synced.
    Unknown,
}

impl RepoStatus {
    pub open spec fn spec_str(self) -> Seq<char> {
        match self {
            RepoStatus::Synced => "ok"@,
            RepoStatus::Skipped => "skipped"@,
            RepoStatus::Error => "error"@,
            RepoStatus::Unknown => "unknown"@,
        }
    }

    pub fn as_str(&self) -> (r: &'static str)
        ensures
            r@ == self.spec_str(),
    {
        match self {
            RepoStatus::Synced => "ok",
            RepoStatus::Skipped => "skipped",
            RepoStatus::Error => "error",
            RepoStatus::Unknown => "unknown",
        }
    }

    /// The status a wire name denotes; anything unrecognized is
    /// `Unknown`.
    pub open spec fn spec_parse(s: Seq<char>) -> RepoStatus {
        if s == "ok"@ {
            RepoStatus::Synced
        } else if s == "skipped"@ {
            RepoStatus::Skipped
        } else if s == "error"@ {
            RepoStatus::Error
        } else {
            RepoStatus::Unknown
        }
    }

    pub fn parse(s: &str) -> (r: Self)
        ensures
            r == Self::spec_parse(s@),
    {
        if str_eq(s, "ok") {
            RepoStatus::Synced
        } else if str_eq(s, "skipped") {
            RepoStatus::Skipped
        } else if str_eq(s, "error") {
            RepoStatus::Error
        } else {
            RepoStatus::Unknown
        }
    }
}

/// Repository state record.
#[derive(Debug, Clone)]
pub struct RepoState {
    pub id: i64,
    pub full_name: String,
    pub local_path: Option<String>,
    pub current_branch: Option<String>,
    /// Unix seconds of the last successful or skipped sync.
    pub last_sync_at: Option<i64>,
    pub last_sync_status: RepoStatus,
    pub skip_reason: Option<String>,
    /// Unix seconds of the last upsert.
    pub updated_at: i64,
}

/// A sync event record.
#[derive(Debug, Clone)]
pub struct SyncEvent {
    pub id: i64,
    /// Unix seconds, assigned at write time.
    pub timestamp: i64,
    pub repo_full_name: Option<String>,
    pub event_type: EventType,
    pub severity: Severity,
    pub summary: String,
    pub details: Option<String>,
    pub acknowledged: bool,
}

/// Builder for creating new sync events.
#[derive(Debug)]
pub struct SyncEventBuilder {
    pub repo_full_name: Option<String>,
    pub event_type: EventType,
    pub summary: String,
    pub details: Option<String>,
}

impl SyncEventBuilder {
    pub fn new(event_type: EventType, summary: &str) -> (r: Self)
        ensures
            r.repo_full_name is None,
            r.event_type == event_type,
            r.summary@ == summary@,
            r.details is None,
    {
        Self {
            repo_full_name: None,
            event_type,
            summary: String::from_str(summary),
            details: None,
        }
    }

    pub fn repo(self, full_name: &str) -> (r: Self)
        ensures
            r.repo_full_name matches Some(n) && n@ == full_name@,
            r.event_type == self.event_type,
            r.summary == self.summary,
            r.details == self.details,
    {
        Self { repo_full_name: Some(String::from_str(full_name)), ..self }
    }

    pub fn details(self, details: &str) -> (r: Self)
        ensures
            r.details matches Some(d) && d@ == details@,
            r.event_type == self.event_type,
            r.summary == self.summary,
            r.repo_full_name == self.repo_full_name,
    {
        Self { details: Some(String::from_str(details)), ..self }
    }
}

/// State database: repository records, most recently updated first,
/// and the append-only event log in write order.
pub struct StateDb {
    repos: Vec<RepoState>,
    events: Vec<SyncEvent>,
    next_repo_id: i64,
    next_event_id: i64,
}

impl StateDb {
    /// The event log, in write order (oldest first).
    pub closed spec fn events(self) -> Seq<SyncEvent> {
        self.events@
    }

    /// The repository records, most recently updated first.
    pub closed spec fn repos_seq(self) -> Seq<RepoState> {
        self.repos@
    }

    /// Well-formedness: timestamps are monotone, identifiers are
    /// positive, repository names are unique and the records are
    /// ordered by update time, newest first.
    pub closed spec fn wf(self) -> bool {
        &&& self.next_event_id >= 1
        &&& self.next_repo_id >= 1
        &&& forall|i: int, j: int|
            0 <= i < j < self.events@.len() ==> self.events@[i].timestamp
                <= self.events@[j].timestamp
        &&& forall|i: int| 0 <= i < self.events@.len() ==> (#[trigger] self.events@[i]).id >= 1
        &&& forall|i: int, j: int|
            0 <= i < j < self.repos@.len() ==> self.repos@[i].updated_at
                >= self.repos@[j].updated_at
        &&& forall|i: int, j: int|
            0 <= i < j < self.repos@.len() ==> self.repos@[i].full_name@
                != self.repos@[j].full_name@
        &&& forall|i: int| 0 <= i < self.repos@.len() ==> (#[trigger] self.repos@[i]).id >= 1
    }

    /// All repository records, most recently updated first.
    pub fn all_repos(&self) -> (r: Vec<&RepoState>)
        ensures
            r@.map_values(|x: &RepoState| *x) == self.repos_seq(),
    {
        let n = self.repos.len();
        let mut out: Vec<&RepoState> = Vec::new();
        let mut i: usize = 0;
        while i < n
            invariant
                i <= n,
                n == self.repos@.len(),
                out@.map_values(|x: &RepoState| *x) == self.repos@.take(i as int),
            decreases n - i,
        {
            out.push(&self.repos[i]);
            proof {
                assert(self.repos@.take(i + 1) =~= self.repos@.take(i as int).push(
                    self.repos@[i as int],
                ));
                assert(out@.map_values(|x: &RepoState| *x) =~= self.repos@.take(i + 1));
            }
            i += 1;
        }
        proof {
            assert(self.repos@.take(n as int) =~= self.repos@);
        }
        out
    }

    /// How many repository records the store holds.
    pub fn repo_count(&self) -> (r: usize)
        ensures
            r == self.repos_seq().len(),
    {
        self.repos.len()
    }

    /// How many events the store holds.
    pub fn event_count(&self) -> (r: usize)
        ensures
            r == self.events().len(),
    {
        self.events.len()
    }

    /// Opens a fresh, empty store.
    pub fn open_in_memory() -> (db: Self)
        ensures
            db.wf(),
            db.events().len() == 0,
            db.repos_seq().len() == 0,
    {
        Self { repos: Vec::new(), events: Vec::new(), next_repo_id: 1, next_event_id: 1 }
    }

    /// Record a new sync event.  The event is appended with a fresh
    /// positive identifier, the severity derived from its type, a
    /// write-time timestamp no earlier than any recorded before it,
    /// and starts unacknowledged.
    pub fn record_event(&mut self, builder: SyncEventBuilder) -> (id: i64)
        requires
            old(self).wf(),
        ensures
            final(self).wf(),
            final(self).repos_seq() == old(self).repos_seq(),
            final(self).events().len() == old(self).events().len() + 1,
            final(self).events().drop_last() == old(self).events(),
            ({
                let ev = final(self).events().last();
                &&& ev.id == id
                &&& id >= 1
                &&& ev.event_type == builder.event_type
                &&& ev.severity == builder.event_type.spec_severity()
                &&& ev.summary == builder.summary
                &&& ev.details == builder.details
                &&& ev.repo_full_name == builder.repo_full_name
                &&& ev.acknowledged == false
                &&& old(self).events().len() > 0 ==> ev.timestamp >= old(
                    self,
                ).events().last().timestamp
            }),
    {
        let now0 = now_unix();
        let n = self.events.len();
        let now = if n > 0 {
            let last_ts = self.events[n - 1].timestamp;
            if last_ts > now0 {
                last_ts
            } else {
                now0
            }
        } else {
            now0
        };
        let id = self.next_event_id;
        if self.next_event_id < i64::MAX {
            self.next_event_id = self.next_event_id + 1;
        }
        let severity = builder.event_type.severity();
        let ev = SyncEvent {
            id,
            timestamp: now,
            repo_full_name: builder.repo_full_name,
            event_type: builder.event_type,
            severity,
            summary: builder.summary,
            details: builder.details,
            acknowledged: false,
        };
        self.events.push(ev);
        proof {
            assert(final(self).events().drop_last() =~= old(self).events());
        }
        id
    }

    /// Re-inserts one persisted event, oldest first: the fields are
    /// kept as stored, except that the identifier is forced positive
    /// and the timestamp is never allowed to step backwards.
    pub fn restore_event(
        &mut self,
        id: i64,
        timestamp: i64,
        repo_full_name: Option<&str>,
        event_type: EventType,
        severity: Severity,
        summary: &str,
        details: Option<&str>,
        acknowledged: bool,
    )
        requires
            old(self).wf(),
        ensures
            final(self).wf(),
            final(self).repos_seq() == old(self).repos_seq(),
            final(self).events().len() == old(self).events().len() + 1,
            final(self).events().drop_last() == old(self).events(),
            ({
                let ev = final(self).events().last();
                &&& ev.id >= 1
                &&& ev.event_type == event_type
                &&& ev.severity == severity
                &&& ev.summary@ == summary@
                &&& ev.acknowledged == acknowledged
                &&& match (ev.repo_full_name, repo_full_name) {
                    (Some(a), Some(b)) => a@ == b@,
                    (None, None) => true,
                    _ => false,
                }
                &&& match (ev.details, details) {
                    (Some(a), Some(b)) => a@ == b@,
                    (None, None) => true,
                    _ => false,
                }
            }),
    {
        let n = self.events.len();
        let ts = if n > 0 {
            let last_ts = self.events[n - 1].timestamp;
            if timestamp < last_ts {
                last_ts
            } else {
                timestamp
            }
        } else {
            timestamp
        };
        let ev_id = if id >= 1 {
            id
        } else {
            1
        };
        if self.next_event_id <= ev_id && ev_id < i64::MAX {
            self.next_event_id = ev_id + 1;
        }
        let ev = SyncEvent {
            id: ev_id,
            timestamp: ts,
            repo_full_name: match repo_full_name {
                Some(s) => Some(String::from_str(s)),
                None => None,
            },
            event_type,
            severity,
            summary: String::from_str(summary),
            details: match details {
                Some(s) => Some(String::from_str(s)),
                None => None,
            },
            acknowledged,
        };
        self.events.push(ev);
        proof {
            assert(final(self).events().drop_last() =~= old(self).events());
        }
    }

    /// Re-inserts one persisted repository record at the back, most
    /// recently updated first: a name already present is left alone,
    /// and the update time is never allowed to exceed the one before
    /// it.
    pub fn restore_repo(
        &mut self,
        full_name: &str,
        local_path: Option<&str>,
        current_branch: Option<&str>,
        last_sync_at: Option<i64>,
        status: RepoStatus,
        skip_reason: Option<&str>,
        updated_at: i64,
    )
        requires
            old(self).wf(),
        ensures
            final(self).wf(),
            final(self).events() == old(self).events(),
            spec_find_repo(old(self).repos_seq(), full_name@) is Some ==> final(self).repos_seq()
                == old(self).repos_seq(),
            spec_find_repo(old(self).repos_seq(), full_name@) is None ==> {
                &&& final(self).repos_seq().len() == old(self).repos_seq().len() + 1
                &&& final(self).repos_seq().drop_last() == old(self).repos_seq()
                &&& ({
                    let rec = final(self).repos_seq().last();
                    &&& rec.full_name@ == full_name@
                    &&& rec.last_sync_status == status
                    &&& rec.last_sync_at == last_sync_at
                    &&& match (rec.local_path, local_path) {
                        (Some(a), Some(b)) => a@ == b@,
                        (None, None) => true,
                        _ => false,
                    }
                    &&& match (rec.current_branch, current_branch) {
                        (Some(a), Some(b)) => a@ == b@,
                        (None, None) => true,
                        _ => false,
                    }
                    &&& match (rec.skip_reason, skip_reason) {
                        (Some(a), Some(b)) => a@ == b@,
                        (None, None) => true,
                        _ => false,
                    }
                })
            },
    {
        let n = self.repos.len();
        let idx = self.find_index(full_name);
        if idx < n {
            proof {
                lemma_find_at(self.repos@, full_name@, idx as int);
            }
            return ;
        }
        proof {
            lemma_find_none(self.repos@, full_name@);
        }
        let ts = if n > 0 {
            let prev = self.repos[n - 1].updated_at;
            if updated_at > prev {
                prev
            } else {
                updated_at
            }
        } else {
            updated_at
        };
        let id = self.next_repo_id;
        if self.next_repo_id < i64::MAX {
            self.next_repo_id = self.next_repo_id + 1;
        }
        let rec = RepoState {
            id,
            full_name: String::from_str(full_name),
            local_path: match local_path {
                Some(s) => Some(String::from_str(s)),
                None => None,
            },
            current_branch: match current_branch {
                Some(s) => Some(String::from_str(s)),
                None => None,
            },
            last_sync_at,
            last_sync_status: status,
            skip_reason: match skip_reason {
                Some(s) => Some(String::from_str(s)),
                None => None,
            },
            updated_at: ts,
        };
        self.repos.push(rec);
        proof {
            assert(final(self).repos_seq().drop_last() =~= old(self).repos_seq());
        }
    }

    /// The repository record with the given name, if one exists.
    pub fn get_repo(&self, full_name: &str) -> (r: Option<&RepoState>)
        requires
            self.wf(),
        ensures
            match r {
                Some(rec) => exists|i: int|
                    0 <= i < self.repos_seq().len() && *rec == self.repos_seq()[i]
                        && rec.full_name@ == full_name@,
                None => forall|i: int|
                    0 <= i < self.repos_seq().len() ==> (#[trigger] self.repos_seq()[i]).full_name@
                        != full_name@,
            },
    {
        let n = self.repos.len();
        let mut i: usize = 0;
        while i < n
            invariant
                i <= n,
                n == self.repos@.len(),
                forall|j: int|
                    0 <= j < i ==> (#[trigger] self.repos@[j]).full_name@ != full_name@,
            decreases n - i,
        {
            if str_eq(self.repos[i].full_name.as_str(), full_name) {
                return Some(&self.repos[i]);
            }
            i += 1;
        }
        None
    }
}

/// Whether an event passes the acknowledgement and type filters.
pub open spec fn ev_matches(e: SyncEvent, ack: Option<bool>, et: Option<EventType>) -> bool {
    &&& match ack {
        Some(a) => e.acknowledged == a,
        None => true,
    }
    &&& match et {
        Some(t) => e.event_type == t,
        None => true,
    }
}

/// Whether an event belongs to the named repository.
pub open spec fn ev_for_repo(e: SyncEvent, name: Seq<char>) -> bool {
    match e.repo_full_name {
        Some(n) => n@ == name,
        None => false,
    }
}

/// Whether a record's name differs from `name`.
pub open spec fn name_differs(r: RepoState, name: Seq<char>) -> bool {
    r.full_name@ != name
}

/// Whether a record is in one of the issue statuses.
pub open spec fn repo_has_issue(r: RepoState) -> bool {
    r.last_sync_status == RepoStatus::Skipped || r.last_sync_status == RepoStatus::Error
}

/// An event survives `cleanup` when it is unacknowledged or recent
/// enough.
pub open spec fn keep_after_cleanup(e: SyncEvent, cutoff: i64) -> bool {
    !e.acknowledged || e.timestamp >= cutoff
}

/// The event log as cleanup at the given cutoff leaves it.
pub open spec fn cleaned(events: Seq<SyncEvent>, cutoff: i64) -> Seq<SyncEvent> {
    events.filter(|e: SyncEvent| keep_after_cleanup(e, cutoff))
}

/// The event with its acknowledged flag set.
pub open spec fn ack_ev(e: SyncEvent) -> SyncEvent {
    SyncEvent { acknowledged: true, ..e }
}

/// The number of unacknowledged events of the given severity.
pub open spec fn count_unacked(events: Seq<SyncEvent>, sev: Severity) -> nat {
    events.filter(|e: SyncEvent| !e.acknowledged && e.severity == sev).len()
}

/// The first record with the given name, scanning from the front.
pub open spec fn spec_find_repo(s: Seq<RepoState>, name: Seq<char>) -> Option<RepoState>
    decreases s.len(),
{
    if s.len() == 0 {
        None
    } else if s[0].full_name@ == name {
        Some(s[0])
    } else {
        spec_find_repo(s.drop_first(), name)
    }
}

proof fn lemma_find_at(s: Seq<RepoState>, name: Seq<char>, i: int)
    requires
        0 <= i < s.len(),
        s[i].full_name@ == name,
        forall|j: int| 0 <= j < i ==> (#[trigger] s[j]).full_name@ != name,
    ensures
        spec_find_repo(s, name) == Some(s[i]),
    decreases i,
{
    if i > 0 {
        lemma_find_at(s.drop_first(), name, i - 1);
    }
}

proof fn lemma_find_none(s: Seq<RepoState>, name: Seq<char>)
    requires
        forall|j: int| 0 <= j < s.len() ==> (#[trigger] s[j]).full_name@ != name,
    ensures
        spec_find_repo(s, name) is None,
    decreases s.len(),
{
    if s.len() > 0 {
        lemma_find_none(s.drop_first(), name);
    }
}

proof fn lemma_filter_id_no_match(s: Seq<RepoState>, name: Seq<char>)
    requires
        forall|j: int| 0 <= j < s.len() ==> (#[trigger] s[j]).full_name@ != name,
    ensures
        s.filter(|r: RepoState| name_differs(r, name)) == s,
    decreases s.len(),
{
    reveal(Seq::filter);
    if s.len() > 0 {
        lemma_filter_id_no_match(s.drop_last(), name);
        assert(s.filter(|r: RepoState| name_differs(r, name)) =~= s);
    }
}

proof fn lemma_filter_remove_at(s: Seq<RepoState>, name: Seq<char>, i: int)
    requires
        0 <= i < s.len(),
        s[i].full_name@ == name,
        forall|j: int| 0 <= j < s.len() && j != i ==> (#[trigger] s[j]).full_name@ != name,
    ensures
        s.filter(|r: RepoState| name_differs(r, name)) == s.take(i) + s.skip(i + 1),
    decreases s.len(),
{
    reveal(Seq::filter);
    if i == s.len() - 1 {
        lemma_filter_id_no_match(s.drop_last(), name);
        assert(s.filter(|r: RepoState| name_differs(r, name)) =~= s.take(i) + s.skip(i + 1));
    } else {
        lemma_filter_remove_at(s.drop_last(), name, i);
        assert(s.drop_last().take(i) =~= s.take(i));
        assert(s.drop_last().skip(i + 1).push(s.last()) =~= s.skip(i + 1));
        assert(s.filter(|r: RepoState| name_differs(r, name)) =~= s.take(i) + s.skip(i + 1));
    }
}

impl StateDb {
    fn find_index(&self, full_name: &str) -> (r: usize)
        ensures
            r <= self.repos_seq().len(),
            r < self.repos_seq().len() ==> self.repos_seq()[r as int].full_name@ == full_name@,
            forall|j: int|
                0 <= j < r ==> (#[trigger] self.repos_seq()[j]).full_name@ != full_name@,
            r == self.repos_seq().len() ==> forall|j: int|
                0 <= j < r ==> (#[trigger] self.repos_seq()[j]).full_name@ != full_name@,
    {
        let n = self.repos.len();
        let mut i: usize = 0;
        while i < n
            invariant
                i <= n,
                n == self.repos@.len(),
                forall|j: int|
                    0 <= j < i ==> (#[trigger] self.repos@[j]).full_name@ != full_name@,
            decreases n - i,
        {
            if str_eq(self.repos[i].full_name.as_str(), full_name) {
                return i;
            }
            i += 1;
        }
        n
    }

    /// Update or insert a repository's state.  The affected record
    /// moves to the front; `status` and `skip_reason` always
    /// overwrite, while an absent `local_path` or `current_branch`
    /// preserves the previous value.  The last-sync time is refreshed
    /// exactly for the ok and skipped statuses.
    #[verifier::rlimit(100)]
    #[verifier::spinoff_prover]
    pub fn upsert_repo(
        &mut self,
        full_name: &str,
        local_path: Option<&str>,
        current_branch: Option<&str>,
        status: RepoStatus,
        skip_reason: Option<&str>,
    )
        requires
            old(self).wf(),
        ensures
            final(self).wf(),
            final(self).events() == old(self).events(),
            final(self).repos_seq().len() >= 1,
            final(self).repos_seq().drop_first() == old(self).repos_seq().filter(
                |r: RepoState| name_differs(r, full_name@),
            ),
            ({
                let prev = spec_find_repo(old(self).repos_seq(), full_name@);
                let rec = final(self).repos_seq()[0];
                &&& rec.full_name@ == full_name@
                &&& rec.last_sync_status == status
                &&& match skip_reason {
                    Some(s) => rec.skip_reason matches Some(rs) && rs@ == s@,
                    None => rec.skip_reason is None,
                }
                &&& match local_path {
                    Some(p) => rec.local_path matches Some(rp) && rp@ == p@,
                    None => rec.local_path == match prev {
                        Some(pr) => pr.local_path,
                        None => None::<String>,
                    },
                }
                &&& match current_branch {
                    Some(b) => rec.current_branch matches Some(rb) && rb@ == b@,
                    None => rec.current_branch == match prev {
                        Some(pr) => pr.current_branch,
                        None => None::<String>,
                    },
                }
                &&& (status == RepoStatus::Synced || status == RepoStatus::Skipped)
                    ==> rec.last_sync_at is Some
                &&& !(status == RepoStatus::Synced || status == RepoStatus::Skipped)
                    ==> rec.last_sync_at == match prev {
                    Some(pr) => pr.last_sync_at,
                    None => None::<i64>,
                }
                &&& rec.id >= 1
                &&& match prev {
                    Some(pr) => rec.id == pr.id,
                    None => true,
                }
            }),
    {
        let now0 = now_unix();
        let now = if self.repos.len() > 0 && self.repos[0].updated_at > now0 {
            self.repos[0].updated_at
        } else {
            now0
        };
        let n = self.repos.len();
        let idx = self.find_index(full_name);
        let refresh_sync_time = status == RepoStatus::Synced || status == RepoStatus::Skipped;
        if idx < n {
            proof {
                lemma_find_at(self.repos@, full_name@, idx as int);
                lemma_filter_remove_at(self.repos@, full_name@, idx as int);
            }
            let prev = self.repos.remove(idx);
            let rec = RepoState {
                id: prev.id,
                full_name: prev.full_name,
                local_path: match local_path {
                    Some(p) => Some(String::from_str(p)),
                    None => prev.local_path,
                },
                current_branch: match current_branch {
                    Some(b) => Some(String::from_str(b)),
                    None => prev.current_branch,
                },
                last_sync_at: if refresh_sync_time {
                    Some(now)
                } else {
                    prev.last_sync_at
                },
                last_sync_status: status,
                skip_reason: match skip_reason {
                    Some(s) => Some(String::from_str(s)),
                    None => None,
                },
                updated_at: now,
            };
            self.repos.insert(0, rec);
            proof {
                let olds = old(self).repos_seq();
                let rem = olds.take(idx as int) + olds.skip(idx as int + 1);
                assert(final(self).repos_seq().drop_first() =~= rem);
                assert forall|a: int, b: int|
                    0 <= a < b < rem.len() implies rem[a].updated_at >= rem[b].updated_at by {
                    if b < idx {
                    } else if a < idx {
                        assert(rem[b] == olds[b + 1]);
                    } else {
                        assert(rem[a] == olds[a + 1]);
                        assert(rem[b] == olds[b + 1]);
                    }
                }
                assert forall|a: int, b: int|
                    0 <= a < b < rem.len() implies rem[a].full_name@ != rem[b].full_name@ by {
                    if b < idx {
                    } else if a < idx {
                        assert(rem[b] == olds[b + 1]);
                    } else {
                        assert(rem[a] == olds[a + 1]);
                        assert(rem[b] == olds[b + 1]);
                    }
                }
                assert forall|k: int| 0 <= k < rem.len() implies (#[trigger] rem[k]).updated_at
                    <= now by {
                    if k < idx {
                        if k > 0 {
                            assert(olds[0].updated_at >= olds[k].updated_at);
                        }
                    } else {
                        assert(rem[k] == olds[k + 1]);
                        if k + 1 > 0 {
                            assert(olds[0].updated_at >= olds[k + 1].updated_at);
                        }
                    }
                }
                assert(final(self).wf());
            }
        } else {
            proof {
                lemma_find_none(self.repos@, full_name@);
                lemma_filter_id_no_match(self.repos@, full_name@);
            }
            let id = self.next_repo_id;
            if self.next_repo_id < i64::MAX {
                self.next_repo_id = self.next_repo_id + 1;
            }
            let rec = RepoState {
                id,
                full_name: String::from_str(full_name),
                local_path: match local_path {
                    Some(p) => Some(String::from_str(p)),
                    None => None,
                },
                current_branch: match current_branch {
                    Some(b) => Some(String::from_str(b)),
                    None => None,
                },
                last_sync_at: if refresh_sync_time {
                    Some(now)
                } else {
                    None
                },
                last_sync_status: status,
                skip_reason: match skip_reason {
                    Some(s) => Some(String::from_str(s)),
                    None => None,
                },
                updated_at: now,
            };
            self.repos.insert(0, rec);
            proof {
                let olds = old(self).repos_seq();
                assert(final(self).repos_seq().drop_first() =~= olds);
                assert forall|k: int| 0 <= k < olds.len() implies (#[trigger] olds[k]).updated_at
                    <= now by {
                    if k > 0 {
                        assert(olds[0].updated_at >= olds[k].updated_at);
                    }
                }
                assert(final(self).wf());
            }
        }
    }

    /// All repositories whose last sync had the given status, most
    /// recently updated first.
    pub fn get_repos_by_status(&self, status: RepoStatus) -> (r: Vec<&RepoState>)
        requires
            self.wf(),
        ensures
            r@.map_values(|x: &RepoState| *x) == self.repos_seq().filter(
                |x: RepoState| x.last_sync_status == status,
            ),
            ({
                let outs = r@.map_values(|x: &RepoState| *x);
                forall|a: int, b: int|
                    #![trigger outs[a], outs[b]]
                    0 <= a < b < outs.len() ==> outs[a].updated_at >= outs[b].updated_at
            }),
    {
        let n = self.repos.len();
        let mut out: Vec<&RepoState> = Vec::new();
        let mut i: usize = 0;
        proof {
            assert(self.repos@.take(0).filter(|x: RepoState| x.last_sync_status == status)
                =~= Seq::<RepoState>::empty());
            assert(out@.map_values(|x: &RepoState| *x) =~= Seq::<RepoState>::empty());
        }
        while i < n
            invariant
                i <= n,
                n == self.repos@.len(),
                out@.map_values(|x: &RepoState| *x) == self.repos@.take(i as int).filter(
                    |x: RepoState| x.last_sync_status == status,
                ),
            decreases n - i,
        {
            proof {
                assert(self.repos@.take(i + 1) =~= self.repos@.take(i as int).push(
                    self.repos@[i as int],
                ));
                lemma_filter_push(
                    self.repos@.take(i as int),
                    self.repos@[i as int],
                    |x: RepoState| x.last_sync_status == status,
                );
            }
            if self.repos[i].last_sync_status == status {
                out.push(&self.repos[i]);
                proof {
                    assert(out@.map_values(|x: &RepoState| *x) =~= self.repos@.take(i + 1).filter(
                        |x: RepoState| x.last_sync_status == status,
                    ));
                }
            }
            i += 1;
        }
        proof {
            assert(self.repos@.take(n as int) =~= self.repos@);
            let outs = out@.map_values(|x: &RepoState| *x);
            assert forall|a: int, b: int|
                #![trigger outs[a], outs[b]]
                0 <= a < b < outs.len() implies outs[a].updated_at >= outs[b].updated_at by {
                lemma_filter_keeps_order(
                    self.repos@,
                    |x: RepoState| x.last_sync_status == status,
                    |x: RepoState| -(x.updated_at as int),
                    a,
                    b,
                );
            }
        }
        out
    }

    /// All repositories in the skipped or error status, most recently
    /// updated first.
    pub fn get_repos_with_issues(&self) -> (r: Vec<&RepoState>)
        requires
            self.wf(),
        ensures
            r@.map_values(|x: &RepoState| *x) == self.repos_seq().filter(
                |x: RepoState| repo_has_issue(x),
            ),
            ({
                let outs = r@.map_values(|x: &RepoState| *x);
                forall|a: int, b: int|
                    #![trigger outs[a], outs[b]]
                    0 <= a < b < outs.len() ==> outs[a].updated_at >= outs[b].updated_at
            }),
    {
        let n = self.repos.len();
        let mut out: Vec<&RepoState> = Vec::new();
        let mut i: usize = 0;
        proof {
            assert(self.repos@.take(0).filter(|x: RepoState| repo_has_issue(x))
                =~= Seq::<RepoState>::empty());
            assert(out@.map_values(|x: &RepoState| *x) =~= Seq::<RepoState>::empty());
        }
        while i < n
            invariant
                i <= n,
                n == self.repos@.len(),
                out@.map_values(|x: &RepoState| *x) == self.repos@.take(i as int).filter(
                    |x: RepoState| repo_has_issue(x),
                ),
            decreases n - i,
        {
            proof {
                assert(self.repos@.take(i + 1) =~= self.repos@.take(i as int).push(
                    self.repos@[i as int],
                ));
                lemma_filter_push(
                    self.repos@.take(i as int),
                    self.repos@[i as int],
                    |x: RepoState| repo_has_issue(x),
                );
            }
            let has_issue = self.repos[i].last_sync_status == RepoStatus::Skipped
                || self.repos[i].last_sync_status == RepoStatus::Error;
            if has_issue {
                out.push(&self.repos[i]);
                proof {
                    assert(out@.map_values(|x: &RepoState| *x) =~= self.repos@.take(i + 1).filter(
                        |x: RepoState| repo_has_issue(x),
                    ));
                }
            }
            i += 1;
        }
        proof {
            assert(self.repos@.take(n as int) =~= self.repos@);
            let outs = out@.map_values(|x: &RepoState| *x);
            assert forall|a: int, b: int|
                #![trigger outs[a], outs[b]]
                0 <= a < b < outs.len() implies outs[a].updated_at >= outs[b].updated_at by {
                lemma_filter_keeps_order(
                    self.repos@,
                    |x: RepoState| repo_has_issue(x),
                    |x: RepoState| -(x.updated_at as int),
                    a,
                    b,
                );
            }
        }
        out
    }
}

impl StateDb {
    /// Recent events, newest first, under optional acknowledgement
    /// and type filters and an optional limit.
    pub fn get_events_with_filter(
        &self,
        acknowledged: Option<bool>,
        event_type: Option<EventType>,
        limit: Option<u32>,
    ) -> (r: Vec<&SyncEvent>)
        requires
            self.wf(),
        ensures
            ({
                let filtered = self.events().filter(
                    |e: SyncEvent| ev_matches(e, acknowledged, event_type),
                ).reverse();
                r@.map_values(|e: &SyncEvent| *e) == match limit {
                    Some(l) => filtered.take(if l as int <= filtered.len() as int {
                        l as int
                    } else {
                        filtered.len() as int
                    }),
                    None => filtered,
                }
            }),
            ({
                let outs = r@.map_values(|e: &SyncEvent| *e);
                forall|a: int, b: int|
                    #![trigger outs[a], outs[b]]
                    0 <= a < b < outs.len() ==> outs[a].timestamp >= outs[b].timestamp
            }),
    {
        let n = self.events.len();
        let mut fw: Vec<&SyncEvent> = Vec::new();
        let mut i: usize = 0;
        proof {
            assert(self.events@.take(0).filter(
                |e: SyncEvent| ev_matches(e, acknowledged, event_type),
            ) =~= Seq::<SyncEvent>::empty());
            assert(fw@.map_values(|e: &SyncEvent| *e) =~= Seq::<SyncEvent>::empty());
        }
        while i < n
            invariant
                i <= n,
                n == self.events@.len(),
                fw@.map_values(|e: &SyncEvent| *e) == self.events@.take(i as int).filter(
                    |e: SyncEvent| ev_matches(e, acknowledged, event_type),
                ),
            decreases n - i,
        {
            proof {
                assert(self.events@.take(i + 1) =~= self.events@.take(i as int).push(
                    self.events@[i as int],
                ));
                lemma_filter_push(
                    self.events@.take(i as int),
                    self.events@[i as int],
                    |e: SyncEvent| ev_matches(e, acknowledged, event_type),
                );
            }
            let e = &self.events[i];
            let ack_hit = match acknowledged {
                Some(a) => e.acknowledged == a,
                None => true,
            };
            let type_hit = match event_type {
                Some(t) => e.event_type == t,
                None => true,
            };
            if ack_hit && type_hit {
                fw.push(e);
                proof {
                    assert(fw@.map_values(|e: &SyncEvent| *e) =~= self.events@.take(i + 1).filter(
                        |e: SyncEvent| ev_matches(e, acknowledged, event_type),
                    ));
                }
            }
            i += 1;
        }
        proof {
            assert(self.events@.take(n as int) =~= self.events@);
        }
        let out = reverse_with_limit(fw, limit);
        proof {
            let p = |e: SyncEvent| ev_matches(e, acknowledged, event_type);
            let filtered = self.events().filter(p);
            let outs = out@.map_values(|e: &SyncEvent| *e);
            assert forall|a: int, b: int|
                #![trigger outs[a], outs[b]]
                0 <= a < b < outs.len() implies outs[a].timestamp >= outs[b].timestamp by {
                assert(outs[a] == filtered[filtered.len() - 1 - a]);
                assert(outs[b] == filtered[filtered.len() - 1 - b]);
                lemma_filter_keeps_order(
                    self.events(),
                    p,
                    |e: SyncEvent| e.timestamp as int,
                    filtered.len() - 1 - b,
                    filtered.len() - 1 - a,
                );
            }
        }
        out
    }

    /// All unacknowledged events, newest first.
    pub fn get_unacknowledged_events(&self) -> (r: Vec<&SyncEvent>)
        requires
            self.wf(),
        ensures
            r@.map_values(|e: &SyncEvent| *e) == self.events().filter(
                |e: SyncEvent| ev_matches(e, Some(false), None),
            ).reverse(),
            ({
                let outs = r@.map_values(|e: &SyncEvent| *e);
                forall|a: int, b: int|
                    #![trigger outs[a], outs[b]]
                    0 <= a < b < outs.len() ==> outs[a].timestamp >= outs[b].timestamp
            }),
    {
        self.get_events_with_filter(Some(false), None, None)
    }

    /// Events for one repository, newest first, under an optional
    /// limit.
    pub fn get_events_for_repo(&self, repo_full_name: &str, limit: Option<u32>) -> (r: Vec<
        &SyncEvent,
    >)
        requires
            self.wf(),
        ensures
            ({
                let filtered = self.events().filter(
                    |e: SyncEvent| ev_for_repo(e, repo_full_name@),
                ).reverse();
                r@.map_values(|e: &SyncEvent| *e) == match limit {
                    Some(l) => filtered.take(if l as int <= filtered.len() as int {
                        l as int
                    } else {
                        filtered.len() as int
                    }),
                    None => filtered,
                }
            }),
            ({
                let outs = r@.map_values(|e: &SyncEvent| *e);
                forall|a: int, b: int|
                    #![trigger outs[a], outs[b]]
                    0 <= a < b < outs.len() ==> outs[a].timestamp >= outs[b].timestamp
            }),
    {
        let n = self.events.len();
        let mut fw: Vec<&SyncEvent> = Vec::new();
        let mut i: usize = 0;
        proof {
            assert(self.events@.take(0).filter(|e: SyncEvent| ev_for_repo(e, repo_full_name@))
                =~= Seq::<SyncEvent>::empty());
            assert(fw@.map_values(|e: &SyncEvent| *e) =~= Seq::<SyncEvent>::empty());
        }
        while i < n
            invariant
                i <= n,
                n == self.events@.len(),
                fw@.map_values(|e: &SyncEvent| *e) == self.events@.take(i as int).filter(
                    |e: SyncEvent| ev_for_repo(e, repo_full_name@),
                ),
            decreases n - i,
        {
            proof {
                assert(self.events@.take(i + 1) =~= self.events@.take(i as int).push(
                    self.events@[i as int],
                ));
                lemma_filter_push(
                    self.events@.take(i as int),
                    self.events@[i as int],
                    |e: SyncEvent| ev_for_repo(e, repo_full_name@),
                );
            }
            let e = &self.events[i];
            let hit = match &e.repo_full_name {
                Some(name) => str_eq(name.as_str(), repo_full_name),
                None => false,
            };
            if hit {
                fw.push(e);
                proof {
                    assert(fw@.map_values(|e: &SyncEvent| *e) =~= self.events@.take(i + 1).filter(
                        |e: SyncEvent| ev_for_repo(e, repo_full_name@),
                    ));
                }
            }
            i += 1;
        }
        proof {
            assert(self.events@.take(n as int) =~= self.events@);
        }
        let out = reverse_with_limit(fw, limit);
        proof {
            let p = |e: SyncEvent| ev_for_repo(e, repo_full_name@);
            let filtered = self.events().filter(p);
            let outs = out@.map_values(|e: &SyncEvent| *e);
            assert forall|a: int, b: int|
                #![trigger outs[a], outs[b]]
                0 <= a < b < outs.len() implies outs[a].timestamp >= outs[b].timestamp by {
                assert(outs[a] == filtered[filtered.len() - 1 - a]);
                assert(outs[b] == filtered[filtered.len() - 1 - b]);
                lemma_filter_keeps_order(
                    self.events(),
                    p,
                    |e: SyncEvent| e.timestamp as int,
                    filtered.len() - 1 - b,
                    filtered.len() - 1 - a,
                );
            }
        }
        out
    }

    /// Acknowledge the event with the given identifier; every other
    /// event is untouched.
    pub fn acknowledge_event(&mut self, event_id: i64)
        requires
            old(self).wf(),
        ensures
            final(self).wf(),
            final(self).repos_seq() == old(self).repos_seq(),
            final(self).events().len() == old(self).events().len(),
            forall|i: int|
                0 <= i < old(self).events().len() ==> final(self).events()[i] == (
                if old(self).events()[i].id == event_id {
                    ack_ev(old(self).events()[i])
                } else {
                    old(self).events()[i]
                }),
    {
        let n = self.events.len();
        let mut i: usize = 0;
        while i < n
            invariant
                i <= n,
                n == old(self).events().len(),
                self.events@.len() == n,
                self.repos@ == old(self).repos@,
                self.next_event_id == old(self).next_event_id,
                self.next_repo_id == old(self).next_repo_id,
                old(self).wf(),
                forall|j: int|
                    0 <= j < i ==> self.events@[j] == (if old(self).events()[j].id == event_id {
                        ack_ev(old(self).events()[j])
                    } else {
                        old(self).events()[j]
                    }),
                forall|j: int| i <= j < n ==> self.events@[j] == old(self).events()[j],
            decreases n - i,
        {
            let ghost evs0 = self.events@;
            if self.events[i].id == event_id {
                let e = self.events.remove(i);
                let updated = SyncEvent { acknowledged: true, ..e };
                self.events.insert(i, updated);
                proof {
                    assert(self.events@ =~= evs0.update(i as int, updated));
                }
            }
            i += 1;
        }
        proof {
            assert(final(self).wf());
        }
    }

    /// Acknowledge every event.  Returns how many were
    /// unacknowledged before the call; afterwards every count of
    /// unacknowledged events is zero.
    pub fn acknowledge_all_events(&mut self) -> (count: u64)
        requires
            old(self).wf(),
        ensures
            final(self).wf(),
            final(self).repos_seq() == old(self).repos_seq(),
            final(self).events().len() == old(self).events().len(),
            forall|i: int|
                0 <= i < old(self).events().len() ==> final(self).events()[i] == ack_ev(
                    old(self).events()[i],
                ),
            count == old(self).events().filter(|e: SyncEvent| !e.acknowledged).len(),
            count_unacked(final(self).events(), Severity::Info) == 0,
            count_unacked(final(self).events(), Severity::Warning) == 0,
            count_unacked(final(self).events(), Severity::Error) == 0,
    {
        let n = self.events.len();
        let mut count: u64 = 0;
        let mut i: usize = 0;
        proof {
            assert(old(self).events().take(0).filter(|e: SyncEvent| !e.acknowledged)
                =~= Seq::<SyncEvent>::empty());
        }
        while i < n
            invariant
                i <= n,
                n == old(self).events().len(),
                self.events@.len() == n,
                self.repos@ == old(self).repos@,
                self.next_event_id == old(self).next_event_id,
                self.next_repo_id == old(self).next_repo_id,
                old(self).wf(),
                count == old(self).events().take(i as int).filter(
                    |e: SyncEvent| !e.acknowledged,
                ).len(),
                count <= i,
                forall|j: int| 0 <= j < i ==> self.events@[j] == ack_ev(old(self).events()[j]),
                forall|j: int| i <= j < n ==> self.events@[j] == old(self).events()[j],
            decreases n - i,
        {
            proof {
                assert(old(self).events().take(i + 1) =~= old(self).events().take(i as int).push(
                    old(self).events()[i as int],
                ));
                lemma_filter_push(
                    old(self).events().take(i as int),
                    old(self).events()[i as int],
                    |e: SyncEvent| !e.acknowledged,
                );
            }
            if !self.events[i].acknowledged {
                count = count + 1;
            }
            let ghost evs0 = self.events@;
            let e = self.events.remove(i);
            let updated = SyncEvent { acknowledged: true, ..e };
            self.events.insert(i, updated);
            proof {
                assert(self.events@ =~= evs0.update(i as int, updated));
            }
            i += 1;
        }
        proof {
            assert(old(self).events().take(n as int) =~= old(self).events());
            assert(final(self).wf());
            let evs = final(self).events();
            assert forall|k: int| 0 <= k < evs.len() implies !(!(#[trigger] evs[k]).acknowledged
                && evs[k].severity == Severity::Info) by {}
            evs.lemma_all_neg_filter_empty(
                |e: SyncEvent| !e.acknowledged && e.severity == Severity::Info,
            );
            evs.lemma_all_neg_filter_empty(
                |e: SyncEvent| !e.acknowledged && e.severity == Severity::Warning,
            );
            evs.lemma_all_neg_filter_empty(
                |e: SyncEvent| !e.acknowledged && e.severity == Severity::Error,
            );
        }
        count
    }

    /// The numbers of unacknowledged events at info, warning and
    /// error severity, in that order.
    pub fn get_unacknowledged_counts(&self) -> (r: (u64, u64, u64))
        requires
            self.wf(),
        ensures
            r.0 == count_unacked(self.events(), Severity::Info),
            r.1 == count_unacked(self.events(), Severity::Warning),
            r.2 == count_unacked(self.events(), Severity::Error),
    {
        let n = self.events.len();
        let mut info_count: u64 = 0;
        let mut warning_count: u64 = 0;
        let mut error_count: u64 = 0;
        let mut i: usize = 0;
        proof {
            assert(self.events@.take(0).filter(
                |e: SyncEvent| !e.acknowledged && e.severity == Severity::Info,
            ) =~= Seq::<SyncEvent>::empty());
            assert(self.events@.take(0).filter(
                |e: SyncEvent| !e.acknowledged && e.severity == Severity::Warning,
            ) =~= Seq::<SyncEvent>::empty());
            assert(self.events@.take(0).filter(
                |e: SyncEvent| !e.acknowledged && e.severity == Severity::Error,
            ) =~= Seq::<SyncEvent>::empty());
        }
        while i < n
            invariant
                i <= n,
                n == self.events@.len(),
                info_count <= i,
                warning_count <= i,
                error_count <= i,
                info_count == self.events@.take(i as int).filter(
                    |e: SyncEvent| !e.acknowledged && e.severity == Severity::Info,
                ).len(),
                warning_count == self.events@.take(i as int).filter(
                    |e: SyncEvent| !e.acknowledged && e.severity == Severity::Warning,
                ).len(),
                error_count == self.events@.take(i as int).filter(
                    |e: SyncEvent| !e.acknowledged && e.severity == Severity::Error,
                ).len(),
            decreases n - i,
        {
            proof {
                assert(self.events@.take(i + 1) =~= self.events@.take(i as int).push(
                    self.events@[i as int],
                ));
                lemma_filter_push(
                    self.events@.take(i as int),
                    self.events@[i as int],
                    |e: SyncEvent| !e.acknowledged && e.severity == Severity::Info,
                );
                lemma_filter_push(
                    self.events@.take(i as int),
                    self.events@[i as int],
                    |e: SyncEvent| !e.acknowledged && e.severity == Severity::Warning,
                );
                lemma_filter_push(
                    self.events@.take(i as int),
                    self.events@[i as int],
                    |e: SyncEvent| !e.acknowledged && e.severity == Severity::Error,
                );
            }
            if !self.events[i].acknowledged {
                match self.events[i].severity {
                    Severity::Info => {
                        info_count = info_count + 1;
                    },
                    Severity::Warning => {
                        warning_count = warning_count + 1;
                    },
                    Severity::Error => {
                        error_count = error_count + 1;
                    },
                }
            }
            i += 1;
        }
        proof {
            assert(self.events@.take(n as int) =~= self.events@);
        }
        (info_count, warning_count, error_count)
    }

    /// Removes the acknowledged events older than `cutoff`; an
    /// unacknowledged event is never removed, nor one at or after the
    /// cutoff.  Returns how many were removed.
    pub fn cleanup_events_before(&mut self, cutoff: i64) -> (removed: u64)
        requires
            old(self).wf(),
        ensures
            final(self).wf(),
            final(self).repos_seq() == old(self).repos_seq(),
            final(self).events() == old(self).events().filter(
                |e: SyncEvent| keep_after_cleanup(e, cutoff),
            ),
            removed == old(self).events().len() - final(self).events().len(),
            forall|i: int|
                0 <= i < old(self).events().len() && !(#[trigger] old(self).events()[i]).acknowledged
                    ==> final(self).events().contains(old(self).events()[i]),
            forall|i: int|
                0 <= i < old(self).events().len()
                    && (#[trigger] old(self).events()[i]).timestamp >= cutoff
                    ==> final(self).events().contains(old(self).events()[i]),
    {
        let n = self.events.len();
        let mut k: usize = 0;
        let mut i: usize = 0;
        proof {
            assert(old(self).events().take(0).filter(
                |e: SyncEvent| keep_after_cleanup(e, cutoff),
            ) =~= Seq::<SyncEvent>::empty());
            assert(self.events@ =~= old(self).events().take(0).filter(
                |e: SyncEvent| keep_after_cleanup(e, cutoff),
            ) + old(self).events().skip(0));
        }
        while k < n
            invariant
                k <= n,
                n == old(self).events().len(),
                self.repos@ == old(self).repos@,
                self.next_event_id == old(self).next_event_id,
                self.next_repo_id == old(self).next_repo_id,
                old(self).wf(),
                i == old(self).events().take(k as int).filter(
                    |e: SyncEvent| keep_after_cleanup(e, cutoff),
                ).len(),
                self.events@ == old(self).events().take(k as int).filter(
                    |e: SyncEvent| keep_after_cleanup(e, cutoff),
                ) + old(self).events().skip(k as int),
            decreases n - k,
        {
            proof {
                broadcast use vstd::seq_lib::group_filter_ensures;

                assert(old(self).events().take(k + 1) =~= old(self).events().take(k as int).push(
                    old(self).events()[k as int],
                ));
                lemma_filter_push(
                    old(self).events().take(k as int),
                    old(self).events()[k as int],
                    |e: SyncEvent| keep_after_cleanup(e, cutoff),
                );
                assert(self.events@[i as int] == old(self).events()[k as int]);
            }
            let keep = !self.events[i].acknowledged || self.events[i].timestamp >= cutoff;
            if keep {
                i += 1;
                proof {
                    assert(self.events@ =~= old(self).events().take(k + 1).filter(
                        |e: SyncEvent| keep_after_cleanup(e, cutoff),
                    ) + old(self).events().skip(k + 1));
                }
            } else {
                self.events.remove(i);
                proof {
                    assert(self.events@ =~= old(self).events().take(k + 1).filter(
                        |e: SyncEvent| keep_after_cleanup(e, cutoff),
                    ) + old(self).events().skip(k + 1));
                }
            }
            k += 1;
        }
        proof {
            assert(old(self).events().take(n as int) =~= old(self).events());
            assert(old(self).events().skip(n as int) =~= Seq::<SyncEvent>::empty());
            broadcast use vstd::seq_lib::group_filter_ensures;

            assert(self.events@ =~= old(self).events().filter(
                |e: SyncEvent| keep_after_cleanup(e, cutoff),
            ));
        }
        let removed_count = n - self.events.len();
        proof {
            broadcast use vstd::seq_lib::group_filter_ensures;

            let p = |e: SyncEvent| keep_after_cleanup(e, cutoff);
            let olds = old(self).events();
            assert(final(self).events() == olds.filter(p));
            assert forall|a: int, b: int|
                0 <= a < b < final(self).events().len() implies final(self).events()[a].timestamp <= final(self).events()[b].timestamp by {
                lemma_filter_keeps_order(olds, p, |e: SyncEvent| e.timestamp as int, a, b);
            }
            assert forall|a: int|
                0 <= a < final(self).events().len()
                implies (#[trigger] final(self).events()[a]).id >= 1 by {
                lemma_filter_elem_from(olds, p, a);
            }
            assert forall|i2: int|
                0 <= i2 < olds.len() && !(#[trigger] olds[i2]).acknowledged implies final(self).events().contains(olds[i2]) by {
                olds.lemma_filter_contains(p, i2);
            }
            assert forall|i2: int|
                0 <= i2 < olds.len() && (#[trigger] olds[i2]).timestamp >= cutoff
                implies final(self).events().contains(olds[i2]) by {
                olds.lemma_filter_contains(p, i2);
            }
        }
        removed_count as u64
    }

    /// Clean up old events: deletes the acknowledged events whose
    /// write time lies more than `days` days before now.  An
    /// unacknowledged event is never deleted.  Returns how many were
    /// deleted.
    ///
    /// The cutoff here is read off the wall clock, which no contract
    /// can name, so this contract leaves it existential; the exact
    /// deletion contract — kept if and only if unacknowledged or at
    /// or after the cutoff — stands on `cleanup_events_before`, which
    /// this calls with `now - days` in seconds.
    pub fn cleanup_old_events(&mut self, days: u32) -> (removed: u64)
        requires
            old(self).wf(),
        ensures
            final(self).wf(),
            final(self).repos_seq() == old(self).repos_seq(),
            exists|cutoff: i64|
                final(self).events() == #[trigger] cleaned(old(self).events(), cutoff),
            removed == old(self).events().len() - final(self).events().len(),
            forall|i: int|
                0 <= i < old(self).events().len() && !(#[trigger] old(self).events()[i]).acknowledged
                    ==> final(self).events().contains(old(self).events()[i]),
    {
        let now = now_unix();
        let span: i128 = (days as i128) * 86400;
        let cutoff128: i128 = (now as i128) - span;
        let cutoff: i64 = if cutoff128 < i64::MIN as i128 {
            i64::MIN
        } else {
            cutoff128 as i64
        };
        let removed = self.cleanup_events_before(cutoff);
        proof {
            assert(final(self).events() == cleaned(old(self).events(), cutoff));
        }
        removed
    }
}

/// Filtering keeps the relative order: when the original is sorted
/// under a key, so is the filtered sequence.
proof fn lemma_filter_keeps_order<A>(
    s: Seq<A>,
    p: spec_fn(A) -> bool,
    key: spec_fn(A) -> int,
    a: int,
    b: int,
)
    requires
        0 <= a < b < s.filter(p).len(),
        forall|i: int, j: int| 0 <= i < j < s.len() ==> key(s[i]) <= key(s[j]),
    ensures
        key(s.filter(p)[a]) <= key(s.filter(p)[b]),
    decreases s.len(),
{
    reveal(Seq::filter);
    if s.len() > 0 {
        let rest = s.drop_last();
        if p(s.last()) && b == s.filter(p).len() - 1 {
            // The later element is the last of the original; the
            // earlier one comes from the rest, where keys are no
            // larger.
            lemma_filter_elem_from(rest, p, a);
        } else {
            lemma_filter_keeps_order(rest, p, key, a, b);
        }
    }
}

/// Every element of a filtered sequence is an element of the
/// original.
pub(crate) proof fn lemma_filter_elem_from<A>(s: Seq<A>, p: spec_fn(A) -> bool, a: int)
    requires
        0 <= a < s.filter(p).len(),
    ensures
        exists|i: int| 0 <= i < s.len() && s[i] == s.filter(p)[a],
    decreases s.len(),
{
    reveal(Seq::filter);
    if s.len() > 0 {
        let rest = s.drop_last();
        if p(s.last()) && a == s.filter(p).len() - 1 {
            assert(s[s.len() - 1] == s.filter(p)[a]);
        } else {
            lemma_filter_elem_from(rest, p, a);
            let w = choose|i: int| 0 <= i < rest.len() && rest[i] == rest.filter(p)[a];
            assert(s[w] == s.filter(p)[a]);
        }
    }
}

/// Builds the reversed vector, keeping at most `limit` elements from
/// the front of the reversal.
fn reverse_with_limit<'a>(fw: Vec<&'a SyncEvent>, limit: Option<u32>) -> (r: Vec<&'a SyncEvent>)
    ensures
        ({
            let rev = fw@.map_values(|e: &SyncEvent| *e).reverse();
            r@.map_values(|e: &SyncEvent| *e) == match limit {
                Some(l) => rev.take(if l as int <= rev.len() as int {
                    l as int
                } else {
                    rev.len() as int
                }),
                None => rev,
            }
        }),
{
    let cap: usize = match limit {
        Some(l) => {
            if (l as u64) < (fw.len() as u64) {
                l as usize
            } else {
                fw.len()
            }
        },
        None => fw.len(),
    };
    let total = fw.len();
    let mut r: Vec<&SyncEvent> = Vec::new();
    let mut j: usize = total;
    proof {
        let rev = fw@.map_values(|e: &SyncEvent| *e).reverse();
        assert(r@.map_values(|e: &SyncEvent| *e) =~= rev.take(0));
    }
    while j > 0 && r.len() < cap
        invariant
            j <= total,
            total == fw@.len(),
            cap <= total,
            r@.len() == total - j,
            r@.len() <= cap,
            r@.map_values(|e: &SyncEvent| *e) == fw@.map_values(|e: &SyncEvent| *e).reverse().take(
                (total - j) as int,
            ),
        decreases j,
    {
        r.push(fw[j - 1]);
        proof {
            let rev = fw@.map_values(|e: &SyncEvent| *e).reverse();
            assert(rev[(total - j) as int] == fw@.map_values(|e: &SyncEvent| *e)[j - 1]);
            assert(r@.map_values(|e: &SyncEvent| *e) =~= rev.take((total - j + 1) as int));
        }
        j -= 1;
    }
    proof {
        let rev = fw@.map_values(|e: &SyncEvent| *e).reverse();
        if j == 0 {
            assert(r@.map_values(|e: &SyncEvent| *e) =~= rev.take(rev.len() as int));
        }
        match limit {
            Some(l) => {
                let want = if l as int <= rev.len() as int {
                    l as int
                } else {
                    rev.len() as int
                };
                assert(r@.len() == cap || j == 0);
                assert(r@.map_values(|e: &SyncEvent| *e) =~= rev.take(want));
            },
            None => {
                assert(r@.map_values(|e: &SyncEvent| *e) =~= rev);
            },
        }
    }
    r
}

} // verus!
