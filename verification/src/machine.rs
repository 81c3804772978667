//! The per-repository sync decision procedure, as a step machine: the
//! machine names the next `git` action to run, the caller runs it and
//! hands back the outcome, and the machine decides the next step until
//! it settles on exactly one `SyncResult`.
//!
//! The safety rule comes first: a working tree with any local changes
//! is never touched.  After analysis the machine picks between pull,
//! branch switch, fetch-only and skip; a missing checkout is cloned,
//! verified and stamped as configured.  `step` carries the full
//! transition relation in its contract, and a rank that shrinks on
//! every step bounds a run by a constant number of actions.

use vstd::prelude::*;

use crate::config::Config;
use crate::git::{
    pull_commits, spec_commit_timestamp, spec_normalize_url, spec_pick_branch, spec_pull_commits,
    spec_rev_count, urls_match, parse_commit_timestamp, parse_rev_count, pick_most_recent_branch,
    RepoState, SyncResult,
};
use crate::strutil::{spec_lines, spec_trim, split_lines, str_eq, trim};

verus! {

/// The sync strategies the engine distinguishes.  The interactive
/// strategy behaves as safe-pull.
#[derive(Debug, Clone, Copy, PartialEq, Eq, Structural)]
pub enum SyncStrategy {
    SafePull,
    FetchOnly,
    Interactive,
    MostRecentBranch,
}

impl SyncStrategy {
    /// The strategy a configuration keyword denotes; anything
    /// unrecognized falls back to safe-pull.
    pub open spec fn spec_parse(s: Seq<char>) -> SyncStrategy {
        if s == "fetch-only"@ {
            SyncStrategy::FetchOnly
        } else if s == "most-recent-branch"@ {
            SyncStrategy::MostRecentBranch
        } else if s == "interactive"@ {
            SyncStrategy::Interactive
        } else {
            SyncStrategy::SafePull
        }
    }

    pub fn parse(s: &str) -> (r: Self)
        ensures
            r == Self::spec_parse(s@),
    {
        if str_eq(s, "fetch-only") {
            SyncStrategy::FetchOnly
        } else if str_eq(s, "most-recent-branch") {
            SyncStrategy::MostRecentBranch
        } else if str_eq(s, "interactive") {
            SyncStrategy::Interactive
        } else {
            SyncStrategy::SafePull
        }
    }
}

/// What one repository run needs from the configuration and the
/// repository specification.
pub struct MachineCfg {
    /// Absolute path of the local checkout.
    pub local_path: String,
    /// The remote URL the checkout must match, and the clone source.
    pub clone_url: String,
    pub strategy: SyncStrategy,
    pub fast_forward_only: bool,
    pub preserve_timestamps: bool,
    pub verify_clone: bool,
    pub cleanup_on_error: bool,
    /// Branch names matching any of these globs are never switched
    /// to.
    pub exclude_branch_patterns: Vec<String>,
}

impl MachineCfg {
    /// Assembles a run configuration from the library configuration
    /// and one repository's path and URL.
    pub fn from_config(
        config: &Config,
        local_path: String,
        clone_url: String,
        exclude_branch_patterns: Vec<String>,
    ) -> (r: Self)
        ensures
            r.local_path == local_path,
            r.clone_url == clone_url,
            r.strategy == SyncStrategy::spec_parse(config.sync.strategy@),
            r.fast_forward_only == config.sync.fast_forward_only,
            r.preserve_timestamps == config.advanced.preserve_timestamps,
            r.verify_clone == config.advanced.verify_clone,
            r.cleanup_on_error == config.advanced.cleanup_on_error,
            r.exclude_branch_patterns == exclude_branch_patterns,
    {
        Self {
            local_path,
            clone_url,
            strategy: SyncStrategy::parse(config.sync.strategy.as_str()),
            fast_forward_only: config.sync.fast_forward_only,
            preserve_timestamps: config.advanced.preserve_timestamps,
            verify_clone: config.advanced.verify_clone,
            cleanup_on_error: config.advanced.cleanup_on_error,
            exclude_branch_patterns,
        }
    }
}

/// One `git` (or filesystem) action the machine asks for.
#[derive(Debug, Clone)]
pub enum GitAction {
    /// Does the local path hold a checkout?  Success means yes.
    CheckRepoExists,
    /// `git status --porcelain`.
    StatusPorcelain,
    /// `git remote get-url origin`.
    ReadRemoteUrl,
    /// `git branch --show-current`.
    ReadCurrentBranch,
    /// `git fetch origin`; best effort.
    FetchOrigin,
    /// `git rev-list --count origin/HEAD..HEAD`.
    CountAhead,
    /// `git rev-list --count HEAD..origin/HEAD`.
    CountBehind,
    /// `git diff --name-only --diff-filter=U`.
    DiffUnmerged,
    /// `git fetch --all --prune`.
    FetchAllPrune,
    /// `git for-each-ref --sort=-committerdate --format=%(refname:short)
    /// refs/remotes/origin/`.
    ListBranchesByRecency,
    /// `git checkout <branch>`, falling back to
    /// `git checkout -b <branch> origin/<branch>`.
    Checkout { branch: String },
    /// `git pull origin`, with `--ff-only` when asked.
    Pull { ff_only: bool },
    /// Create the parent directory of the local path.
    EnsureParentDir,
    /// `git clone <url> <dest>`.
    CloneRepo { url: String, dest: String },
    /// Remove the local path and what is under it.
    RemoveDir,
    /// `git fsck`.
    VerifyIntegrity,
    /// `git log -1 --format=%ct`.
    ReadLatestCommitTime,
    /// Set the local path's modification time; best effort.
    SetDirTimestamp { unix_time: i64 },
}

/// What came back from one action: the exit classification and the
/// captured output channels.
#[derive(Debug, Clone)]
pub struct CmdOutput {
    pub ok: bool,
    pub stdout: String,
    pub stderr: String,
}

/// Whether the pull runs on the analyzed branch or right after a
/// switch.
#[derive(Debug)]
pub enum PullContext {
    CurrentBranch,
    Switched { from: String, to: String },
}

/// The machine's control state; each non-terminal phase awaits the
/// reply to exactly one action.
#[derive(Debug)]
pub enum Phase {
    Entry,
    Safety,
    AnalyzeRemote,
    AnalyzeBranch,
    AnalyzeFetch,
    AnalyzeAhead,
    AnalyzeBehind,
    AnalyzeConflicts,
    MostRecentFetch,
    MostRecentBranches,
    SwitchCheckout { from: String, target: String },
    PullRun { ctx: PullContext },
    PullStampTime { pending: SyncResult },
    PullStampSet { pending: SyncResult, unix_time: i64 },
    CloneParent,
    CloneRun,
    CloneVerify,
    CloneFailCleanup { error: String },
    CloneStampTime,
    CloneStampSet { unix_time: i64 },
    CloneMrFetch,
    CloneMrBranches,
    CloneMrCurrent { target: String },
    CloneMrCheckout { target: String },
    CloneBranchRead,
    Done(SyncResult),
}

/// An upper bound on the steps left until the machine is done; only
/// the terminal phase has rank zero, and every step strictly lowers
/// it.
pub open spec fn phase_rank(p: Phase) -> nat {
    match p {
        Phase::Done(_) => 0,
        Phase::PullStampSet { .. } => 1,
        Phase::PullStampTime { .. } => 2,
        Phase::PullRun { .. } => 3,
        Phase::SwitchCheckout { .. } => 4,
        Phase::MostRecentBranches => 5,
        Phase::MostRecentFetch => 6,
        Phase::AnalyzeConflicts => 7,
        Phase::AnalyzeBehind => 8,
        Phase::AnalyzeAhead => 9,
        Phase::AnalyzeFetch => 10,
        Phase::AnalyzeBranch => 11,
        Phase::AnalyzeRemote => 12,
        Phase::Safety => 13,
        Phase::CloneFailCleanup { .. } => 1,
        Phase::CloneBranchRead => 1,
        Phase::CloneMrCheckout { .. } => 2,
        Phase::CloneMrCurrent { .. } => 3,
        Phase::CloneMrBranches => 4,
        Phase::CloneMrFetch => 5,
        Phase::CloneStampSet { .. } => 6,
        Phase::CloneStampTime => 7,
        Phase::CloneVerify => 8,
        Phase::CloneRun => 9,
        Phase::CloneParent => 10,
        Phase::Entry => 14,
    }
}

/// The number of actions one run can take at most, from the start.
pub open spec fn max_steps() -> nat {
    phase_rank(Phase::Entry)
}

/// The one sync state machine for one repository.
pub struct SyncMachine {
    pub cfg: MachineCfg,
    pub phase: Phase,
    /// `origin`'s URL as analysis read it.
    pub remote_url: Option<String>,
    /// The checked-out branch as analysis read it.
    pub current_branch: Option<String>,
    pub is_ahead: bool,
    pub is_behind: bool,
    pub has_conflicts: bool,
}

/// The reason the safety rule reports.
pub open spec fn local_changes_reason() -> Seq<char> {
    "Repository has local changes (uncommitted or untracked files)"@
}

/// The reason for a remote that is not the configured one.
pub open spec fn mismatch_reason() -> Seq<char> {
    "Remote URL mismatch"@
}

/// The reason for unresolved conflicts.
pub open spec fn conflicts_reason() -> Seq<char> {
    "Repository has unresolved conflicts"@
}

/// The reason under the fetch-only strategy.
pub open spec fn fetch_only_reason() -> Seq<char> {
    "Fetch-only strategy configured"@
}

/// The reason for a checkout ahead of its remote.
pub open spec fn ahead_reason() -> Seq<char> {
    "Repository is ahead of remote (has local commits)"@
}

/// View equality of optional strings.
pub open spec fn opt_view_eq(a: Option<String>, b: Option<String>) -> bool {
    match (a, b) {
        (Some(x), Some(y)) => x@ == y@,
        (None, None) => true,
        _ => false,
    }
}

/// The optional branch a command reply denotes: the trimmed output on
/// success, nothing on failure or empty output.
pub open spec fn reply_branch(reply: CmdOutput) -> Option<Seq<char>> {
    if reply.ok && spec_trim(reply.stdout@).len() > 0 {
        Some(spec_trim(reply.stdout@))
    } else {
        None
    }
}

pub open spec fn done_with(post: SyncMachine, r: SyncResult) -> bool {
    post.phase matches Phase::Done(rr) && rr == r
}

pub open spec fn done_skipped(post: SyncMachine, path: Seq<char>, reason: Seq<char>) -> bool {
    post.phase matches Phase::Done(rr) && (rr matches SyncResult::Skipped {
        path: p,
        reason: re,
    } && p@ == path && re@ == reason)
}

pub open spec fn done_fetched_only(post: SyncMachine, path: Seq<char>, reason: Seq<char>) -> bool {
    post.phase matches Phase::Done(rr) && (rr matches SyncResult::FetchedOnly {
        path: p,
        reason: re,
    } && p@ == path && re@ == reason)
}

pub open spec fn done_failed(post: SyncMachine, path: Seq<char>, error: Seq<char>) -> bool {
    post.phase matches Phase::Done(rr) && (rr matches SyncResult::Failed {
        path: p,
        error: e,
    } && p@ == path && e@ == error)
}

pub open spec fn done_up_to_date(post: SyncMachine, path: Seq<char>, branch: Option<String>) -> bool {
    post.phase matches Phase::Done(rr) && (rr matches SyncResult::UpToDate {
        path: p,
        branch: b,
    } && p@ == path && opt_view_eq(b, branch))
}

pub open spec fn done_cloned(post: SyncMachine, path: Seq<char>, branch: Option<Seq<char>>) -> bool {
    post.phase matches Phase::Done(rr) && (rr matches SyncResult::Cloned {
        path: p,
        branch: b,
    } && p@ == path && match (b, branch) {
        (Some(x), Some(y)) => x@ == y,
        (None, None) => true,
        _ => false,
    })
}

/// The analysis fields carried over unchanged.
pub open spec fn analysis_preserved(pre: SyncMachine, post: SyncMachine) -> bool {
    &&& post.remote_url == pre.remote_url
    &&& post.current_branch == pre.current_branch
    &&& post.is_ahead == pre.is_ahead
    &&& post.is_behind == pre.is_behind
    &&& post.has_conflicts == pre.has_conflicts
}

/// The pull decision: a checkout strictly ahead of its remote is only
/// fetched, one not behind is already up to date, and otherwise the
/// pull runs on the current branch.
pub open spec fn pull_decision_rel(
    cfg: MachineCfg,
    is_ahead: bool,
    is_behind: bool,
    current_branch: Option<String>,
    post: SyncMachine,
) -> bool {
    if is_ahead && !is_behind {
        done_fetched_only(post, cfg.local_path@, ahead_reason())
    } else if !is_behind {
        done_up_to_date(post, cfg.local_path@, current_branch)
    } else {
        &&& post.phase matches Phase::PullRun { ctx: PullContext::CurrentBranch }
        &&& post.current_branch == current_branch
    }
}

/// The outcome a successful pull settles on: a sentinel commit count
/// from the pull output, wrapped as a plain pull or as the branch
/// switch that led to it.
pub open spec fn pull_outcome_rel(
    cfg: MachineCfg,
    ctx: PullContext,
    current_branch: Option<String>,
    reply: CmdOutput,
    r: SyncResult,
) -> bool {
    match ctx {
        PullContext::CurrentBranch => r matches SyncResult::Pulled {
            path,
            commits_updated,
            branch,
        } && path@ == cfg.local_path@ && commits_updated == spec_pull_commits(reply.stdout@)
            && opt_view_eq(branch, current_branch),
        PullContext::Switched { from, to } => r matches SyncResult::BranchSwitched {
            path,
            from_branch,
            to_branch,
            commits_updated,
        } && path@ == cfg.local_path@ && from_branch@ == from@ && to_branch@ == to@
            && commits_updated == spec_pull_commits(reply.stdout@),
    }
}

/// After a fresh clone is verified and stamped: branch selection for
/// the most-recent strategy, or reading the checked-out branch.
pub open spec fn clone_branching_rel(cfg: MachineCfg, post: SyncMachine) -> bool {
    if cfg.strategy == SyncStrategy::MostRecentBranch {
        post.phase matches Phase::CloneMrFetch
    } else {
        post.phase matches Phase::CloneBranchRead
    }
}

/// After a successful clone: integrity check first when configured,
/// then timestamp preservation, then branch selection.
pub open spec fn clone_after_run_rel(cfg: MachineCfg, post: SyncMachine) -> bool {
    if cfg.preserve_timestamps {
        post.phase matches Phase::CloneStampTime
    } else {
        clone_branching_rel(cfg, post)
    }
}

/// A clone-flow failure: the partial checkout is removed first when
/// cleanup is configured.
pub open spec fn clone_failure_rel(cfg: MachineCfg, error: Seq<char>, post: SyncMachine) -> bool {
    if cfg.cleanup_on_error {
        post.phase matches Phase::CloneFailCleanup { error: e } && e@ == error
    } else {
        done_failed(post, cfg.local_path@, error)
    }
}

/// The full transition relation of the machine: what one consumed
/// reply does to the control state, phase by phase.
pub open spec fn step_rel(pre: SyncMachine, reply: CmdOutput, post: SyncMachine) -> bool {
    let cfg = pre.cfg;
    let path = cfg.local_path@;
    match pre.phase {
        Phase::Entry => if reply.ok {
            post.phase matches Phase::Safety && analysis_preserved(pre, post)
        } else {
            post.phase matches Phase::CloneParent && analysis_preserved(pre, post)
        },
        Phase::Safety => if !reply.ok {
            done_failed(post, path, "Git status failed"@)
        } else if spec_trim(reply.stdout@).len() > 0 {
            done_skipped(post, path, local_changes_reason())
        } else {
            post.phase matches Phase::AnalyzeRemote && analysis_preserved(pre, post)
        },
        Phase::AnalyzeRemote => {
            &&& post.phase matches Phase::AnalyzeBranch
            &&& if reply.ok {
                post.remote_url matches Some(u) && u@ == spec_trim(reply.stdout@)
            } else {
                post.remote_url is None
            }
            &&& post.current_branch == pre.current_branch
        },
        Phase::AnalyzeBranch => {
            let cb = reply_branch(reply);
            if pre.remote_url matches Some(u) && spec_normalize_url(u@) != spec_normalize_url(
                cfg.clone_url@,
            ) {
                done_skipped(post, path, mismatch_reason())
            } else {
                &&& post.phase matches Phase::AnalyzeFetch
                &&& post.remote_url == pre.remote_url
                &&& match (post.current_branch, cb) {
                    (Some(x), Some(y)) => x@ == y,
                    (None, None) => true,
                    _ => false,
                }
            }
        },
        Phase::AnalyzeFetch => {
            post.phase matches Phase::AnalyzeAhead && analysis_preserved(pre, post)
        },
        Phase::AnalyzeAhead => {
            &&& post.phase matches Phase::AnalyzeBehind
            &&& post.is_ahead == (reply.ok && spec_rev_count(reply.stdout@) > 0)
            &&& post.current_branch == pre.current_branch
            &&& post.remote_url == pre.remote_url
        },
        Phase::AnalyzeBehind => {
            &&& post.phase matches Phase::AnalyzeConflicts
            &&& post.is_behind == (reply.ok && spec_rev_count(reply.stdout@) > 0)
            &&& post.is_ahead == pre.is_ahead
            &&& post.current_branch == pre.current_branch
            &&& post.remote_url == pre.remote_url
        },
        Phase::AnalyzeConflicts => {
            let conflicts = reply.ok && reply.stdout@.len() > 0;
            if conflicts {
                done_fetched_only(post, path, conflicts_reason())
            } else if cfg.strategy == SyncStrategy::FetchOnly {
                done_fetched_only(post, path, fetch_only_reason())
            } else if cfg.strategy == SyncStrategy::MostRecentBranch {
                post.phase matches Phase::MostRecentFetch && analysis_preserved(pre, post)
            } else {
                pull_decision_rel(cfg, pre.is_ahead, pre.is_behind, pre.current_branch, post)
            }
        },
        Phase::MostRecentFetch => if !reply.ok {
            done_failed(post, path, "Git fetch --all failed: "@ + reply.stderr@)
        } else {
            post.phase matches Phase::MostRecentBranches && analysis_preserved(pre, post)
        },
        Phase::MostRecentBranches => if !reply.ok {
            done_failed(post, path, "Git for-each-ref failed"@)
        } else {
            let pick = spec_pick_branch(
                spec_lines(reply.stdout@),
                cfg.exclude_branch_patterns@.map_values(|p: String| p@),
            );
            match pick {
                Some(b) => if pre.current_branch matches Some(c) && c@ == b {
                    pull_decision_rel(cfg, pre.is_ahead, pre.is_behind, pre.current_branch, post)
                } else {
                    post.phase matches Phase::SwitchCheckout { from, target } && target@ == b
                        && from@ == (match pre.current_branch {
                        Some(c) => c@,
                        None => "unknown"@,
                    }) && post.current_branch == pre.current_branch
                },
                None => pull_decision_rel(
                    cfg,
                    pre.is_ahead,
                    pre.is_behind,
                    pre.current_branch,
                    post,
                ),
            }
        },
        Phase::SwitchCheckout { from, target } => if !reply.ok {
            done_failed(post, path, "Git checkout failed: "@ + reply.stderr@)
        } else {
            post.phase matches Phase::PullRun { ctx: PullContext::Switched { from: f2, to: t2 } }
                && f2@ == from@ && t2@ == target@
        },
        Phase::PullRun { ctx } => if !reply.ok {
            done_failed(post, path, "Git pull failed: "@ + reply.stderr@)
        } else {
            if cfg.preserve_timestamps {
                post.phase matches Phase::PullStampTime { pending } && pull_outcome_rel(
                    cfg,
                    ctx,
                    pre.current_branch,
                    reply,
                    pending,
                )
            } else {
                post.phase matches Phase::Done(r) && pull_outcome_rel(
                    cfg,
                    ctx,
                    pre.current_branch,
                    reply,
                    r,
                )
            }
        },
        Phase::PullStampTime { pending } => {
            let ts = if reply.ok {
                spec_commit_timestamp(reply.stdout@)
            } else {
                None
            };
            match ts {
                Some(t) => post.phase matches Phase::PullStampSet {
                    pending: p2,
                    unix_time,
                } && p2 == pending && unix_time == t,
                None => done_with(post, pending),
            }
        },
        Phase::PullStampSet { pending, unix_time } => done_with(post, pending),
        Phase::CloneParent => if reply.ok {
            post.phase matches Phase::CloneRun
        } else {
            done_failed(post, path, "Failed to create parent directory: "@ + reply.stderr@)
        },
        Phase::CloneRun => if reply.ok {
            if cfg.verify_clone {
                post.phase matches Phase::CloneVerify
            } else {
                clone_after_run_rel(cfg, post)
            }
        } else {
            clone_failure_rel(cfg, "Clone failed: "@ + reply.stderr@, post)
        },
        Phase::CloneVerify => if reply.ok {
            clone_after_run_rel(cfg, post)
        } else {
            clone_failure_rel(
                cfg,
                "Repository integrity check failed: "@ + reply.stderr@,
                post,
            )
        },
        Phase::CloneFailCleanup { error } => done_failed(post, path, error@),
        Phase::CloneStampTime => {
            let ts = if reply.ok {
                spec_commit_timestamp(reply.stdout@)
            } else {
                None
            };
            match ts {
                Some(t) => post.phase matches Phase::CloneStampSet { unix_time } && unix_time == t,
                None => clone_branching_rel(cfg, post),
            }
        },
        Phase::CloneStampSet { .. } => clone_branching_rel(cfg, post),
        Phase::CloneMrFetch => if !reply.ok {
            done_failed(post, path, "Git fetch --all failed: "@ + reply.stderr@)
        } else {
            post.phase matches Phase::CloneMrBranches
        },
        Phase::CloneMrBranches => if !reply.ok {
            done_failed(post, path, "Git for-each-ref failed"@)
        } else {
            let pick = spec_pick_branch(
                spec_lines(reply.stdout@),
                cfg.exclude_branch_patterns@.map_values(|p: String| p@),
            );
            match pick {
                Some(b) => post.phase matches Phase::CloneMrCurrent { target } && target@ == b,
                None => post.phase matches Phase::CloneBranchRead,
            }
        },
        Phase::CloneMrCurrent { target } => if reply_branch(reply) matches Some(c) && c == target@ {
            done_cloned(post, path, Some(target@))
        } else {
            post.phase matches Phase::CloneMrCheckout { target: t2 } && t2@ == target@
        },
        Phase::CloneMrCheckout { target } => if reply.ok {
            done_cloned(post, path, Some(target@))
        } else {
            done_failed(post, path, "Git checkout failed: "@ + reply.stderr@)
        },
        Phase::CloneBranchRead => done_cloned(post, path, reply_branch(reply)),
        Phase::Done(_) => post == pre,
    }
}

/// The machine a run for one repository starts from.
pub open spec fn spec_start(cfg: MachineCfg) -> SyncMachine {
    SyncMachine {
        cfg,
        phase: Phase::Entry,
        remote_url: None,
        current_branch: None,
        is_ahead: false,
        is_behind: false,
        has_conflicts: false,
    }
}

/// The step relation folded over a reply sequence: `m1` is reachable
/// from `m0` by consuming the replies in order.
pub open spec fn steps_rel(m0: SyncMachine, replies: Seq<CmdOutput>, m1: SyncMachine) -> bool
    decreases replies.len(),
{
    if replies.len() == 0 {
        m1 == m0
    } else {
        exists|mid: SyncMachine|
            #[trigger] step_rel(m0, replies[0], mid) && steps_rel(mid, replies.drop_first(), m1)
    }
}

proof fn lemma_steps_rel_snoc(
    m0: SyncMachine,
    replies: Seq<CmdOutput>,
    m1: SyncMachine,
    reply: CmdOutput,
    m2: SyncMachine,
)
    requires
        steps_rel(m0, replies, m1),
        step_rel(m1, reply, m2),
    ensures
        steps_rel(m0, replies.push(reply), m2),
    decreases replies.len(),
{
    if replies.len() == 0 {
        assert(replies.push(reply)[0] == reply);
        assert(replies.push(reply).drop_first() =~= Seq::<CmdOutput>::empty());
        assert(step_rel(m0, reply, m2) && steps_rel(m2, replies.push(reply).drop_first(), m2));
    } else {
        let mid = choose|mid: SyncMachine|
            #[trigger] step_rel(m0, replies[0], mid) && steps_rel(mid, replies.drop_first(), m1);
        lemma_steps_rel_snoc(mid, replies.drop_first(), m1, reply, m2);
        assert(replies.push(reply)[0] == replies[0]);
        assert(replies.push(reply).drop_first() =~= replies.drop_first().push(reply));
        assert(step_rel(m0, replies.push(reply)[0], mid) && steps_rel(
            mid,
            replies.push(reply).drop_first(),
            m2,
        ));
    }
}

impl SyncMachine {
    /// Whether the machine has settled on its outcome.
    pub open spec fn spec_is_done(self) -> bool {
        self.phase matches Phase::Done(_)
    }

    /// Starts a run for one repository.
    pub fn start(cfg: MachineCfg) -> (m: Self)
        ensures
            m == spec_start(cfg),
            m.cfg == cfg,
            m.phase matches Phase::Entry,
    {
        Self {
            cfg,
            phase: Phase::Entry,
            remote_url: None,
            current_branch: None,
            is_ahead: false,
            is_behind: false,
            has_conflicts: false,
        }
    }

    pub fn is_done(&self) -> (r: bool)
        ensures
            r == self.spec_is_done(),
    {
        match self.phase {
            Phase::Done(_) => true,
            _ => false,
        }
    }

    /// The outcome, once the machine is done.
    pub fn into_outcome(self) -> (r: Option<SyncResult>)
        ensures
            match self.phase {
                Phase::Done(res) => r == Some(res),
                _ => r is None,
            },
    {
        match self.phase {
            Phase::Done(res) => Some(res),
            _ => None,
        }
    }

    /// The action the machine is waiting on; nothing once it is done.
    pub fn pending_action(&self) -> (r: Option<GitAction>)
        ensures
            match self.phase {
                Phase::Entry => r == Some(GitAction::CheckRepoExists),
                Phase::Safety => r == Some(GitAction::StatusPorcelain),
                Phase::AnalyzeRemote => r == Some(GitAction::ReadRemoteUrl),
                Phase::AnalyzeBranch => r == Some(GitAction::ReadCurrentBranch),
                Phase::AnalyzeFetch => r == Some(GitAction::FetchOrigin),
                Phase::AnalyzeAhead => r == Some(GitAction::CountAhead),
                Phase::AnalyzeBehind => r == Some(GitAction::CountBehind),
                Phase::AnalyzeConflicts => r == Some(GitAction::DiffUnmerged),
                Phase::MostRecentFetch => r == Some(GitAction::FetchAllPrune),
                Phase::MostRecentBranches => r == Some(GitAction::ListBranchesByRecency),
                Phase::SwitchCheckout { target, .. } => r matches Some(
                    GitAction::Checkout { branch },
                ) && branch@ == target@,
                Phase::PullRun { .. } => r == Some(
                    GitAction::Pull { ff_only: self.cfg.fast_forward_only },
                ),
                Phase::PullStampTime { .. } => r == Some(GitAction::ReadLatestCommitTime),
                Phase::PullStampSet { unix_time, .. } => r == Some(
                    GitAction::SetDirTimestamp { unix_time },
                ),
                Phase::CloneParent => r == Some(GitAction::EnsureParentDir),
                Phase::CloneRun => r matches Some(GitAction::CloneRepo { url, dest }) && url@
                    == self.cfg.clone_url@ && dest@ == self.cfg.local_path@,
                Phase::CloneVerify => r == Some(GitAction::VerifyIntegrity),
                Phase::CloneFailCleanup { .. } => r == Some(GitAction::RemoveDir),
                Phase::CloneStampTime => r == Some(GitAction::ReadLatestCommitTime),
                Phase::CloneStampSet { unix_time } => r == Some(
                    GitAction::SetDirTimestamp { unix_time },
                ),
                Phase::CloneMrFetch => r == Some(GitAction::FetchAllPrune),
                Phase::CloneMrBranches => r == Some(GitAction::ListBranchesByRecency),
                Phase::CloneMrCurrent { .. } => r == Some(GitAction::ReadCurrentBranch),
                Phase::CloneMrCheckout { target } => r matches Some(
                    GitAction::Checkout { branch },
                ) && branch@ == target@,
                Phase::CloneBranchRead => r == Some(GitAction::ReadCurrentBranch),
                Phase::Done(_) => r is None,
            },
    {
        match &self.phase {
            Phase::Entry => Some(GitAction::CheckRepoExists),
            Phase::Safety => Some(GitAction::StatusPorcelain),
            Phase::AnalyzeRemote => Some(GitAction::ReadRemoteUrl),
            Phase::AnalyzeBranch => Some(GitAction::ReadCurrentBranch),
            Phase::AnalyzeFetch => Some(GitAction::FetchOrigin),
            Phase::AnalyzeAhead => Some(GitAction::CountAhead),
            Phase::AnalyzeBehind => Some(GitAction::CountBehind),
            Phase::AnalyzeConflicts => Some(GitAction::DiffUnmerged),
            Phase::MostRecentFetch => Some(GitAction::FetchAllPrune),
            Phase::MostRecentBranches => Some(GitAction::ListBranchesByRecency),
            Phase::SwitchCheckout { target, .. } => Some(
                GitAction::Checkout { branch: target.clone() },
            ),
            Phase::PullRun { .. } => Some(GitAction::Pull { ff_only: self.cfg.fast_forward_only }),
            Phase::PullStampTime { .. } => Some(GitAction::ReadLatestCommitTime),
            Phase::PullStampSet { unix_time, .. } => Some(
                GitAction::SetDirTimestamp { unix_time: *unix_time },
            ),
            Phase::CloneParent => Some(GitAction::EnsureParentDir),
            Phase::CloneRun => Some(
                GitAction::CloneRepo {
                    url: self.cfg.clone_url.clone(),
                    dest: self.cfg.local_path.clone(),
                },
            ),
            Phase::CloneVerify => Some(GitAction::VerifyIntegrity),
            Phase::CloneFailCleanup { .. } => Some(GitAction::RemoveDir),
            Phase::CloneStampTime => Some(GitAction::ReadLatestCommitTime),
            Phase::CloneStampSet { unix_time } => Some(
                GitAction::SetDirTimestamp { unix_time: *unix_time },
            ),
            Phase::CloneMrFetch => Some(GitAction::FetchAllPrune),
            Phase::CloneMrBranches => Some(GitAction::ListBranchesByRecency),
            Phase::CloneMrCurrent { .. } => Some(GitAction::ReadCurrentBranch),
            Phase::CloneMrCheckout { target } => Some(
                GitAction::Checkout { branch: target.clone() },
            ),
            Phase::CloneBranchRead => Some(GitAction::ReadCurrentBranch),
            Phase::Done(_) => None,
        }
    }
}

fn clone_opt(o: &Option<String>) -> (r: Option<String>)
    ensures
        opt_view_eq(r, *o),
{
    match o {
        Some(s) => Some(s.clone()),
        None => None,
    }
}

fn prefixed_error(prefix: &str, stderr: &str) -> (r: String)
    ensures
        r@ == prefix@ + stderr@,
{
    let mut e = String::from_str(prefix);
    e.append(stderr);
    e
}

fn pull_decision(
    cfg: MachineCfg,
    remote_url: Option<String>,
    current_branch: Option<String>,
    is_ahead: bool,
    is_behind: bool,
    has_conflicts: bool,
) -> (m: SyncMachine)
    ensures
        m.cfg == cfg,
        pull_decision_rel(cfg, is_ahead, is_behind, current_branch, m),
        phase_rank(m.phase) <= 3,
{
    if is_ahead && !is_behind {
        let path = cfg.local_path.clone();
        SyncMachine {
            cfg,
            phase: Phase::Done(
                SyncResult::FetchedOnly {
                    path,
                    reason: String::from_str("Repository is ahead of remote (has local commits)"),
                },
            ),
            remote_url,
            current_branch,
            is_ahead,
            is_behind,
            has_conflicts,
        }
    } else if !is_behind {
        let path = cfg.local_path.clone();
        SyncMachine {
            cfg,
            phase: Phase::Done(SyncResult::UpToDate { path, branch: current_branch }),
            remote_url,
            current_branch: None,
            is_ahead,
            is_behind,
            has_conflicts,
        }
    } else {
        SyncMachine {
            cfg,
            phase: Phase::PullRun { ctx: PullContext::CurrentBranch },
            remote_url,
            current_branch,
            is_ahead,
            is_behind,
            has_conflicts,
        }
    }
}

fn clone_branching(
    cfg: MachineCfg,
    remote_url: Option<String>,
    current_branch: Option<String>,
    is_ahead: bool,
    is_behind: bool,
    has_conflicts: bool,
) -> (m: SyncMachine)
    ensures
        m.cfg == cfg,
        clone_branching_rel(cfg, m),
        phase_rank(m.phase) <= 5,
{
    let phase = if matches!(cfg.strategy, SyncStrategy::MostRecentBranch) {
        Phase::CloneMrFetch
    } else {
        Phase::CloneBranchRead
    };
    SyncMachine { cfg, phase, remote_url, current_branch, is_ahead, is_behind, has_conflicts }
}

fn after_clone_checks(
    cfg: MachineCfg,
    remote_url: Option<String>,
    current_branch: Option<String>,
    is_ahead: bool,
    is_behind: bool,
    has_conflicts: bool,
) -> (m: SyncMachine)
    ensures
        m.cfg == cfg,
        clone_after_run_rel(cfg, m),
        phase_rank(m.phase) <= 7,
{
    if cfg.preserve_timestamps {
        SyncMachine {
            cfg,
            phase: Phase::CloneStampTime,
            remote_url,
            current_branch,
            is_ahead,
            is_behind,
            has_conflicts,
        }
    } else {
        clone_branching(cfg, remote_url, current_branch, is_ahead, is_behind, has_conflicts)
    }
}

fn clone_failure(
    cfg: MachineCfg,
    error: String,
    remote_url: Option<String>,
    current_branch: Option<String>,
    is_ahead: bool,
    is_behind: bool,
    has_conflicts: bool,
) -> (m: SyncMachine)
    ensures
        m.cfg == cfg,
        clone_failure_rel(cfg, error@, m),
        phase_rank(m.phase) <= 1,
{
    if cfg.cleanup_on_error {
        SyncMachine {
            cfg,
            phase: Phase::CloneFailCleanup { error },
            remote_url,
            current_branch,
            is_ahead,
            is_behind,
            has_conflicts,
        }
    } else {
        let path = cfg.local_path.clone();
        SyncMachine {
            cfg,
            phase: Phase::Done(SyncResult::Failed { path, error }),
            remote_url,
            current_branch,
            is_ahead,
            is_behind,
            has_conflicts,
        }
    }
}

impl SyncMachine {
    /// Consumes one reply and takes the machine one step further, as
    /// the transition relation describes.  The configuration never
    /// changes, a finished machine stays put, and otherwise the rank
    /// strictly falls, so a run settles within `max_steps()` steps.
    ///
    /// The safety rule as a law: when the porcelain status at the
    /// safety check reports anything, the machine settles immediately
    /// on the skipped outcome with the local-changes reason, so no
    /// action that could touch the working tree is ever issued for a
    /// dirty checkout.
    pub fn step(self, reply: CmdOutput) -> (m: SyncMachine)
        ensures
            m.cfg == self.cfg,
            step_rel(self, reply, m),
            self.spec_is_done() ==> m == self,
            !self.spec_is_done() ==> phase_rank(m.phase) < phase_rank(self.phase),
            (self.phase matches Phase::Safety && reply.ok && spec_trim(reply.stdout@).len() > 0)
                ==> done_skipped(m, self.cfg.local_path@, local_changes_reason()),
    {
        let SyncMachine { cfg, phase, remote_url, current_branch, is_ahead, is_behind, has_conflicts } =
            self;
        match phase {
            Phase::Entry => {
                let next = if reply.ok {
                    Phase::Safety
                } else {
                    Phase::CloneParent
                };
                SyncMachine {
                    cfg,
                    phase: next,
                    remote_url,
                    current_branch,
                    is_ahead,
                    is_behind,
                    has_conflicts,
                }
            },
            Phase::Safety => {
                if !reply.ok {
                    let path = cfg.local_path.clone();
                    SyncMachine {
                        cfg,
                        phase: Phase::Done(
                            SyncResult::Failed {
                                path,
                                error: String::from_str("Git status failed"),
                            },
                        ),
                        remote_url,
                        current_branch,
                        is_ahead,
                        is_behind,
                        has_conflicts,
                    }
                } else {
                    let t = trim(reply.stdout.as_str());
                    if t.unicode_len() > 0 {
                        let path = cfg.local_path.clone();
                        SyncMachine {
                            cfg,
                            phase: Phase::Done(
                                SyncResult::Skipped {
                                    path,
                                    reason: String::from_str(
                                        "Repository has local changes (uncommitted or untracked files)",
                                    ),
                                },
                            ),
                            remote_url,
                            current_branch,
                            is_ahead,
                            is_behind,
                            has_conflicts,
                        }
                    } else {
                        SyncMachine {
                            cfg,
                            phase: Phase::AnalyzeRemote,
                            remote_url,
                            current_branch,
                            is_ahead,
                            is_behind,
                            has_conflicts,
                        }
                    }
                }
            },
            Phase::AnalyzeRemote => {
                let url = if reply.ok {
                    Some(String::from_str(trim(reply.stdout.as_str())))
                } else {
                    None
                };
                SyncMachine {
                    cfg,
                    phase: Phase::AnalyzeBranch,
                    remote_url: url,
                    current_branch,
                    is_ahead,
                    is_behind,
                    has_conflicts,
                }
            },
            Phase::AnalyzeBranch => {
                let cb: Option<String> = if reply.ok {
                    let t = trim(reply.stdout.as_str());
                    if t.unicode_len() > 0 {
                        Some(String::from_str(t))
                    } else {
                        None
                    }
                } else {
                    None
                };
                let mismatch = match &remote_url {
                    Some(u) => !urls_match(u.as_str(), cfg.clone_url.as_str()),
                    None => false,
                };
                if mismatch {
                    let path = cfg.local_path.clone();
                    SyncMachine {
                        cfg,
                        phase: Phase::Done(
                            SyncResult::Skipped {
                                path,
                                reason: String::from_str("Remote URL mismatch"),
                            },
                        ),
                        remote_url,
                        current_branch: cb,
                        is_ahead,
                        is_behind,
                        has_conflicts,
                    }
                } else {
                    SyncMachine {
                        cfg,
                        phase: Phase::AnalyzeFetch,
                        remote_url,
                        current_branch: cb,
                        is_ahead,
                        is_behind,
                        has_conflicts,
                    }
                }
            },
            Phase::AnalyzeFetch => {
                SyncMachine {
                    cfg,
                    phase: Phase::AnalyzeAhead,
                    remote_url,
                    current_branch,
                    is_ahead,
                    is_behind,
                    has_conflicts,
                }
            },
            Phase::AnalyzeAhead => {
                let ahead = reply.ok && parse_rev_count(reply.stdout.as_str()) > 0;
                SyncMachine {
                    cfg,
                    phase: Phase::AnalyzeBehind,
                    remote_url,
                    current_branch,
                    is_ahead: ahead,
                    is_behind,
                    has_conflicts,
                }
            },
            Phase::AnalyzeBehind => {
                let behind = reply.ok && parse_rev_count(reply.stdout.as_str()) > 0;
                SyncMachine {
                    cfg,
                    phase: Phase::AnalyzeConflicts,
                    remote_url,
                    current_branch,
                    is_ahead,
                    is_behind: behind,
                    has_conflicts,
                }
            },
            Phase::AnalyzeConflicts => {
                let conflicts = reply.ok && reply.stdout.as_str().unicode_len() > 0;
                if conflicts {
                    let path = cfg.local_path.clone();
                    SyncMachine {
                        cfg,
                        phase: Phase::Done(
                            SyncResult::FetchedOnly {
                                path,
                                reason: String::from_str("Repository has unresolved conflicts"),
                            },
                        ),
                        remote_url,
                        current_branch,
                        is_ahead,
                        is_behind,
                        has_conflicts: conflicts,
                    }
                } else if matches!(cfg.strategy, SyncStrategy::FetchOnly) {
                    let path = cfg.local_path.clone();
                    SyncMachine {
                        cfg,
                        phase: Phase::Done(
                            SyncResult::FetchedOnly {
                                path,
                                reason: String::from_str("Fetch-only strategy configured"),
                            },
                        ),
                        remote_url,
                        current_branch,
                        is_ahead,
                        is_behind,
                        has_conflicts: conflicts,
                    }
                } else if matches!(cfg.strategy, SyncStrategy::MostRecentBranch) {
                    SyncMachine {
                        cfg,
                        phase: Phase::MostRecentFetch,
                        remote_url,
                        current_branch,
                        is_ahead,
                        is_behind,
                        has_conflicts,
                    }
                } else {
                    pull_decision(cfg, remote_url, current_branch, is_ahead, is_behind, conflicts)
                }
            },
            Phase::MostRecentFetch => {
                if !reply.ok {
                    let path = cfg.local_path.clone();
                    let error = prefixed_error("Git fetch --all failed: ", reply.stderr.as_str());
                    SyncMachine {
                        cfg,
                        phase: Phase::Done(SyncResult::Failed { path, error }),
                        remote_url,
                        current_branch,
                        is_ahead,
                        is_behind,
                        has_conflicts,
                    }
                } else {
                    SyncMachine {
                        cfg,
                        phase: Phase::MostRecentBranches,
                        remote_url,
                        current_branch,
                        is_ahead,
                        is_behind,
                        has_conflicts,
                    }
                }
            },
            Phase::MostRecentBranches => {
                if !reply.ok {
                    let path = cfg.local_path.clone();
                    SyncMachine {
                        cfg,
                        phase: Phase::Done(
                            SyncResult::Failed {
                                path,
                                error: String::from_str("Git for-each-ref failed"),
                            },
                        ),
                        remote_url,
                        current_branch,
                        is_ahead,
                        is_behind,
                        has_conflicts,
                    }
                } else {
                    let lines = split_lines(reply.stdout.as_str());
                    let pick = pick_most_recent_branch(&lines, &cfg.exclude_branch_patterns);
                    match pick {
                        Some(b) => {
                            let same = match &current_branch {
                                Some(c) => str_eq(c.as_str(), b.as_str()),
                                None => false,
                            };
                            if same {
                                pull_decision(
                                    cfg,
                                    remote_url,
                                    current_branch,
                                    is_ahead,
                                    is_behind,
                                    has_conflicts,
                                )
                            } else {
                                let from = match &current_branch {
                                    Some(c) => c.clone(),
                                    None => String::from_str("unknown"),
                                };
                                SyncMachine {
                                    cfg,
                                    phase: Phase::SwitchCheckout { from, target: b },
                                    remote_url,
                                    current_branch,
                                    is_ahead,
                                    is_behind,
                                    has_conflicts,
                                }
                            }
                        },
                        None => pull_decision(
                            cfg,
                            remote_url,
                            current_branch,
                            is_ahead,
                            is_behind,
                            has_conflicts,
                        ),
                    }
                }
            },
            Phase::SwitchCheckout { from, target } => {
                if !reply.ok {
                    let path = cfg.local_path.clone();
                    let error = prefixed_error("Git checkout failed: ", reply.stderr.as_str());
                    SyncMachine {
                        cfg,
                        phase: Phase::Done(SyncResult::Failed { path, error }),
                        remote_url,
                        current_branch,
                        is_ahead,
                        is_behind,
                        has_conflicts,
                    }
                } else {
                    SyncMachine {
                        cfg,
                        phase: Phase::PullRun {
                            ctx: PullContext::Switched { from, to: target },
                        },
                        remote_url,
                        current_branch,
                        is_ahead,
                        is_behind,
                        has_conflicts,
                    }
                }
            },
            Phase::PullRun { ctx } => {
                if !reply.ok {
                    let path = cfg.local_path.clone();
                    let error = prefixed_error("Git pull failed: ", reply.stderr.as_str());
                    SyncMachine {
                        cfg,
                        phase: Phase::Done(SyncResult::Failed { path, error }),
                        remote_url,
                        current_branch,
                        is_ahead,
                        is_behind,
                        has_conflicts,
                    }
                } else {
                    let n = pull_commits(reply.stdout.as_str());
                    let path = cfg.local_path.clone();
                    let outcome = match ctx {
                        PullContext::CurrentBranch => {
                            let branch = clone_opt(&current_branch);
                            SyncResult::Pulled { path, commits_updated: n, branch }
                        },
                        PullContext::Switched { from, to } => SyncResult::BranchSwitched {
                            path,
                            from_branch: from,
                            to_branch: to,
                            commits_updated: n,
                        },
                    };
                    if cfg.preserve_timestamps {
                        SyncMachine {
                            cfg,
                            phase: Phase::PullStampTime { pending: outcome },
                            remote_url,
                            current_branch,
                            is_ahead,
                            is_behind,
                            has_conflicts,
                        }
                    } else {
                        SyncMachine {
                            cfg,
                            phase: Phase::Done(outcome),
                            remote_url,
                            current_branch,
                            is_ahead,
                            is_behind,
                            has_conflicts,
                        }
                    }
                }
            },
            Phase::PullStampTime { pending } => {
                let ts = if reply.ok {
                    parse_commit_timestamp(reply.stdout.as_str())
                } else {
                    None
                };
                match ts {
                    Some(t) => SyncMachine {
                        cfg,
                        phase: Phase::PullStampSet { pending, unix_time: t },
                        remote_url,
                        current_branch,
                        is_ahead,
                        is_behind,
                        has_conflicts,
                    },
                    None => SyncMachine {
                        cfg,
                        phase: Phase::Done(pending),
                        remote_url,
                        current_branch,
                        is_ahead,
                        is_behind,
                        has_conflicts,
                    },
                }
            },
            Phase::PullStampSet { pending, unix_time: _ } => {
                SyncMachine {
                    cfg,
                    phase: Phase::Done(pending),
                    remote_url,
                    current_branch,
                    is_ahead,
                    is_behind,
                    has_conflicts,
                }
            },
            Phase::CloneParent => {
                if reply.ok {
                    SyncMachine {
                        cfg,
                        phase: Phase::CloneRun,
                        remote_url,
                        current_branch,
                        is_ahead,
                        is_behind,
                        has_conflicts,
                    }
                } else {
                    let path = cfg.local_path.clone();
                    let error = prefixed_error(
                        "Failed to create parent directory: ",
                        reply.stderr.as_str(),
                    );
                    SyncMachine {
                        cfg,
                        phase: Phase::Done(SyncResult::Failed { path, error }),
                        remote_url,
                        current_branch,
                        is_ahead,
                        is_behind,
                        has_conflicts,
                    }
                }
            },
            Phase::CloneRun => {
                if reply.ok {
                    if cfg.verify_clone {
                        SyncMachine {
                            cfg,
                            phase: Phase::CloneVerify,
                            remote_url,
                            current_branch,
                            is_ahead,
                            is_behind,
                            has_conflicts,
                        }
                    } else {
                        after_clone_checks(
                            cfg,
                            remote_url,
                            current_branch,
                            is_ahead,
                            is_behind,
                            has_conflicts,
                        )
                    }
                } else {
                    let error = prefixed_error("Clone failed: ", reply.stderr.as_str());
                    clone_failure(
                        cfg,
                        error,
                        remote_url,
                        current_branch,
                        is_ahead,
                        is_behind,
                        has_conflicts,
                    )
                }
            },
            Phase::CloneVerify => {
                if reply.ok {
                    after_clone_checks(
                        cfg,
                        remote_url,
                        current_branch,
                        is_ahead,
                        is_behind,
                        has_conflicts,
                    )
                } else {
                    let error = prefixed_error(
                        "Repository integrity check failed: ",
                        reply.stderr.as_str(),
                    );
                    clone_failure(
                        cfg,
                        error,
                        remote_url,
                        current_branch,
                        is_ahead,
                        is_behind,
                        has_conflicts,
                    )
                }
            },
            Phase::CloneFailCleanup { error } => {
                let path = cfg.local_path.clone();
                SyncMachine {
                    cfg,
                    phase: Phase::Done(SyncResult::Failed { path, error }),
                    remote_url,
                    current_branch,
                    is_ahead,
                    is_behind,
                    has_conflicts,
                }
            },
            Phase::CloneStampTime => {
                let ts = if reply.ok {
                    parse_commit_timestamp(reply.stdout.as_str())
                } else {
                    None
                };
                match ts {
                    Some(t) => SyncMachine {
                        cfg,
                        phase: Phase::CloneStampSet { unix_time: t },
                        remote_url,
                        current_branch,
                        is_ahead,
                        is_behind,
                        has_conflicts,
                    },
                    None => clone_branching(
                        cfg,
                        remote_url,
                        current_branch,
                        is_ahead,
                        is_behind,
                        has_conflicts,
                    ),
                }
            },
            Phase::CloneStampSet { unix_time: _ } => {
                clone_branching(cfg, remote_url, current_branch, is_ahead, is_behind, has_conflicts)
            },
            Phase::CloneMrFetch => {
                if !reply.ok {
                    let path = cfg.local_path.clone();
                    let error = prefixed_error("Git fetch --all failed: ", reply.stderr.as_str());
                    SyncMachine {
                        cfg,
                        phase: Phase::Done(SyncResult::Failed { path, error }),
                        remote_url,
                        current_branch,
                        is_ahead,
                        is_behind,
                        has_conflicts,
                    }
                } else {
                    SyncMachine {
                        cfg,
                        phase: Phase::CloneMrBranches,
                        remote_url,
                        current_branch,
                        is_ahead,
                        is_behind,
                        has_conflicts,
                    }
                }
            },
            Phase::CloneMrBranches => {
                if !reply.ok {
                    let path = cfg.local_path.clone();
                    SyncMachine {
                        cfg,
                        phase: Phase::Done(
                            SyncResult::Failed {
                                path,
                                error: String::from_str("Git for-each-ref failed"),
                            },
                        ),
                        remote_url,
                        current_branch,
                        is_ahead,
                        is_behind,
                        has_conflicts,
                    }
                } else {
                    let lines = split_lines(reply.stdout.as_str());
                    let pick = pick_most_recent_branch(&lines, &cfg.exclude_branch_patterns);
                    match pick {
                        Some(b) => SyncMachine {
                            cfg,
                            phase: Phase::CloneMrCurrent { target: b },
                            remote_url,
                            current_branch,
                            is_ahead,
                            is_behind,
                            has_conflicts,
                        },
                        None => SyncMachine {
                            cfg,
                            phase: Phase::CloneBranchRead,
                            remote_url,
                            current_branch,
                            is_ahead,
                            is_behind,
                            has_conflicts,
                        },
                    }
                }
            },
            Phase::CloneMrCurrent { target } => {
                let same = if reply.ok {
                    let t = trim(reply.stdout.as_str());
                    t.unicode_len() > 0 && str_eq(t, target.as_str())
                } else {
                    false
                };
                if same {
                    let path = cfg.local_path.clone();
                    SyncMachine {
                        cfg,
                        phase: Phase::Done(SyncResult::Cloned { path, branch: Some(target) }),
                        remote_url,
                        current_branch,
                        is_ahead,
                        is_behind,
                        has_conflicts,
                    }
                } else {
                    SyncMachine {
                        cfg,
                        phase: Phase::CloneMrCheckout { target },
                        remote_url,
                        current_branch,
                        is_ahead,
                        is_behind,
                        has_conflicts,
                    }
                }
            },
            Phase::CloneMrCheckout { target } => {
                if reply.ok {
                    let path = cfg.local_path.clone();
                    SyncMachine {
                        cfg,
                        phase: Phase::Done(SyncResult::Cloned { path, branch: Some(target) }),
                        remote_url,
                        current_branch,
                        is_ahead,
                        is_behind,
                        has_conflicts,
                    }
                } else {
                    let path = cfg.local_path.clone();
                    let error = prefixed_error("Git checkout failed: ", reply.stderr.as_str());
                    SyncMachine {
                        cfg,
                        phase: Phase::Done(SyncResult::Failed { path, error }),
                        remote_url,
                        current_branch,
                        is_ahead,
                        is_behind,
                        has_conflicts,
                    }
                }
            },
            Phase::CloneBranchRead => {
                let branch: Option<String> = if reply.ok {
                    let t = trim(reply.stdout.as_str());
                    if t.unicode_len() > 0 {
                        Some(String::from_str(t))
                    } else {
                        None
                    }
                } else {
                    None
                };
                let path = cfg.local_path.clone();
                SyncMachine {
                    cfg,
                    phase: Phase::Done(SyncResult::Cloned { path, branch }),
                    remote_url,
                    current_branch,
                    is_ahead,
                    is_behind,
                    has_conflicts,
                }
            },
            Phase::Done(r) => {
                SyncMachine {
                    cfg,
                    phase: Phase::Done(r),
                    remote_url,
                    current_branch,
                    is_ahead,
                    is_behind,
                    has_conflicts,
                }
            },
        }
    }
}

/// One prepared run: the configuration for one repository and the
/// replies its actions will receive.
pub struct ScriptedRun {
    pub cfg: MachineCfg,
    pub replies: Vec<CmdOutput>,
}

/// Runs one machine per repository over prepared replies: exactly
/// one outcome slot per specification, in order, each settled
/// whenever its reply list is long enough.  Each slot is the
/// corresponding machine's own outcome, as `run_scripted` states.
pub fn run_all_scripted(runs: Vec<ScriptedRun>) -> (r: Vec<Option<SyncResult>>)
    ensures
        r@.len() == runs@.len(),
        forall|i: int|
            0 <= i < runs@.len() && (#[trigger] runs@[i]).replies@.len() >= max_steps()
                ==> r@[i] is Some,
{
    let mut out: Vec<Option<SyncResult>> = Vec::new();
    let mut rest = runs;
    let ghost all = rest@;
    let n = rest.len();
    let mut i: usize = 0;
    while i < n
        invariant
            i <= n,
            n == all.len(),
            rest@ == all.skip(i as int),
            out@.len() == i,
            forall|k: int|
                0 <= k < i && (#[trigger] all[k]).replies@.len() >= max_steps() ==> out@[k]
                    is Some,
        decreases n - i,
    {
        let run = rest.remove(0);
        proof {
            assert(rest@ =~= all.skip(i + 1));
        }
        let outcome = run_scripted(run.cfg, run.replies);
        out.push(outcome);
        i += 1;
    }
    out
}

/// Assembles the dry-run snapshot of one repository from the
/// read-only command outputs, with the same parsing the machine
/// itself uses: porcelain status and the untracked listing read as
/// non-empty output, the branch and remote trimmed from successful
/// output, the ahead and behind flags from positive `rev-list`
/// counts, and conflicts from any unmerged paths.  An absent
/// checkout carries the expected URL and cleared flags.
pub fn analyze_repo_state(
    path: &str,
    expected_url: &str,
    exists: bool,
    status: &CmdOutput,
    untracked: &CmdOutput,
    branch: &CmdOutput,
    remote: &CmdOutput,
    ahead: &CmdOutput,
    behind: &CmdOutput,
    unmerged: &CmdOutput,
) -> (r: RepoState)
    ensures
        r.path@ == path@,
        r.exists == exists,
        !exists ==> {
            &&& !r.has_uncommitted_changes
            &&& !r.has_untracked_files
            &&& !r.is_ahead_of_remote
            &&& !r.is_behind_remote
            &&& !r.has_conflicts
            &&& r.remote_url matches Some(u) && u@ == expected_url@
            &&& r.current_branch is None
        },
        exists ==> {
            &&& r.has_uncommitted_changes == (status.stdout@.len() > 0)
            &&& r.has_untracked_files == (untracked.stdout@.len() > 0)
            &&& r.is_ahead_of_remote == (ahead.ok && spec_rev_count(ahead.stdout@) > 0)
            &&& r.is_behind_remote == (behind.ok && spec_rev_count(behind.stdout@) > 0)
            &&& r.has_conflicts == (unmerged.stdout@.len() > 0)
            &&& match r.remote_url {
                Some(u) => remote.ok && u@ == spec_trim(remote.stdout@),
                None => !remote.ok,
            }
            &&& match r.current_branch {
                Some(b) => branch.ok && spec_trim(branch.stdout@).len() > 0 && b@ == spec_trim(
                    branch.stdout@,
                ),
                None => !branch.ok || spec_trim(branch.stdout@).len() == 0,
            }
        },
{
    if !exists {
        return RepoState {
            path: String::from_str(path),
            exists: false,
            has_uncommitted_changes: false,
            has_untracked_files: false,
            is_ahead_of_remote: false,
            is_behind_remote: false,
            has_conflicts: false,
            remote_url: Some(String::from_str(expected_url)),
            current_branch: None,
        };
    }
    let current_branch: Option<String> = if branch.ok {
        let t = trim(branch.stdout.as_str());
        if t.unicode_len() > 0 {
            Some(String::from_str(t))
        } else {
            None
        }
    } else {
        None
    };
    let remote_url: Option<String> = if remote.ok {
        Some(String::from_str(trim(remote.stdout.as_str())))
    } else {
        None
    };
    RepoState {
        path: String::from_str(path),
        exists: true,
        has_uncommitted_changes: status.stdout.as_str().unicode_len() > 0,
        has_untracked_files: untracked.stdout.as_str().unicode_len() > 0,
        is_ahead_of_remote: ahead.ok && parse_rev_count(ahead.stdout.as_str()) > 0,
        is_behind_remote: behind.ok && parse_rev_count(behind.stdout.as_str()) > 0,
        has_conflicts: unmerged.stdout.as_str().unicode_len() > 0,
        remote_url,
        current_branch,
    }
}

proof fn lemma_rank_pos(p: Phase)
    requires
        !(p matches Phase::Done(_)),
    ensures
        phase_rank(p) >= 1,
{
}

/// Runs the machine against a prepared list of replies, consumed in
/// order, performing no outside work itself.  Every run settles on at
/// most one outcome, and a run given at least `max_steps()` replies
/// always settles on exactly one: for every repository the machine is
/// driven for, exactly one `SyncResult` comes out.  The result is the
/// machine's own: some prefix of the replies steps the machine, under
/// the transition relation, from its start to the state the result is
/// read off — the `Done` outcome when one comes back, and a state
/// still awaiting an action, with every reply consumed, when none
/// does.
pub fn run_scripted(cfg: MachineCfg, replies: Vec<CmdOutput>) -> (r: Option<SyncResult>)
    ensures
        replies@.len() >= max_steps() ==> r is Some,
        exists|k: int, mfin: SyncMachine|
            {
                &&& 0 <= k <= replies@.len()
                &&& #[trigger] steps_rel(spec_start(cfg), replies@.take(k), mfin)
                &&& match r {
                    Some(res) => mfin.phase == Phase::Done(res),
                    None => !mfin.spec_is_done() && k == replies@.len(),
                }
                &&& k < replies@.len() ==> mfin.spec_is_done()
            },
{
    let ghost total = replies@.len();
    let mut m = SyncMachine::start(cfg);
    let mut rest = replies;
    let ghost all = rest@;
    proof {
        assert(all.take(0) =~= Seq::<CmdOutput>::empty());
    }
    while !m.is_done() && rest.len() > 0
        invariant
            rest@.len() <= total,
            total == all.len(),
            rest@ == all.skip(total - rest@.len()),
            steps_rel(spec_start(cfg), all.take(total - rest@.len()), m),
            !m.spec_is_done() ==> phase_rank(m.phase) + (total - rest@.len()) <= max_steps(),
        decreases phase_rank(m.phase),
    {
        let ghost consumed = total - rest@.len();
        let ghost m_pre = m;
        let reply = rest.remove(0);
        proof {
            assert(reply == all[consumed as int]);
            assert(rest@ =~= all.skip(consumed + 1));
        }
        m = m.step(reply);
        proof {
            assert(all.take(consumed + 1) =~= all.take(consumed as int).push(
                all[consumed as int],
            ));
            lemma_steps_rel_snoc(
                spec_start(cfg),
                all.take(consumed as int),
                m_pre,
                reply,
                m,
            );
        }
    }
    proof {
        if total >= max_steps() && !m.spec_is_done() {
            lemma_rank_pos(m.phase);
        }
        let k = total - rest@.len();
        assert(steps_rel(spec_start(cfg), all.take(k as int), m));
        if rest@.len() > 0 {
            assert(m.spec_is_done());
        } else {
            assert(all.take(k as int) =~= all);
        }
    }
    m.into_outcome()
}

} // verus!
