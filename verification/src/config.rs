//! Configuration model: the recognized options with their defaults,
//! and the filter computations derived from them.
//!
//! The structures hold plain strings and numbers.  Reading a
//! configuration file, expanding environment placeholders in paths,
//! and environment-derived defaults are the embedding application's
//! concern; the defaults here use the fixed fallback locations.

use vstd::prelude::*;

use crate::strutil::str_eq;

verus! {

/// Main configuration.
pub struct Config {
    /// Base directory for repository synchronization.
    pub base_directory: String,
    /// Repository filtering configuration.
    pub filters: FilterConfig,
    /// GitHub authentication and discovery settings.
    pub github: GitHubConfig,
    /// Synchronization behavior settings.
    pub sync: SyncConfig,
    /// Daemon configuration.
    pub daemon: DaemonConfig,
    /// Logging configuration.
    pub logging: LoggingConfig,
    /// Directory structure organization.
    pub organization: OrganizationConfig,
    /// Advanced settings.
    pub advanced: AdvancedConfig,
}

/// Repository filtering configuration.
pub struct FilterConfig {
    /// Age-based filtering.
    pub age: AgeFilter,
    /// Size-based filtering.
    pub size: SizeFilter,
}

/// Age-based repository filtering: "1month", "3month" or "6month".
pub struct AgeFilter {
    pub max_age: Option<String>,
}

/// Size-based repository filtering: "100MB" or "1GB".
pub struct SizeFilter {
    pub max_size: Option<String>,
}

/// GitHub configuration.
pub struct GitHubConfig {
    /// Authentication method: "auto", "gh_cli" or "token".
    pub auth_method: String,
    /// GitHub username; detected from the credentials when absent.
    pub username: Option<String>,
    /// Include organization repositories.
    pub include_organizations: bool,
    /// Repository exclusion patterns (glob, `*` matches any run).
    pub exclude_patterns: Vec<String>,
    /// Include forked repositories.
    pub include_forks: bool,
}

/// Synchronization configuration.
pub struct SyncConfig {
    /// Sync strategy: "safe-pull", "fetch-only", "interactive" or
    /// "most-recent-branch".
    pub strategy: String,
    /// Maximum parallel operations.
    pub max_parallel: usize,
    /// Timeout for one repository operation, in seconds.
    pub timeout: u64,
    /// Auto-stash uncommitted changes (a separate mode; the engine
    /// itself never stashes).
    pub auto_stash: bool,
    /// Fast-forward only pulls.
    pub fast_forward_only: bool,
}

/// Daemon configuration.
pub struct DaemonConfig {
    /// Enable daemon mode.
    pub enabled: bool,
    /// Sync interval, as a duration string such as "30m".
    pub interval: String,
    /// PID file location.
    pub pid_file: String,
    /// Log file location.
    pub log_file: String,
}

/// Logging configuration.
pub struct LoggingConfig {
    /// Log level.
    pub level: String,
    /// Log format.
    pub format: String,
    /// Enable colored output.
    pub color: bool,
}

/// Organization directory configuration.
pub struct OrganizationConfig {
    /// Create separate directories for organizations.
    pub separate_org_dirs: bool,
    /// How to handle repository name conflicts: "prefix-org",
    /// "suffix" or "skip".
    pub conflict_resolution: String,
}

/// Advanced configuration options.
pub struct AdvancedConfig {
    /// Preserve git timestamps on the checkout directory.
    pub preserve_timestamps: bool,
    /// Verify repository integrity after clone.
    pub verify_clone: bool,
    /// Clean up failed clone attempts.
    pub cleanup_on_error: bool,
    /// Repository metadata cache duration.
    pub cache_duration: String,
}

/// Default authentication method.
pub fn default_auth_method() -> (r: String)
    ensures
        r@ == "auto"@,
{
    String::from_str("auto")
}

/// Default for the options that are on out of the box.
pub fn default_true() -> (r: bool)
    ensures
        r == true,
{
    true
}

/// Default sync strategy.
pub fn default_sync_strategy() -> (r: String)
    ensures
        r@ == "safe-pull"@,
{
    String::from_str("safe-pull")
}

/// Default base parallelism.
pub fn default_max_parallel() -> (r: usize)
    ensures
        r == 4,
{
    4
}

/// Default per-operation timeout in seconds.
pub fn default_timeout() -> (r: u64)
    ensures
        r == 300,
{
    300
}

/// Default daemon sync interval.
pub fn default_interval() -> (r: String)
    ensures
        r@ == "30m"@,
{
    String::from_str("30m")
}

/// Default log level.
pub fn default_log_level() -> (r: String)
    ensures
        r@ == "info"@,
{
    String::from_str("info")
}

/// Default log format.
pub fn default_log_format() -> (r: String)
    ensures
        r@ == "compact"@,
{
    String::from_str("compact")
}

/// Default conflict resolution policy.
pub fn default_conflict_resolution() -> (r: String)
    ensures
        r@ == "prefix-org"@,
{
    String::from_str("prefix-org")
}

/// Default metadata cache duration.
pub fn default_cache_duration() -> (r: String)
    ensures
        r@ == "1h"@,
{
    String::from_str("1h")
}

impl Default for FilterConfig {
    fn default() -> (r: Self)
        ensures
            r.age.max_age matches Some(a) && a@ == "3month"@,
            r.size.max_size matches Some(s) && s@ == "1GB"@,
    {
        Self {
            age: AgeFilter { max_age: Some(String::from_str("3month")) },
            size: SizeFilter { max_size: Some(String::from_str("1GB")) },
        }
    }
}

impl Default for GitHubConfig {
    fn default() -> (r: Self)
        ensures
            r.auth_method@ == "auto"@,
            r.username is None,
            r.include_organizations == true,
            r.include_forks == false,
            r.exclude_patterns@.len() == 4,
            r.exclude_patterns@[0]@ == "archived-*"@,
            r.exclude_patterns@[1]@ == "test-*"@,
            r.exclude_patterns@[2]@ == "*.github.io"@,
            r.exclude_patterns@[3]@ == "fork-*"@,
    {
        let mut patterns: Vec<String> = Vec::new();
        patterns.push(String::from_str("archived-*"));
        patterns.push(String::from_str("test-*"));
        patterns.push(String::from_str("*.github.io"));
        patterns.push(String::from_str("fork-*"));
        Self {
            auth_method: default_auth_method(),
            username: None,
            include_organizations: default_true(),
            exclude_patterns: patterns,
            include_forks: false,
        }
    }
}

impl Default for SyncConfig {
    fn default() -> (r: Self)
        ensures
            r.strategy@ == "safe-pull"@,
            r.max_parallel == 4,
            r.timeout == 300,
            r.auto_stash == false,
            r.fast_forward_only == true,
    {
        Self {
            strategy: default_sync_strategy(),
            max_parallel: default_max_parallel(),
            timeout: default_timeout(),
            auto_stash: false,
            fast_forward_only: default_true(),
        }
    }
}

impl Default for DaemonConfig {
    fn default() -> (r: Self)
        ensures
            r.enabled == false,
            r.interval@ == "30m"@,
            r.pid_file@ == "/tmp/reposentry.pid"@,
            r.log_file@ == "/tmp/reposentry-daemon.log"@,
    {
        Self {
            enabled: false,
            interval: default_interval(),
            pid_file: String::from_str("/tmp/reposentry.pid"),
            log_file: String::from_str("/tmp/reposentry-daemon.log"),
        }
    }
}

impl Default for LoggingConfig {
    fn default() -> (r: Self)
        ensures
            r.level@ == "info"@,
            r.format@ == "compact"@,
            r.color == true,
    {
        Self {
            level: default_log_level(),
            format: default_log_format(),
            color: default_true(),
        }
    }
}

impl Default for OrganizationConfig {
    fn default() -> (r: Self)
        ensures
            r.separate_org_dirs == true,
            r.conflict_resolution@ == "prefix-org"@,
    {
        Self {
            separate_org_dirs: default_true(),
            conflict_resolution: default_conflict_resolution(),
        }
    }
}

impl Default for AdvancedConfig {
    fn default() -> (r: Self)
        ensures
            r.preserve_timestamps == true,
            r.verify_clone == true,
            r.cleanup_on_error == true,
            r.cache_duration@ == "1h"@,
    {
        Self {
            preserve_timestamps: default_true(),
            verify_clone: default_true(),
            cleanup_on_error: default_true(),
            cache_duration: default_cache_duration(),
        }
    }
}

impl Default for Config {
    fn default() -> (r: Self)
        ensures
            r.base_directory@ == "${HOME}/dev"@,
            r.github.include_organizations == true,
            r.github.include_forks == false,
            r.sync.strategy@ == "safe-pull"@,
            r.sync.max_parallel == 4,
            r.sync.timeout == 300,
            r.sync.auto_stash == false,
            r.sync.fast_forward_only == true,
            r.daemon.enabled == false,
            r.organization.separate_org_dirs == true,
            r.advanced.preserve_timestamps == true,
            r.advanced.verify_clone == true,
            r.advanced.cleanup_on_error == true,
            r.filters.age.max_age matches Some(a) && a@ == "3month"@,
            r.filters.size.max_size matches Some(s) && s@ == "1GB"@,
    {
        Self {
            base_directory: String::from_str("${HOME}/dev"),
            filters: FilterConfig::default(),
            github: GitHubConfig::default(),
            sync: SyncConfig::default(),
            daemon: DaemonConfig::default(),
            logging: LoggingConfig::default(),
            organization: OrganizationConfig::default(),
            advanced: AdvancedConfig::default(),
        }
    }
}

/// The age limit, in seconds, that a `max_age` keyword denotes.
pub open spec fn spec_age_limit(s: Seq<char>) -> Option<i64> {
    if s == "1month"@ {
        Some(2592000int as i64)
    } else if s == "3month"@ {
        Some(7776000int as i64)
    } else if s == "6month"@ {
        Some(15552000int as i64)
    } else {
        None
    }
}

/// The size limit, in bytes, that a `max_size` keyword denotes.
pub open spec fn spec_size_limit(s: Seq<char>) -> Option<u64> {
    if s == "100MB"@ {
        Some(104857600u64)
    } else if s == "1GB"@ {
        Some(1073741824u64)
    } else {
        None
    }
}

impl Config {
    /// The configured age filter as a number of seconds, when the
    /// keyword is one of "1month" (30 days), "3month" (90 days) or
    /// "6month" (180 days).
    pub fn age_filter_duration(&self) -> (r: Option<i64>)
        ensures
            r == match self.filters.age.max_age {
                Some(a) => spec_age_limit(a@),
                None => None::<i64>,
            },
    {
        match &self.filters.age.max_age {
            Some(a) => {
                if str_eq(a.as_str(), "1month") {
                    Some(2592000)
                } else if str_eq(a.as_str(), "3month") {
                    Some(7776000)
                } else if str_eq(a.as_str(), "6month") {
                    Some(15552000)
                } else {
                    None
                }
            },
            None => None,
        }
    }

    /// The configured size filter in bytes, when the keyword is one
    /// of "100MB" or "1GB".
    pub fn size_filter_bytes(&self) -> (r: Option<u64>)
        ensures
            r == match self.filters.size.max_size {
                Some(s) => spec_size_limit(s@),
                None => None::<u64>,
            },
    {
        match &self.filters.size.max_size {
            Some(s) => {
                if str_eq(s.as_str(), "100MB") {
                    Some(104857600)
                } else if str_eq(s.as_str(), "1GB") {
                    Some(1073741824)
                } else {
                    None
                }
            },
            None => None,
        }
    }

    /// Whether a repository whose last activity was at
    /// `last_activity_unix` should be filtered out, judged against
    /// `now_unix`.
    pub fn should_filter_by_age(&self, last_activity_unix: i64, now_unix: i64) -> (r: bool)
        ensures
            r == match self.filters.age.max_age {
                Some(a) => match spec_age_limit(a@) {
                    Some(limit) => last_activity_unix < now_unix - limit,
                    None => false,
                },
                None => false,
            },
    {
        match self.age_filter_duration() {
            Some(limit) => {
                let cutoff: i128 = now_unix as i128 - limit as i128;
                (last_activity_unix as i128) < cutoff
            },
            None => false,
        }
    }

    /// Whether a repository of `size_bytes` should be filtered out.
    pub fn should_filter_by_size(&self, size_bytes: u64) -> (r: bool)
        ensures
            r == match self.filters.size.max_size {
                Some(s) => match spec_size_limit(s@) {
                    Some(limit) => size_bytes > limit,
                    None => false,
                },
                None => false,
            },
    {
        match self.size_filter_bytes() {
            Some(limit) => size_bytes > limit,
            None => false,
        }
    }
}

} // verus!
