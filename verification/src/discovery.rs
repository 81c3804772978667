//! Provider-agnostic repository discovery: the uniform repository
//! description the engine consumes, the mapping from a provider's raw
//! record into it, and the configured filters.  Talking to a remote
//! API is the embedding application's side; it hands the raw records
//! in as plain values.

use vstd::prelude::*;

use crate::config::Config;
use crate::ext::path_exists;
use crate::git::spec_repo_directory;
use crate::glob::{matches_exclusion_pattern, spec_excluded};
use crate::strutil::{lemma_filter_push, str_eq};

verus! {

/// Clone method preference for a repository.
#[derive(Debug, Clone, PartialEq, Eq, Structural)]
pub enum CloneMethod {
    /// Use SSH.
    Ssh,
    /// Use HTTPS.
    Https,
}

impl Default for CloneMethod {
    /// SSH is the preferred method out of the box.
    fn default() -> (r: Self)
        ensures
            r == CloneMethod::Ssh,
    {
        CloneMethod::Ssh
    }
}

/// Provider-agnostic repository specification: everything needed to
/// clone and manage one repository, wherever it was discovered.
#[derive(Debug, Clone)]
pub struct RepoSpec {
    /// Repository name.
    pub name: String,
    /// Owner or organization name.
    pub owner: String,
    /// Full clone URL, in the preferred protocol.
    pub clone_url: String,
    /// Alternative clone URL, in the other protocol.
    pub clone_url_alt: Option<String>,
    /// Preferred clone method.
    pub clone_method: CloneMethod,
    /// Absolute local path where this repository lives, fully
    /// resolved before the orchestrator sees it.
    pub local_path: String,
    /// Whether the repository is a fork.
    pub is_fork: bool,
    /// Whether the repository is archived.
    pub is_archived: bool,
    /// Repository size in bytes, when known; used for concurrency
    /// tuning.
    pub size_bytes: Option<u64>,
    /// Default branch hint.
    pub default_branch: Option<String>,
    /// Source provider tag, for logging and display.
    pub provider: String,
}

impl RepoSpec {
    /// The display name, in `owner/name` form.
    pub fn full_name(&self) -> (r: String)
        ensures
            r@ == self.owner@ + "/"@ + self.name@,
    {
        let mut s = self.owner.clone();
        s.append("/");
        s.append(self.name.as_str());
        s
    }

    /// Whether the repository already exists locally: the local path
    /// and its `.git` subdirectory are both on disk.  The answer
    /// depends on the filesystem.
    pub fn exists_locally(&self) -> bool {
        let mut git_dir = self.local_path.clone();
        git_dir.append("/.git");
        path_exists(self.local_path.as_str()) && path_exists(git_dir.as_str())
    }
}

/// The plain image of one raw repository record as a provider's API
/// reports it; the embedding application converts the provider's own
/// type into this one field by field.
#[derive(Debug, Clone)]
pub struct RawRepo {
    pub name: String,
    /// The owning login, when the record carries one.
    pub owner: Option<String>,
    pub ssh_url: Option<String>,
    pub clone_url: Option<String>,
    pub fork: Option<bool>,
    pub archived: Option<bool>,
    /// Size as the provider reports it, in kilobytes.
    pub size_kb: Option<u64>,
    pub default_branch: Option<String>,
    /// Last update time, unix seconds.
    pub updated_at_unix: Option<i64>,
}

/// The size in bytes a kilobyte count denotes, saturating at the
/// type's ceiling.
pub open spec fn spec_kb_to_bytes(kb: u64) -> u64 {
    if kb * 1024 <= u64::MAX {
        (kb * 1024) as u64
    } else {
        u64::MAX
    }
}

fn kb_to_bytes(kb: u64) -> (r: u64)
    ensures
        r == spec_kb_to_bytes(kb),
{
    if kb <= u64::MAX / 1024 {
        kb * 1024
    } else {
        proof {
            assert((kb * 1024) > u64::MAX) by (nonlinear_arith)
                requires
                    kb > u64::MAX / 1024,
            ;
        }
        u64::MAX
    }
}

/// Whether the filters keep a raw record: its name matches no
/// exclusion pattern, forks only when included, and the configured
/// age and size cutoffs hold.
pub open spec fn spec_keep_repo(r: RawRepo, config: Config, now_unix: i64) -> bool {
    &&& !spec_excluded(r.name@, config.github.exclude_patterns@.map_values(|p: String| p@))
    &&& !(r.fork == Some(true) && !config.github.include_forks)
    &&& !match (r.updated_at_unix, config.filters.age.max_age) {
        (Some(t), Some(a)) => match crate::config::spec_age_limit(a@) {
            Some(limit) => t < now_unix - limit,
            None => false,
        },
        _ => false,
    }
    &&& !match (r.size_kb, config.filters.size.max_size) {
        (Some(kb), Some(s)) => match crate::config::spec_size_limit(s@) {
            Some(limit) => spec_kb_to_bytes(kb) > limit,
            None => false,
        },
        _ => false,
    }
}

/// Applies the configured filters, keeping the order of the records.
pub fn apply_filters(config: &Config, repos: Vec<RawRepo>, now_unix: i64) -> (r: Vec<RawRepo>)
    ensures
        r@ == repos@.filter(|x: RawRepo| spec_keep_repo(x, *config, now_unix)),
{
    let n = repos.len();
    let mut out: Vec<RawRepo> = Vec::new();
    let mut rest = repos;
    let ghost all = rest@;
    let mut i: usize = 0;
    proof {
        assert(all.take(0).filter(|x: RawRepo| spec_keep_repo(x, *config, now_unix))
            =~= Seq::<RawRepo>::empty());
    }
    while i < n
        invariant
            i <= n,
            n == all.len(),
            rest@ == all.skip(i as int),
            out@ == all.take(i as int).filter(|x: RawRepo| spec_keep_repo(x, *config, now_unix)),
        decreases n - i,
    {
        proof {
            assert(all.take(i + 1) =~= all.take(i as int).push(all[i as int]));
            lemma_filter_push(
                all.take(i as int),
                all[i as int],
                |x: RawRepo| spec_keep_repo(x, *config, now_unix),
            );
        }
        let item = rest.remove(0);
        proof {
            assert(rest@ =~= all.skip(i + 1));
        }
        let excluded = matches_exclusion_pattern(
            item.name.as_str(),
            &config.github.exclude_patterns,
        );
        let fork_blocked = match item.fork {
            Some(f) => f && !config.github.include_forks,
            None => false,
        };
        let too_old = match item.updated_at_unix {
            Some(t) => config.should_filter_by_age(t, now_unix),
            None => false,
        };
        let too_big = match item.size_kb {
            Some(kb) => config.should_filter_by_size(kb_to_bytes(kb)),
            None => false,
        };
        if !excluded && !fork_blocked && !too_old && !too_big {
            out.push(item);
        }
        i += 1;
    }
    proof {
        assert(all.take(n as int) =~= all);
    }
    out
}

/// Whether some element already claims the local path.
pub open spec fn has_local_path(s: Seq<RepoSpec>, p: Seq<char>) -> bool {
    exists|i: int| 0 <= i < s.len() && (#[trigger] s[i]).local_path@ == p
}

/// Whether all local paths in the sequence are distinct.
pub open spec fn unique_local_paths(s: Seq<RepoSpec>) -> bool {
    forall|i: int, j: int| 0 <= i < j < s.len() ==> s[i].local_path@ != s[j].local_path@
}

/// The specifications with every repeated local path dropped: the
/// first holder of each path stays, in order.
pub open spec fn spec_dedup_paths(s: Seq<RepoSpec>) -> Seq<RepoSpec>
    decreases s.len(),
{
    if s.len() == 0 {
        Seq::empty()
    } else {
        let d = spec_dedup_paths(s.drop_last());
        if has_local_path(d, s.last().local_path@) {
            d
        } else {
            d.push(s.last())
        }
    }
}

/// Drops the specifications whose local path an earlier one already
/// claims: no two dispatched operations may target the same checkout.
pub fn dedup_by_local_path(specs: Vec<RepoSpec>) -> (r: Vec<RepoSpec>)
    ensures
        r@ == spec_dedup_paths(specs@),
        unique_local_paths(r@),
{
    let n = specs.len();
    let mut out: Vec<RepoSpec> = Vec::new();
    let mut rest = specs;
    let ghost all = rest@;
    let mut i: usize = 0;
    proof {
        assert(all.take(0) =~= Seq::<RepoSpec>::empty());
    }
    while i < n
        invariant
            i <= n,
            n == all.len(),
            rest@ == all.skip(i as int),
            out@ == spec_dedup_paths(all.take(i as int)),
            unique_local_paths(out@),
        decreases n - i,
    {
        proof {
            assert(all.take(i + 1).drop_last() =~= all.take(i as int));
            assert(all.take(i + 1).last() == all[i as int]);
        }
        let item = rest.remove(0);
        proof {
            assert(rest@ =~= all.skip(i + 1));
        }
        let mut taken = false;
        let m = out.len();
        let mut k: usize = 0;
        while k < m
            invariant
                k <= m,
                m == out@.len(),
                taken == exists|t: int|
                    0 <= t < k && (#[trigger] out@[t]).local_path@ == item.local_path@,
                item == all[i as int],
            decreases m - k,
        {
            if str_eq(out[k].local_path.as_str(), item.local_path.as_str()) {
                taken = true;
                proof {
                    assert((out@[k as int]).local_path@ == item.local_path@);
                }
                k = m;
            } else {
                k += 1;
            }
        }
        if !taken {
            out.push(item);
        }
        i += 1;
    }
    proof {
        assert(all.take(n as int) =~= all);
    }
    out
}

/// Maps a raw provider record into the engine's repository
/// specification: SSH is preferred when both URLs exist, the local
/// path follows the organization policy, and the provider's kilobyte
/// size becomes bytes.
pub fn repo_to_spec(config: &Config, raw: &RawRepo) -> (r: RepoSpec)
    ensures
        r.name@ == raw.name@,
        r.owner@ == match raw.owner {
            Some(o) => o@,
            None => "unknown"@,
        },
        r.local_path@ == spec_repo_directory(
            config.base_directory@,
            config.organization.separate_org_dirs,
            config.organization.conflict_resolution@,
            match raw.owner {
                Some(o) => o@,
                None => "unknown"@,
            },
            raw.name@,
        ),
        match (raw.ssh_url, raw.clone_url) {
            (Some(ssh), _) => {
                &&& r.clone_url@ == ssh@
                &&& r.clone_method == CloneMethod::Ssh
                &&& match (r.clone_url_alt, raw.clone_url) {
                    (Some(a), Some(h)) => a@ == h@,
                    (None, None) => true,
                    _ => false,
                }
            },
            (None, Some(https)) => {
                &&& r.clone_url@ == https@
                &&& r.clone_method == CloneMethod::Https
                &&& r.clone_url_alt is None
            },
            (None, None) => {
                &&& r.clone_url@ == "git@github.com:"@ + (match raw.owner {
                    Some(o) => o@,
                    None => "unknown"@,
                }) + "/"@ + raw.name@ + ".git"@
                &&& r.clone_method == CloneMethod::Ssh
                &&& r.clone_url_alt is None
            },
        },
        r.is_fork == (raw.fork == Some(true)),
        r.is_archived == (raw.archived == Some(true)),
        match (raw.size_kb, r.size_bytes) {
            (Some(kb), Some(b)) => b == spec_kb_to_bytes(kb),
            (None, None) => true,
            _ => false,
        },
        match (raw.default_branch, r.default_branch) {
            (Some(d), Some(b)) => b@ == d@,
            (None, None) => true,
            _ => false,
        },
        r.provider@ == "github"@,
{
    let owner: String = match &raw.owner {
        Some(o) => o.clone(),
        None => String::from_str("unknown"),
    };
    let local_path = crate::git::repo_directory(
        config.base_directory.as_str(),
        config.organization.separate_org_dirs,
        config.organization.conflict_resolution.as_str(),
        owner.as_str(),
        raw.name.as_str(),
    );
    let (clone_url, clone_url_alt, clone_method): (String, Option<String>, CloneMethod) =
        match (&raw.ssh_url, &raw.clone_url) {
        (Some(ssh), Some(https)) => (ssh.clone(), Some(https.clone()), CloneMethod::Ssh),
        (Some(ssh), None) => (ssh.clone(), None, CloneMethod::Ssh),
        (None, Some(https)) => (https.clone(), None, CloneMethod::Https),
        (None, None) => {
            let mut u = String::from_str("git@github.com:");
            u.append(owner.as_str());
            u.append("/");
            u.append(raw.name.as_str());
            u.append(".git");
            (u, None, CloneMethod::Ssh)
        },
    };
    RepoSpec {
        name: raw.name.clone(),
        owner,
        clone_url,
        clone_url_alt,
        clone_method,
        local_path,
        is_fork: match raw.fork {
            Some(f) => f,
            None => false,
        },
        is_archived: match raw.archived {
            Some(a) => a,
            None => false,
        },
        size_bytes: match raw.size_kb {
            Some(kb) => Some(kb_to_bytes(kb)),
            None => None,
        },
        default_branch: match &raw.default_branch {
            Some(d) => Some(d.clone()),
            None => None,
        },
        provider: String::from_str("github"),
    }
}

} // verus!
