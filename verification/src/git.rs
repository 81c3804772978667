//! The textual half of the git executor: URL normalization, output
//! classification, branch selection from `for-each-ref` output, and
//! checkout directory policy.  Running the `git` subprocesses and
//! feeding their output to these functions is the embedding
//! application's side of the bargain; the per-repository decision
//! procedure over these results lives in the machine module.

use vstd::prelude::*;

use crate::config::Config;
use crate::glob::{matches_exclusion_pattern, spec_excluded};
use crate::strutil::{
    all_digits, contains_sub, ends_with, parse_u64, spec_contains_sub, spec_digits_val,
    spec_ends_with, spec_lower_seq, spec_starts_with, spec_trim, starts_with, str_eq, to_lower,
    trim,
};

verus! {

/// Git operations handler: the configuration-dependent pure logic of
/// the git layer.
pub struct GitClient {
    pub config: Config,
}

/// Represents the state of a git repository for sync decision making.
#[derive(Debug, Clone)]
pub struct RepoState {
    pub path: String,
    pub exists: bool,
    pub has_uncommitted_changes: bool,
    pub has_untracked_files: bool,
    pub is_ahead_of_remote: bool,
    pub is_behind_remote: bool,
    pub has_conflicts: bool,
    pub remote_url: Option<String>,
    pub current_branch: Option<String>,
}

/// Result of a sync operation.
#[derive(Debug, Clone)]
pub enum SyncResult {
    /// Repository was successfully cloned.
    Cloned { path: String, branch: Option<String> },
    /// Repository was successfully pulled.
    Pulled { path: String, commits_updated: u32, branch: Option<String> },
    /// Branch was switched to a more recent one before pull.
    BranchSwitched { path: String, from_branch: String, to_branch: String, commits_updated: u32 },
    /// Repository was fetched but not pulled.
    FetchedOnly { path: String, reason: String },
    /// Repository was already up to date.
    UpToDate { path: String, branch: Option<String> },
    /// Repository was skipped for safety or configuration reasons.
    Skipped { path: String, reason: String },
    /// Operation failed with an error.
    Failed { path: String, error: String },
}

/// The index of the first occurrence of `c` in `s`, or `-1`.
pub open spec fn first_index_of(s: Seq<char>, c: char) -> int
    decreases s.len(),
{
    if s.len() == 0 {
        -1
    } else if s[0] == c {
        0
    } else {
        let r = first_index_of(s.drop_first(), c);
        if r < 0 {
            -1
        } else {
            r + 1
        }
    }
}

proof fn lemma_first_index_bounds(s: Seq<char>, c: char)
    ensures
        -1 <= first_index_of(s, c) < s.len(),
        first_index_of(s, c) >= 0 ==> s[first_index_of(s, c)] == c,
    decreases s.len(),
{
    if s.len() > 0 && s[0] != c {
        lemma_first_index_bounds(s.drop_first(), c);
    }
}

proof fn lemma_first_index_at(s: Seq<char>, c: char, i: int)
    requires
        0 <= i < s.len(),
        s[i] == c,
        forall|j: int| 0 <= j < i ==> s[j] != c,
    ensures
        first_index_of(s, c) == i,
    decreases i,
{
    if i > 0 {
        lemma_first_index_at(s.drop_first(), c, i - 1);
    }
}

proof fn lemma_first_index_none(s: Seq<char>, c: char)
    requires
        forall|j: int| 0 <= j < s.len() ==> s[j] != c,
    ensures
        first_index_of(s, c) == -1,
    decreases s.len(),
{
    if s.len() > 0 {
        lemma_first_index_none(s.drop_first(), c);
    }
}

/// Rewrites an scp-style `git@<host>:<path>` URL to
/// `https://<host>/<path>`; any other shape is left alone.
pub open spec fn spec_despecialize_url(u: Seq<char>) -> Seq<char> {
    let colon = first_index_of(u, ':');
    if spec_starts_with(u, "git@"@) && colon >= 4 {
        "https://"@ + u.subrange(4, colon) + "/"@ + u.skip(colon + 1)
    } else {
        u
    }
}

/// Removes a trailing `.git`.
pub open spec fn spec_strip_dot_git(u: Seq<char>) -> Seq<char> {
    if spec_ends_with(u, ".git"@) {
        u.take(u.len() - 4)
    } else {
        u
    }
}

/// URL normalization for remote-mismatch detection: `git@<host>:`
/// becomes `https://<host>/`, a trailing `.git` is dropped, and the
/// result is lowercased.  Equal normal forms denote the same remote.
pub open spec fn spec_normalize_url(u: Seq<char>) -> Seq<char> {
    spec_lower_seq(spec_strip_dot_git(spec_despecialize_url(u)))
}

fn find_colon(u: &str) -> (r: Option<usize>)
    ensures
        match r {
            Some(i) => first_index_of(u@, ':') == i as int,
            None => first_index_of(u@, ':') == -1,
        },
{
    let n = u.unicode_len();
    let mut i: usize = 0;
    while i < n
        invariant
            i <= n,
            n == u@.len(),
            forall|j: int| 0 <= j < i ==> u@[j] != ':',
        decreases n - i,
    {
        if u.get_char(i) == ':' {
            proof {
                lemma_first_index_at(u@, ':', i as int);
            }
            return Some(i);
        }
        i += 1;
    }
    proof {
        lemma_first_index_none(u@, ':');
    }
    None
}

/// Normalizes a remote URL as `spec_normalize_url` describes.
pub fn normalize_url(u: &str) -> (r: String)
    ensures
        r@ == spec_normalize_url(u@),
{
    proof {
        reveal_strlit("git@");
        reveal_strlit(".git");
        lemma_first_index_bounds(u@, ':');
    }
    let colon = find_colon(u);
    let rewritten: String = if starts_with(u, "git@") {
        match colon {
            Some(ci) => {
                if ci >= 4 {
                    let ulen = u.unicode_len();
                    let mut out = String::from_str("https://");
                    out.append(u.substring_char(4, ci));
                    out.append("/");
                    out.append(u.substring_char(ci + 1, ulen));
                    proof {
                        assert(out@ =~= spec_despecialize_url(u@));
                    }
                    out
                } else {
                    String::from_str(u)
                }
            },
            None => String::from_str(u),
        }
    } else {
        String::from_str(u)
    };
    let len = rewritten.as_str().unicode_len();
    let stripped: String = if ends_with(rewritten.as_str(), ".git") {
        String::from_str(rewritten.as_str().substring_char(0, len - 4))
    } else {
        rewritten
    };
    proof {
        assert(stripped@ =~= spec_strip_dot_git(spec_despecialize_url(u@)));
    }
    to_lower(stripped.as_str())
}

/// The sentinel commit count that pull output denotes: output naming
/// "Updating" counts as one commit, "Already up to date" as zero, and
/// anything else as one.
pub open spec fn spec_pull_commits(out: Seq<char>) -> u32 {
    if spec_contains_sub(out, "Updating"@) {
        1u32
    } else if spec_contains_sub(out, "Already up to date"@) {
        0u32
    } else {
        1u32
    }
}

/// Classifies pull output into the sentinel commit count.
pub fn pull_commits(output: &str) -> (r: u32)
    ensures
        r == spec_pull_commits(output@),
{
    if contains_sub(output, "Updating") {
        1
    } else if contains_sub(output, "Already up to date") {
        0
    } else {
        1
    }
}

/// Whether two remote URLs denote the same remote, under URL
/// normalization.
pub fn urls_match(actual: &str, expected: &str) -> (r: bool)
    ensures
        r == (spec_normalize_url(actual@) == spec_normalize_url(expected@)),
{
    let a = normalize_url(actual);
    let b = normalize_url(expected);
    str_eq(a.as_str(), b.as_str())
}

/// The numeric value of `git rev-list --count` output: the trimmed
/// digits, or zero when the output is not a count that fits.
pub open spec fn spec_rev_count(s: Seq<char>) -> u32 {
    let t = spec_trim(s);
    if t.len() > 0 && all_digits(t) && spec_digits_val(t) <= u32::MAX {
        spec_digits_val(t) as u32
    } else {
        0u32
    }
}

/// Parses `git rev-list --count` output.
pub fn parse_rev_count(s: &str) -> (r: u32)
    ensures
        r == spec_rev_count(s@),
{
    let t = trim(s);
    match parse_u64(t) {
        Some(v) => {
            if v <= u32::MAX as u64 {
                v as u32
            } else {
                0
            }
        },
        None => 0,
    }
}

/// The committer-time range the engine accepts: 2005-01-01 to
/// 2050-01-01, in unix seconds.
pub open spec fn spec_commit_time_ok(t: int) -> bool {
    1104537600 <= t <= 2524608000
}

/// The committer time that `git log -1 --format=%ct` output denotes,
/// when it is a plausible one: the trimmed digits, accepted only
/// between 2005-01-01 and 2050-01-01.
pub open spec fn spec_commit_timestamp(s: Seq<char>) -> Option<i64> {
    let t = spec_trim(s);
    if t.len() > 0 && all_digits(t) && spec_commit_time_ok(spec_digits_val(t) as int) {
        Some(spec_digits_val(t) as i64)
    } else {
        None
    }
}

/// Parses and validates a committer timestamp.
pub fn parse_commit_timestamp(s: &str) -> (r: Option<i64>)
    ensures
        r == spec_commit_timestamp(s@),
{
    let t = trim(s);
    match parse_u64(t) {
        Some(v) => {
            if 1104537600 <= v && v <= 2524608000 {
                Some(v as i64)
            } else {
                None
            }
        },
        None => None,
    }
}

/// The branch a `for-each-ref` output line names: the line trimmed,
/// with an `origin/` prefix removed.
pub open spec fn spec_branch_of_line(l: Seq<char>) -> Seq<char> {
    let t = spec_trim(l);
    if spec_starts_with(t, "origin/"@) {
        t.skip(7)
    } else {
        t
    }
}

/// Whether a line names a usable branch: non-empty, not the HEAD
/// alias, and not excluded by any pattern.
pub open spec fn spec_branch_usable(l: Seq<char>, patterns: Seq<Seq<char>>) -> bool {
    let b = spec_branch_of_line(l);
    b.len() > 0 && b != "HEAD"@ && !spec_excluded(b, patterns)
}

/// The first usable branch among the lines, which `for-each-ref`
/// orders by committer date, most recent first.
pub open spec fn spec_pick_branch(lines: Seq<Seq<char>>, patterns: Seq<Seq<char>>) -> Option<
    Seq<char>,
>
    decreases lines.len(),
{
    if lines.len() == 0 {
        None
    } else if spec_branch_usable(lines[0], patterns) {
        Some(spec_branch_of_line(lines[0]))
    } else {
        spec_pick_branch(lines.drop_first(), patterns)
    }
}

proof fn lemma_pick_at(lines: Seq<Seq<char>>, patterns: Seq<Seq<char>>, i: int)
    requires
        0 <= i < lines.len(),
        spec_branch_usable(lines[i], patterns),
        forall|j: int| 0 <= j < i ==> !spec_branch_usable(#[trigger] lines[j], patterns),
    ensures
        spec_pick_branch(lines, patterns) == Some(spec_branch_of_line(lines[i])),
    decreases i,
{
    if i > 0 {
        lemma_pick_at(lines.drop_first(), patterns, i - 1);
    }
}

proof fn lemma_pick_none(lines: Seq<Seq<char>>, patterns: Seq<Seq<char>>)
    requires
        forall|j: int| 0 <= j < lines.len() ==> !spec_branch_usable(#[trigger] lines[j], patterns),
    ensures
        spec_pick_branch(lines, patterns) is None,
    decreases lines.len(),
{
    if lines.len() > 0 {
        lemma_pick_none(lines.drop_first(), patterns);
    }
}

/// Picks the most recent usable branch from `for-each-ref` output
/// lines (sorted most recent first): the `origin/` prefix is
/// dropped, the HEAD alias and excluded branches are passed over.
pub fn pick_most_recent_branch(lines: &Vec<String>, exclude_patterns: &Vec<String>) -> (r: Option<
    String,
>)
    ensures
        match r {
            Some(b) => Some(b@) == spec_pick_branch(
                lines@.map_values(|l: String| l@),
                exclude_patterns@.map_values(|p: String| p@),
            ),
            None => spec_pick_branch(
                lines@.map_values(|l: String| l@),
                exclude_patterns@.map_values(|p: String| p@),
            ) is None,
        },
{
    let ghost ls = lines@.map_values(|l: String| l@);
    let ghost pats = exclude_patterns@.map_values(|p: String| p@);
    let n = lines.len();
    let mut i: usize = 0;
    while i < n
        invariant
            i <= n,
            n == lines@.len(),
            ls == lines@.map_values(|l: String| l@),
            pats == exclude_patterns@.map_values(|p: String| p@),
            forall|j: int| 0 <= j < i ==> !spec_branch_usable(#[trigger] ls[j], pats),
        decreases n - i,
    {
        proof {
            reveal_strlit("origin/");
        }
        let t = trim(lines[i].as_str());
        let branch: &str = if starts_with(t, "origin/") {
            t.substring_char(7, t.unicode_len())
        } else {
            t
        };
        proof {
            assert(branch@ == spec_branch_of_line(ls[i as int]));
        }
        let usable = branch.unicode_len() > 0 && !str_eq(branch, "HEAD")
            && !matches_exclusion_pattern(branch, exclude_patterns);
        if usable {
            proof {
                lemma_pick_at(ls, pats, i as int);
            }
            return Some(String::from_str(branch));
        }
        i += 1;
    }
    proof {
        lemma_pick_none(ls, pats);
    }
    None
}

/// The checkout directory policy: under the base directory, either
/// `owner/name` when separate organization directories are on, or a
/// single component that is `owner-name` under the prefix-org
/// conflict policy and plain `name` otherwise.
pub open spec fn spec_repo_directory(
    base: Seq<char>,
    separate_org_dirs: bool,
    conflict_resolution: Seq<char>,
    owner: Seq<char>,
    name: Seq<char>,
) -> Seq<char> {
    if separate_org_dirs {
        base + "/"@ + owner + "/"@ + name
    } else if conflict_resolution == "prefix-org"@ {
        base + "/"@ + owner + "-"@ + name
    } else {
        base + "/"@ + name
    }
}

/// Builds the checkout directory for one repository under the
/// organization policy.
pub fn repo_directory(
    base: &str,
    separate_org_dirs: bool,
    conflict_resolution: &str,
    owner: &str,
    name: &str,
) -> (r: String)
    ensures
        r@ == spec_repo_directory(base@, separate_org_dirs, conflict_resolution@, owner@, name@),
{
    let mut out = String::from_str(base);
    out.append("/");
    if separate_org_dirs {
        out.append(owner);
        out.append("/");
        out.append(name);
    } else if str_eq(conflict_resolution, "prefix-org") {
        out.append(owner);
        out.append("-");
        out.append(name);
    } else {
        out.append(name);
    }
    out
}

impl GitClient {
    /// Create a new Git client with the given configuration.
    pub fn new(config: Config) -> (r: Self)
        ensures
            r.config == config,
    {
        Self { config }
    }

    /// The configuration this client was built with.
    pub fn config(&self) -> (r: &Config)
        ensures
            r == &self.config,
    {
        &self.config
    }

    /// Whether two remote URLs denote the same remote, under URL
    /// normalization.
    pub fn remote_urls_match(&self, actual: &str, expected: &str) -> (r: bool)
        ensures
            r == (spec_normalize_url(actual@) == spec_normalize_url(expected@)),
    {
        urls_match(actual, expected)
    }

    /// Classifies pull output into the sentinel commit count.
    pub fn parse_pull_output(&self, output: &str) -> (r: u32)
        ensures
            r == spec_pull_commits(output@),
    {
        pull_commits(output)
    }

    /// The target directory for a repository under the organization
    /// settings.
    pub fn get_repo_directory(&self, owner: &str, name: &str) -> (r: String)
        ensures
            r@ == spec_repo_directory(
                self.config.base_directory@,
                self.config.organization.separate_org_dirs,
                self.config.organization.conflict_resolution@,
                owner@,
                name@,
            ),
    {
        repo_directory(
            self.config.base_directory.as_str(),
            self.config.organization.separate_org_dirs,
            self.config.organization.conflict_resolution.as_str(),
            owner,
            name,
        )
    }
}

} // verus!
