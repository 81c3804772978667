//! The exclusion-pattern language: an anchored glob in which `*`
//! matches any run of characters (possibly empty) and every other
//! character, `.` included, stands for itself.

use vstd::prelude::*;

verus! {

/// Whether the pattern `p` matches all of `s`.
pub open spec fn glob_match(p: Seq<char>, s: Seq<char>) -> bool
    decreases p.len(), s.len(),
{
    if p.len() == 0 {
        s.len() == 0
    } else if p[0] == '*' {
        glob_match(p.drop_first(), s) || (s.len() > 0 && glob_match(p, s.drop_first()))
    } else {
        s.len() > 0 && p[0] == s[0] && glob_match(p.drop_first(), s.drop_first())
    }
}

fn glob_step(p: &str, s: &str, i: usize, j: usize) -> (r: bool)
    requires
        i <= p@.len(),
        j <= s@.len(),
    ensures
        r == glob_match(p@.skip(i as int), s@.skip(j as int)),
    decreases p@.len() - i, s@.len() - j,
{
    let plen = p.unicode_len();
    let slen = s.unicode_len();
    proof {
        if i < plen {
            assert(p@.skip(i as int).drop_first() =~= p@.skip(i + 1));
            assert(p@.skip(i as int)[0] == p@[i as int]);
        }
        if j < slen {
            assert(s@.skip(j as int).drop_first() =~= s@.skip(j + 1));
            assert(s@.skip(j as int)[0] == s@[j as int]);
        }
    }
    if i == plen {
        j == slen
    } else if p.get_char(i) == '*' {
        if glob_step(p, s, i + 1, j) {
            true
        } else {
            j < slen && glob_step(p, s, i, j + 1)
        }
    } else {
        j < slen && p.get_char(i) == s.get_char(j) && glob_step(p, s, i + 1, j + 1)
    }
}

/// Anchored match of a whole name against a whole pattern.
pub fn matches_pattern(pattern: &str, name: &str) -> (r: bool)
    ensures
        r == glob_match(pattern@, name@),
{
    proof {
        assert(pattern@.skip(0) =~= pattern@);
        assert(name@.skip(0) =~= name@);
    }
    glob_step(pattern, name, 0, 0)
}

/// Whether any of the patterns matches the name.
pub open spec fn spec_excluded(name: Seq<char>, patterns: Seq<Seq<char>>) -> bool {
    exists|k: int| 0 <= k < patterns.len() && glob_match(#[trigger] patterns[k], name)
}

/// Whether the name matches any exclusion pattern.
pub fn matches_exclusion_pattern(name: &str, patterns: &Vec<String>) -> (r: bool)
    ensures
        r == spec_excluded(name@, patterns@.map_values(|p: String| p@)),
{
    let ghost pats = patterns@.map_values(|p: String| p@);
    let n = patterns.len();
    let mut k: usize = 0;
    while k < n
        invariant
            k <= n,
            n == patterns@.len(),
            pats == patterns@.map_values(|p: String| p@),
            forall|t: int| 0 <= t < k ==> !glob_match(#[trigger] pats[t], name@),
        decreases n - k,
    {
        if matches_pattern(patterns[k].as_str(), name) {
            proof {
                assert(glob_match(pats[k as int], name@));
            }
            return true;
        }
        k += 1;
    }
    false
}

} // verus!
