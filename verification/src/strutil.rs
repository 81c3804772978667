//! Verified utilities over strings and character sequences used by the
//! rest of the crate: equality, substring search, prefix and suffix
//! tests, whitespace trimming, line splitting, lowercasing, and
//! decimal parsing and formatting.
//!
//! Whitespace and case handling are ASCII-oriented, which matches the
//! inputs these helpers see: `git` plumbing output and configuration
//! keywords.

use vstd::prelude::*;

verus! {

/// Character-for-character equality of two string slices.
pub fn str_eq(a: &str, b: &str) -> (r: bool)
    ensures
        r == (a@ == b@),
{
    let alen = a.unicode_len();
    let blen = b.unicode_len();
    if alen != blen {
        proof {
            if a@ == b@ {
                assert(a@.len() == b@.len());
            }
        }
        return false;
    }
    let mut i: usize = 0;
    while i < alen
        invariant
            i <= alen,
            alen == a@.len(),
            alen == b@.len(),
            forall|j: int| 0 <= j < i ==> a@[j] == b@[j],
        decreases alen - i,
    {
        if a.get_char(i) != b.get_char(i) {
            return false;
        }
        i += 1;
    }
    proof {
        assert(a@ =~= b@);
    }
    true
}

/// The ASCII whitespace characters that `git` output can carry around
/// its payload.
pub open spec fn is_ws(c: char) -> bool {
    c == ' ' || c == '\t' || c == '\n' || c == '\r'
}

/// Executable form of `is_ws`.
pub fn is_ws_char(c: char) -> (r: bool)
    ensures
        r == is_ws(c),
{
    c == ' ' || c == '\t' || c == '\n' || c == '\r'
}

/// The sequence with leading and trailing whitespace removed.
pub open spec fn spec_trim(s: Seq<char>) -> Seq<char>
    decreases s.len(),
{
    if s.len() == 0 {
        s
    } else if is_ws(s[0]) {
        spec_trim(s.drop_first())
    } else if is_ws(s.last()) {
        spec_trim(s.drop_last())
    } else {
        s
    }
}

proof fn lemma_trim_range(s: Seq<char>, lo: int, hi: int)
    requires
        0 <= lo <= hi <= s.len(),
        forall|j: int| 0 <= j < lo ==> is_ws(#[trigger] s[j]),
        forall|j: int| hi <= j < s.len() ==> is_ws(#[trigger] s[j]),
        lo < hi ==> !is_ws(s[lo]) && !is_ws(s[hi - 1]),
    ensures
        spec_trim(s) == s.subrange(lo, hi),
    decreases s.len(),
{
    if s.len() == 0 {
        assert(s.subrange(lo, hi) =~= s);
    } else if is_ws(s[0]) {
        let t = s.drop_first();
        let lo2 = if lo == 0 { 0 } else { lo - 1 };
        let hi2 = if hi == 0 { 0 } else { hi - 1 };
        if lo < hi {
            assert(lo >= 1);
        }
        lemma_trim_range(t, lo2, hi2);
        assert(t.subrange(lo2, hi2) =~= s.subrange(lo, hi));
    } else if is_ws(s.last()) {
        if lo == hi {
            // Every index is below lo or at or above hi, so s[0] would
            // be whitespace, contradicting this branch.
            assert(is_ws(s[0]));
        }
        assert(lo < hi);
        assert(hi - 1 < s.len() - 1);
        let t = s.drop_last();
        lemma_trim_range(t, lo, hi);
        assert(t.subrange(lo, hi) =~= s.subrange(lo, hi));
    } else {
        if lo == hi {
            if s.len() > 0 {
                assert(is_ws(s[0]));
            }
        }
        assert(lo == 0);
        assert(hi == s.len());
        assert(s.subrange(lo, hi) =~= s);
    }
}

/// Removes leading and trailing ASCII whitespace.
pub fn trim(s: &str) -> (r: &str)
    ensures
        r@ == spec_trim(s@),
{
    let len = s.unicode_len();
    let mut lo: usize = 0;
    while lo < len && is_ws_char(s.get_char(lo))
        invariant
            lo <= len,
            len == s@.len(),
            forall|j: int| 0 <= j < lo ==> is_ws(#[trigger] s@[j]),
        decreases len - lo,
    {
        lo += 1;
    }
    let mut hi: usize = len;
    while hi > lo && is_ws_char(s.get_char(hi - 1))
        invariant
            lo <= hi <= len,
            len == s@.len(),
            forall|j: int| 0 <= j < lo ==> is_ws(#[trigger] s@[j]),
            forall|j: int| hi <= j < len ==> is_ws(#[trigger] s@[j]),
        decreases hi,
    {
        hi -= 1;
    }
    let r = s.substring_char(lo, hi);
    proof {
        lemma_trim_range(s@, lo as int, hi as int);
    }
    r
}

/// Whether `n` occurs as a contiguous run of characters inside `h`.
pub open spec fn spec_contains_sub(h: Seq<char>, n: Seq<char>) -> bool {
    exists|i: int| 0 <= i <= h.len() - n.len() && #[trigger] h.subrange(i, i + n.len()) == n
}

fn match_at(h: &str, n: &str, i: usize) -> (r: bool)
    requires
        i + n@.len() <= h@.len(),
    ensures
        r == (h@.subrange(i as int, i + n@.len()) == n@),
{
    let hlen = h.unicode_len();
    let nlen = n.unicode_len();
    let mut j: usize = 0;
    while j < nlen
        invariant
            j <= nlen,
            i + nlen <= hlen,
            hlen == h@.len(),
            nlen == n@.len(),
            forall|t: int| 0 <= t < j ==> h@[i + t] == n@[t],
        decreases nlen - j,
    {
        if h.get_char(i + j) != n.get_char(j) {
            proof {
                assert(h@.subrange(i as int, i + n@.len())[j as int] != n@[j as int]);
            }
            return false;
        }
        j += 1;
    }
    proof {
        assert(h@.subrange(i as int, i + n@.len()) =~= n@);
    }
    true
}

/// Naive substring search.
pub fn contains_sub(h: &str, n: &str) -> (r: bool)
    ensures
        r == spec_contains_sub(h@, n@),
{
    let hlen = h.unicode_len();
    let nlen = n.unicode_len();
    if nlen > hlen {
        return false;
    }
    if nlen == 0 {
        proof {
            assert(h@.subrange(0, 0 + n@.len() as int) =~= n@);
        }
        return true;
    }
    let mut i: usize = 0;
    while i <= hlen - nlen
        invariant
            1 <= nlen <= hlen,
            i <= hlen - nlen + 1,
            hlen == h@.len(),
            nlen == n@.len(),
            forall|k: int| 0 <= k < i ==> #[trigger] h@.subrange(k, k + n@.len()) != n@,
        decreases hlen + 1 - nlen - i,
    {
        if match_at(h, n, i) {
            return true;
        }
        i += 1;
    }
    proof {
        if spec_contains_sub(h@, n@) {
            let w = choose|w: int|
                0 <= w <= h@.len() - n@.len() && #[trigger] h@.subrange(w, w + n@.len()) == n@;
            assert(h@.subrange(w, w + n@.len()) != n@);
        }
    }
    false
}

/// Whether `p` is a prefix of `s`.
pub open spec fn spec_starts_with(s: Seq<char>, p: Seq<char>) -> bool {
    p.len() <= s.len() && s.take(p.len() as int) == p
}

/// Prefix test.
pub fn starts_with(s: &str, p: &str) -> (r: bool)
    ensures
        r == spec_starts_with(s@, p@),
{
    let slen = s.unicode_len();
    let plen = p.unicode_len();
    if plen > slen {
        return false;
    }
    let mut i: usize = 0;
    while i < plen
        invariant
            i <= plen,
            plen <= slen,
            slen == s@.len(),
            plen == p@.len(),
            forall|j: int| 0 <= j < i ==> s@[j] == p@[j],
        decreases plen - i,
    {
        if s.get_char(i) != p.get_char(i) {
            proof {
                assert(s@.take(p@.len() as int)[i as int] != p@[i as int]);
            }
            return false;
        }
        i += 1;
    }
    proof {
        assert(s@.take(p@.len() as int) =~= p@);
    }
    true
}

/// Whether `p` is a suffix of `s`.
pub open spec fn spec_ends_with(s: Seq<char>, p: Seq<char>) -> bool {
    p.len() <= s.len() && s.skip(s.len() - p.len()) == p
}

/// Suffix test.
pub fn ends_with(s: &str, p: &str) -> (r: bool)
    ensures
        r == spec_ends_with(s@, p@),
{
    let slen = s.unicode_len();
    let plen = p.unicode_len();
    if plen > slen {
        return false;
    }
    let off = slen - plen;
    let mut i: usize = 0;
    while i < plen
        invariant
            i <= plen,
            plen <= slen,
            off == slen - plen,
            slen == s@.len(),
            plen == p@.len(),
            forall|j: int| 0 <= j < i ==> s@[off + j] == p@[j],
        decreases plen - i,
    {
        if s.get_char(off + i) != p.get_char(i) {
            proof {
                assert(s@.skip(s@.len() - p@.len())[i as int] != p@[i as int]);
            }
            return false;
        }
        i += 1;
    }
    proof {
        assert(s@.skip(s@.len() - p@.len()) =~= p@);
    }
    true
}

/// Relies on `String::push`: appends exactly the one character to the
/// end of the string.
#[verifier::external_body]
pub fn push_char(s: &mut String, c: char)
    ensures
        final(s)@ == old(s)@.push(c),
{
    s.push(c);
}

/// ASCII lowercasing of a single character.
pub open spec fn spec_lower(c: char) -> char {
    if 'A' <= c && c <= 'Z' {
        (((c as u32) + 32) as u8) as char
    } else {
        c
    }
}

/// ASCII lowercasing of a sequence.
pub open spec fn spec_lower_seq(s: Seq<char>) -> Seq<char> {
    s.map_values(|c: char| spec_lower(c))
}

/// Executable ASCII lowercasing of one character.
pub fn lower_char(c: char) -> (r: char)
    ensures
        r == spec_lower(c),
{
    if 'A' <= c && c <= 'Z' {
        let u = c as u32;
        ((u + 32) as u8) as char
    } else {
        c
    }
}

/// ASCII lowercasing of a string.
pub fn to_lower(s: &str) -> (r: String)
    ensures
        r@ == spec_lower_seq(s@),
{
    let len = s.unicode_len();
    let mut out = String::new();
    let mut i: usize = 0;
    while i < len
        invariant
            i <= len,
            len == s@.len(),
            out@ == spec_lower_seq(s@.take(i as int)),
        decreases len - i,
    {
        let c = lower_char(s.get_char(i));
        push_char(&mut out, c);
        proof {
            assert(s@.take(i + 1) =~= s@.take(i as int).push(s@[i as int]));
            assert(spec_lower_seq(s@.take(i + 1)) =~= spec_lower_seq(
                s@.take(i as int),
            ).push(spec_lower(s@[i as int])));
        }
        i += 1;
    }
    proof {
        assert(s@.take(len as int) =~= s@);
    }
    out
}

/// Decimal digit test.
pub open spec fn is_digit(c: char) -> bool {
    '0' <= c && c <= '9'
}

/// The numeric value of a decimal digit character.
pub open spec fn digit_val(c: char) -> nat {
    ((c as u32) - 48) as nat
}

/// Whether every character of `s` is a decimal digit.
pub open spec fn all_digits(s: Seq<char>) -> bool {
    forall|i: int| 0 <= i < s.len() ==> is_digit(#[trigger] s[i])
}

/// The value denoted by a sequence of decimal digits, most significant
/// first.
pub open spec fn spec_digits_val(s: Seq<char>) -> nat
    decreases s.len(),
{
    if s.len() == 0 {
        0
    } else {
        spec_digits_val(s.drop_last()) * 10 + digit_val(s.last())
    }
}

proof fn lemma_digits_val_step(s: Seq<char>, i: int)
    requires
        0 <= i < s.len(),
    ensures
        spec_digits_val(s.take(i + 1)) == spec_digits_val(s.take(i)) * 10 + digit_val(s[i]),
{
    assert(s.take(i + 1).drop_last() =~= s.take(i));
    assert(s.take(i + 1).last() == s[i]);
}

proof fn lemma_digits_val_prefix_le(s: Seq<char>, i: int, j: int)
    requires
        0 <= i <= j <= s.len(),
    ensures
        spec_digits_val(s.take(i)) <= spec_digits_val(s.take(j)),
    decreases j - i,
{
    if i < j {
        lemma_digits_val_prefix_le(s, i, j - 1);
        lemma_digits_val_step(s, j - 1);
    }
}

/// Parses an unsigned decimal integer.  Returns the value exactly when
/// the whole input is one or more digits and the value fits in `u64`.
pub fn parse_u64(s: &str) -> (r: Option<u64>)
    ensures
        match r {
            Some(v) => s@.len() > 0 && all_digits(s@) && v as nat == spec_digits_val(s@),
            None => s@.len() == 0 || !all_digits(s@) || spec_digits_val(s@) > u64::MAX,
        },
{
    let len = s.unicode_len();
    if len == 0 {
        return None;
    }
    let mut v: u64 = 0;
    let mut i: usize = 0;
    while i < len
        invariant
            i <= len,
            len == s@.len(),
            all_digits(s@.take(i as int)),
            v as nat == spec_digits_val(s@.take(i as int)),
        decreases len - i,
    {
        let c = s.get_char(i);
        if !('0' <= c && c <= '9') {
            return None;
        }
        let d: u64 = ((c as u32) - 48) as u64;
        let w: u128 = (v as u128) * 10 + (d as u128);
        proof {
            lemma_digits_val_step(s@, i as int);
        }
        if w > u64::MAX as u128 {
            proof {
                lemma_digits_val_prefix_le(s@, i + 1, s@.len() as int);
                assert(s@.take(s@.len() as int) =~= s@);
            }
            return None;
        }
        v = w as u64;
        proof {
            assert(s@.take(i + 1) =~= s@.take(i as int).push(s@[i as int]));
        }
        i += 1;
    }
    proof {
        assert(s@.take(len as int) =~= s@);
    }
    Some(v)
}

/// The character for a decimal digit value.
pub open spec fn digit_char(d: nat) -> char {
    ((48 + d) as u8) as char
}

/// The decimal digit characters of `n`, most significant first.
pub open spec fn spec_dec_digits(n: nat) -> Seq<char>
    decreases n,
{
    if n < 10 {
        seq![digit_char(n)]
    } else {
        spec_dec_digits(n / 10).push(digit_char(n % 10))
    }
}

/// Filtering commutes with appending one element: the element stays
/// exactly when it satisfies the predicate.
pub proof fn lemma_filter_push<A>(s: Seq<A>, e: A, pred: spec_fn(A) -> bool)
    ensures
        s.push(e).filter(pred) == if pred(e) {
            s.filter(pred).push(e)
        } else {
            s.filter(pred)
        },
{
    reveal(Seq::filter);
    assert(s.push(e).drop_last() =~= s);
    assert(s.push(e).last() == e);
}

/// The index of the last occurrence of `c` in `s`, or `-1` when there
/// is none.
pub open spec fn last_index_of(s: Seq<char>, c: char) -> int
    decreases s.len(),
{
    if s.len() == 0 {
        -1
    } else if s.last() == c {
        s.len() - 1
    } else {
        last_index_of(s.drop_last(), c)
    }
}

pub proof fn lemma_last_index_bounds(s: Seq<char>, c: char)
    ensures
        -1 <= last_index_of(s, c) < s.len(),
    decreases s.len(),
{
    if s.len() > 0 && s.last() != c {
        lemma_last_index_bounds(s.drop_last(), c);
    }
}

proof fn lemma_last_index_at(s: Seq<char>, c: char, i: int)
    requires
        0 <= i < s.len(),
        s[i] == c,
        forall|j: int| i < j < s.len() ==> s[j] != c,
    ensures
        last_index_of(s, c) == i,
    decreases s.len(),
{
    if i < s.len() - 1 {
        lemma_last_index_at(s.drop_last(), c, i);
    }
}

proof fn lemma_last_index_none(s: Seq<char>, c: char)
    requires
        forall|j: int| 0 <= j < s.len() ==> s[j] != c,
    ensures
        last_index_of(s, c) == -1,
    decreases s.len(),
{
    if s.len() > 0 {
        lemma_last_index_none(s.drop_last(), c);
    }
}

/// The index of the last occurrence of `c`, scanning backwards.
pub fn find_last(s: &str, c: char) -> (r: Option<usize>)
    ensures
        match r {
            Some(i) => last_index_of(s@, c) == i as int,
            None => last_index_of(s@, c) == -1,
        },
{
    let n = s.unicode_len();
    let mut i: usize = n;
    while i > 0
        invariant
            i <= n,
            n == s@.len(),
            forall|j: int| i <= j < n ==> s@[j] != c,
        decreases i,
    {
        if s.get_char(i - 1) == c {
            proof {
                lemma_last_index_at(s@, c, i - 1);
            }
            return Some(i - 1);
        }
        i -= 1;
    }
    proof {
        lemma_last_index_none(s@, c);
    }
    None
}

/// The index of the last newline in `s`, or `-1` when there is none.
pub open spec fn last_nl(s: Seq<char>) -> int {
    last_index_of(s, '\n')
}

proof fn lemma_last_nl_bounds(s: Seq<char>)
    ensures
        -1 <= last_nl(s) < s.len(),
{
    lemma_last_index_bounds(s, '\n');
}

/// The lines of `s`, split on `'\n'`; the separators are consumed and
/// every line is newline-free.  A trailing newline yields a final
/// empty line, as splitting on a separator does.
pub open spec fn spec_lines(s: Seq<char>) -> Seq<Seq<char>>
    decreases s.len(),
    via spec_lines_dec
{
    if last_nl(s) < 0 {
        seq![s]
    } else {
        spec_lines(s.take(last_nl(s))).push(s.skip(last_nl(s) + 1))
    }
}

#[via_fn]
proof fn spec_lines_dec(s: Seq<char>) {
    lemma_last_nl_bounds(s);
}

proof fn lemma_lines_push_nl(s: Seq<char>)
    ensures
        spec_lines(s.push('\n')) == spec_lines(s).push(Seq::<char>::empty()),
{
    let t = s.push('\n');
    assert(t.last() == '\n');
    assert(last_nl(t) == s.len());
    assert(t.take(s.len() as int) =~= s);
    assert(t.skip(s.len() as int + 1) =~= Seq::<char>::empty());
}

proof fn lemma_lines_push_other(s: Seq<char>, c: char)
    requires
        c != '\n',
    ensures
        spec_lines(s).len() >= 1,
        spec_lines(s.push(c)) == spec_lines(s).update(
            spec_lines(s).len() - 1,
            spec_lines(s).last().push(c),
        ),
{
    let t = s.push(c);
    assert(t.drop_last() =~= s);
    assert(last_nl(t) == last_nl(s));
    lemma_last_nl_bounds(s);
    if last_nl(s) < 0 {
        assert(spec_lines(t) =~~= spec_lines(s).update(
            spec_lines(s).len() - 1,
            spec_lines(s).last().push(c),
        ));
    } else {
        let k = last_nl(s);
        assert(t.take(k) =~= s.take(k));
        assert(t.skip(k + 1) =~= s.skip(k + 1).push(c));
        assert(spec_lines(t) =~~= spec_lines(s).update(
            spec_lines(s).len() - 1,
            spec_lines(s).last().push(c),
        ));
    }
}

/// Splits a string into its lines, consuming the `'\n'` separators.
pub fn split_lines(s: &str) -> (r: Vec<String>)
    ensures
        r@.map_values(|x: String| x@) == spec_lines(s@),
        r@.len() >= 1,
{
    let len = s.unicode_len();
    let mut out: Vec<String> = Vec::new();
    let mut cur = String::new();
    let mut i: usize = 0;
    proof {
        assert(out@.map_values(|x: String| x@).push(cur@) =~~= spec_lines(s@.take(0)));
    }
    while i < len
        invariant
            i <= len,
            len == s@.len(),
            out@.map_values(|x: String| x@).push(cur@) == spec_lines(s@.take(i as int)),
        decreases len - i,
    {
        let c = s.get_char(i);
        proof {
            assert(s@.take(i + 1) =~= s@.take(i as int).push(s@[i as int]));
        }
        if c == '\n' {
            out.push(cur);
            cur = String::new();
            proof {
                lemma_lines_push_nl(s@.take(i as int));
                assert(out@.map_values(|x: String| x@).push(cur@) =~~= spec_lines(
                    s@.take(i + 1),
                ));
            }
        } else {
            push_char(&mut cur, c);
            proof {
                lemma_lines_push_other(s@.take(i as int), s@[i as int]);
                assert(out@.map_values(|x: String| x@).push(cur@) =~~= spec_lines(
                    s@.take(i + 1),
                ));
            }
        }
        i += 1;
    }
    out.push(cur);
    proof {
        assert(s@.take(len as int) =~= s@);
        assert(out@.map_values(|x: String| x@) =~~= spec_lines(s@));
    }
    out
}

/// Renders an unsigned integer in decimal.
pub fn u64_to_string(n: u64) -> (r: String)
    ensures
        r@ == spec_dec_digits(n as nat),
    decreases n,
{
    if n < 10 {
        let mut s = String::new();
        push_char(&mut s, ((48 + n as u8)) as char);
        proof {
            assert(s@ =~= spec_dec_digits(n as nat));
        }
        s
    } else {
        let mut s = u64_to_string(n / 10);
        push_char(&mut s, (48 + (n % 10) as u8) as char);
        s
    }
}

/// Renders an unsigned integer in decimal.
pub fn u32_to_string(n: u32) -> (r: String)
    ensures
        r@ == spec_dec_digits(n as nat),
{
    u64_to_string(n as u64)
}

} // verus!
