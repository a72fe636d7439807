//! Build identity and source revision, read from a report's file name.
use vstd::prelude::*;
use crate::text::{
    all_digits, chars_of, digits_end, digits_end_exec, lemma_digits_end, string_of,
};
use crate::ExtractError;

verus! {

/// A date-time stamp `DDDDDDDDTDDDDDD` starts at `i`, followed either by `Z`
/// or by `.`, at least one digit, and `Z`.
pub open spec fn stamp_at(s: Seq<char>, i: int) -> bool {
    &&& 0 <= i
    &&& i + 16 <= s.len()
    &&& all_digits(s, i, i + 8)
    &&& s[i + 8] == 'T'
    &&& all_digits(s, i + 9, i + 15)
    &&& (s[i + 15] == 'Z' || (s[i + 15] == '.' && digits_end(s, i + 16) > i + 16
        && digits_end(s, i + 16) < s.len() && s[digits_end(s, i + 16)] == 'Z'))
}

/// The first index at or after `i` where a stamp starts.
pub open spec fn first_stamp_from(s: Seq<char>, i: int) -> Option<int>
    decreases s.len() - i,
{
    if i < 0 || i >= s.len() {
        None
    } else if stamp_at(s, i) {
        Some(i)
    } else {
        first_stamp_from(s, i + 1)
    }
}

/// The build identity of a file name: its first stamp, cut to whole seconds,
/// with `Z` appended.
pub open spec fn identity_of(s: Seq<char>) -> Option<Seq<char>> {
    match first_stamp_from(s, 0) {
        Some(i) => Some(s.subrange(i, i + 15).push('Z')),
        None => None,
    }
}

/// The last index below `n` that holds `c`.
pub open spec fn last_index_below(s: Seq<char>, c: char, n: int) -> Option<int>
    decreases n,
{
    if n <= 0 {
        None
    } else if s[n - 1] == c {
        Some(n - 1)
    } else {
        last_index_below(s, c, n - 1)
    }
}

pub open spec fn html_suffix() -> Seq<char> {
    seq!['.', 'h', 't', 'm', 'l']
}

/// `t` with every trailing `.html` removed.
pub open spec fn trim_html(t: Seq<char>) -> Seq<char>
    decreases t.len(),
{
    if t.len() >= 5 && t.subrange(t.len() - 5, t.len() as int) == html_suffix() {
        trim_html(t.subrange(0, t.len() - 5))
    } else {
        t
    }
}

/// The source revision of a file name: what follows its last `_` (the whole
/// name where there is none), without the trailing `.html`.
pub open spec fn revision_of(s: Seq<char>) -> Seq<char> {
    match last_index_below(s, '_', s.len() as int) {
        Some(k) => trim_html(s.subrange(k + 1, s.len() as int)),
        None => trim_html(s),
    }
}

fn stamp_at_exec(v: &[char], i: usize) -> (r: bool)
    requires
        i <= v@.len(),
    ensures
        r == stamp_at(v@, i as int),
{
    if v.len() - i < 16 {
        return false;
    }
    proof {
        lemma_digits_end(v@, i as int);
        lemma_digits_end(v@, i + 9);
        lemma_digits_end(v@, i + 16);
    }
    if digits_end_exec(v, i) < i + 8 || v[i + 8] != 'T' || digits_end_exec(v, i + 9) < i + 15 {
        return false;
    }
    if v[i + 15] == 'Z' {
        return true;
    }
    if v[i + 15] != '.' {
        return false;
    }
    let e = digits_end_exec(v, i + 16);
    e > i + 16 && e < v.len() && v[e] == 'Z'
}

/// Reads the build identity and the source revision from a report's file name.
///
/// The identity is the first `YYYYMMDDTHHMMSS` stamp that is followed by `Z`,
/// with or without fractional seconds between; the fraction is dropped. It
/// fails with `MalformedFilename` exactly when the name holds no such stamp.
pub fn extract_raw_time_and_commit_hash(filename: &str) -> (r: Result<(String, String), ExtractError>)
    ensures
        match r {
            Ok((t, h)) => identity_of(filename@) == Some(t@) && h@ == revision_of(filename@),
            Err(e) => identity_of(filename@) is None && e == ExtractError::MalformedFilename,
        },
{
    let v = chars_of(filename);
    let n = v.len();
    let mut i: usize = 0;
    while i < n && !stamp_at_exec(v.as_slice(), i)
        invariant
            n == v@.len(),
            i <= n,
            first_stamp_from(v@, 0) == first_stamp_from(v@, i as int),
        decreases n - i,
    {
        i = i + 1;
    }
    if i >= n {
        return Err(ExtractError::MalformedFilename);
    }
    let mut t = string_of(v.as_slice(), i, i + 15);
    t.push('Z');
    let h = revision_from_chars(v.as_slice());
    Ok((t, h))
}

fn revision_from_chars(v: &[char]) -> (r: String)
    ensures
        r@ == revision_of(v@),
{
    let n = v.len();
    let mut k: usize = n;
    while k > 0 && v[k - 1] != '_'
        invariant
            k <= n == v@.len(),
            last_index_below(v@, '_', n as int) == last_index_below(v@, '_', k as int),
        decreases k,
    {
        k = k - 1;
    }
    let start: usize = k;
    let ghost tail = v@.subrange(start as int, n as int);
    assert(trim_html(tail) == revision_of(v@)) by {
        if k == 0 {
            assert(tail =~= v@);
        }
    }
    let suffix = ['.', 'h', 't', 'm', 'l'];
    let mut end: usize = n;
    while end - start >= 5 && crate::text::lit_at_exec(v, end - 5, suffix.as_slice())
        invariant
            start <= end <= n == v@.len(),
            suffix@ == html_suffix(),
            trim_html(tail) == trim_html(v@.subrange(start as int, end as int)),
        decreases end,
    {
        assert(v@.subrange(start as int, end - 5) =~= v@.subrange(start as int, end as int).subrange(0, end - 5 - start));
        assert(v@.subrange(end - 5, end as int) =~= v@.subrange(start as int, end as int).subrange(end - 5 - start, end - start));
        end = end - 5;
    }
    proof {
        let cur = v@.subrange(start as int, end as int);
        if cur.len() >= 5 {
            assert(v@.subrange(end - 5, end as int) =~= cur.subrange(cur.len() - 5, cur.len() as int));
        }
    }
    string_of(v, start, end)
}

} // verus!
