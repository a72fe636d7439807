//! Character-level helpers shared by the filename and report scanners.
use vstd::prelude::*;

verus! {

/// Relies on `String::push`: the character is appended at the end.
pub assume_specification[ String::push ](s: &mut String, ch: char)
    ensures
        final(s)@ == old(s)@.push(ch),
;

pub open spec fn is_digit(c: char) -> bool {
    '0' <= c && c <= '9'
}

/// `lit` occurs in `s` starting at index `i`.
pub open spec fn lit_at(s: Seq<char>, i: int, lit: Seq<char>) -> bool {
    0 <= i && i + lit.len() <= s.len() && s.subrange(i, i + lit.len()) == lit
}

/// Index of the first non-digit at or after `i` (or the length).
pub open spec fn digits_end(s: Seq<char>, i: int) -> int
    decreases s.len() - i,
{
    if i < 0 || i >= s.len() || !is_digit(s[i]) {
        i
    } else {
        digits_end(s, i + 1)
    }
}

/// Every character of `s[lo..hi]` is a digit.
pub open spec fn all_digits(s: Seq<char>, lo: int, hi: int) -> bool {
    forall|k: int| lo <= k < hi ==> is_digit(#[trigger] s[k])
}

/// `digits_end` stops at the first non-digit, past a run of digits only.
pub proof fn lemma_digits_end(s: Seq<char>, i: int)
    requires
        0 <= i <= s.len(),
    ensures
        i <= digits_end(s, i) <= s.len(),
        all_digits(s, i, digits_end(s, i)),
        digits_end(s, i) < s.len() ==> !is_digit(s[digits_end(s, i)]),
        forall|j: int| i <= j <= s.len() ==> (all_digits(s, i, j) <==> j <= digits_end(s, i)),
    decreases s.len() - i,
{
    if i < s.len() && is_digit(s[i]) {
        lemma_digits_end(s, i + 1);
        assert forall|j: int| i <= j <= s.len() implies (all_digits(s, i, j) <==> j
            <= digits_end(s, i)) by {
            if j > i {
                assert(all_digits(s, i, j) <==> all_digits(s, i + 1, j));
            }
        }
    }
}

pub open spec fn digit_value(c: char) -> int {
    (c as u32) as int - ('0' as u32) as int
}

/// The number that the decimal digits `s[lo..hi]` write.
pub open spec fn digits_value(s: Seq<char>, lo: int, hi: int) -> int
    decreases hi - lo,
{
    if hi <= lo {
        0
    } else {
        digits_value(s, lo, hi - 1) * 10 + digit_value(s[hi - 1])
    }
}

pub open spec fn pow10(n: nat) -> int
    decreases n,
{
    if n == 0 {
        1
    } else {
        10 * pow10((n - 1) as nat)
    }
}

/// A run of digits reads as a number below ten to the power of its length,
/// and a longer prefix never reads as less.
pub proof fn lemma_digits_value_bounds(s: Seq<char>, lo: int, hi: int)
    requires
        0 <= lo <= hi <= s.len(),
        all_digits(s, lo, hi),
    ensures
        0 <= digits_value(s, lo, hi) < pow10((hi - lo) as nat),
        forall|j: int| lo <= j <= hi ==> digits_value(s, lo, j) <= digits_value(s, lo, hi),
    decreases hi - lo,
{
    if hi > lo {
        lemma_digits_value_bounds(s, lo, hi - 1);
        let a = digits_value(s, lo, hi - 1);
        let p = pow10((hi - 1 - lo) as nat);
        let d = digit_value(s[hi - 1]);
        assert(0 <= d <= 9);
        assert(a * 10 + d < 10 * p) by (nonlinear_arith)
            requires
                0 <= a < p,
                0 <= d <= 9,
        ;
        assert(a <= a * 10 + d) by (nonlinear_arith)
            requires
                0 <= a,
                0 <= d,
        ;
    }
}

/// Reads the digits `v[lo..hi]` as a number, or `None` where it exceeds `usize`.
pub fn parse_digits(v: &[char], lo: usize, hi: usize) -> (r: Option<usize>)
    requires
        lo <= hi <= v@.len(),
        all_digits(v@, lo as int, hi as int),
    ensures
        r is Some <==> digits_value(v@, lo as int, hi as int) <= usize::MAX,
        r matches Some(x) ==> x as int == digits_value(v@, lo as int, hi as int),
{
    proof {
        lemma_digits_value_bounds(v@, lo as int, hi as int);
    }
    let mut acc: usize = 0;
    let mut i: usize = lo;
    while i < hi
        invariant
            lo <= i <= hi <= v@.len(),
            all_digits(v@, lo as int, hi as int),
            forall|j: int| lo <= j <= hi ==> digits_value(v@, lo as int, j) <= digits_value(
                v@,
                lo as int,
                hi as int,
            ),
            acc as int == digits_value(v@, lo as int, i as int),
        decreases hi - i,
    {
        let d = (v[i] as u32 - '0' as u32) as usize;
        assert(d as int == digit_value(v@[i as int]));
        match acc.checked_mul(10) {
            Some(m) => match m.checked_add(d) {
                Some(x) => {
                    acc = x;
                },
                None => {
                    assert(digits_value(v@, lo as int, i + 1) == m + d);
                    return None;
                },
            },
            None => {
                assert(digits_value(v@, lo as int, i + 1) > usize::MAX);
                return None;
            },
        }
        i = i + 1;
    }
    Some(acc)
}

/// The characters of a string, one per element.
pub fn chars_of(s: &str) -> (r: Vec<char>)
    ensures
        r@ == s@,
{
    let mut r: Vec<char> = Vec::new();
    for c in it: s.chars()
        invariant
            r@ == it.seq().subrange(0, it.index() as int),
    {
        r.push(c);
    }
    r
}

/// The string made of `v[lo..hi]`.
pub fn string_of(v: &[char], lo: usize, hi: usize) -> (r: String)
    requires
        lo <= hi <= v@.len(),
    ensures
        r@ == v@.subrange(lo as int, hi as int),
{
    let mut r = String::new();
    let mut i: usize = lo;
    while i < hi
        invariant
            lo <= i <= hi <= v@.len(),
            r@ == v@.subrange(lo as int, i as int),
        decreases hi - i,
    {
        r.push(v[i]);
        i = i + 1;
    }
    r
}

/// Whether `lit` occurs in `v` at index `i`.
pub fn lit_at_exec(v: &[char], i: usize, lit: &[char]) -> (r: bool)
    ensures
        r == lit_at(v@, i as int, lit@),
{
    if i > v.len() || lit.len() > v.len() - i {
        return false;
    }
    let mut k: usize = 0;
    while k < lit.len()
        invariant
            i + lit.len() <= v.len(),
            k <= lit@.len(),
            forall|j: int| 0 <= j < k ==> v@[i + j] == lit@[j],
        decreases lit.len() - k,
    {
        if v[i + k] != lit[k] {
            assert(v@.subrange(i as int, i + lit@.len())[k as int] != lit@[k as int]);
            return false;
        }
        k = k + 1;
    }
    assert(v@.subrange(i as int, i + lit@.len()) =~= lit@);
    true
}

/// Index of the first non-digit at or after `i`.
pub fn digits_end_exec(v: &[char], i: usize) -> (r: usize)
    requires
        i <= v@.len(),
    ensures
        r as int == digits_end(v@, i as int),
        i <= r <= v@.len(),
{
    let mut k: usize = i;
    while k < v.len() && '0' <= v[k] && v[k] <= '9'
        invariant
            i <= k <= v@.len(),
            digits_end(v@, i as int) == digits_end(v@, k as int),
        decreases v.len() - k,
    {
        k = k + 1;
    }
    k
}

} // verus!
