//! The start time of a build, read from its identity as a UTC timestamp.
use vstd::prelude::*;
use crate::text::{
    all_digits, chars_of, digits_end_exec, digits_value, lemma_digits_end,
    lemma_digits_value_bounds, parse_digits, pow10,
};
use crate::ExtractError;

verus! {

pub open spec fn is_leap_year(y: int) -> bool {
    (y % 4 == 0 && y % 100 != 0) || y % 400 == 0
}

pub open spec fn days_in_month(y: int, m: int) -> int {
    if m == 2 {
        if is_leap_year(y) { 29 } else { 28 }
    } else if m == 4 || m == 6 || m == 9 || m == 11 {
        30
    } else {
        31
    }
}

/// Days from 0000-01-01 to the first day of year `y` (`y >= 0`), in the
/// proleptic Gregorian calendar.
pub open spec fn days_before_year(y: int) -> int {
    365 * y + (y + 3) / 4 - (y + 99) / 100 + (y + 399) / 400
}

/// Days from the first of January to the first day of month `m` of year `y`.
pub open spec fn days_before_month(y: int, m: int) -> int {
    let common: int = if m == 1 { 0 }
        else if m == 2 { 31 }
        else if m == 3 { 59 }
        else if m == 4 { 90 }
        else if m == 5 { 120 }
        else if m == 6 { 151 }
        else if m == 7 { 181 }
        else if m == 8 { 212 }
        else if m == 9 { 243 }
        else if m == 10 { 273 }
        else if m == 11 { 304 }
        else { 334 };
    common + if m > 2 && is_leap_year(y) { 1int } else { 0int }
}

/// A calendar date and a time of day without leap second.
pub open spec fn valid_date_time(y: int, mo: int, d: int, h: int, mi: int, s: int) -> bool {
    &&& 1 <= mo <= 12
    &&& 1 <= d <= days_in_month(y, mo)
    &&& 0 <= h < 24
    &&& 0 <= mi < 60
    &&& 0 <= s < 60
}

/// Seconds from 1970-01-01T00:00:00 UTC to the given UTC date and time.
pub open spec fn unix_seconds(y: int, mo: int, d: int, h: int, mi: int, s: int) -> int {
    (days_before_year(y) - days_before_year(1970) + days_before_month(y, mo) + d - 1) * 86400
        + h * 3600 + mi * 60 + s
}

/// Relies on chrono's `NaiveDate::from_ymd_opt` and `NaiveDate::and_hms_opt`,
/// which accept exactly the existing dates and the times without leap second,
/// and on `and_utc().timestamp()`, the count of non-leap seconds since
/// 1970-01-01 UTC.
#[verifier::external_body]
fn utc_timestamp(year: i32, month: u32, day: u32, hour: u32, min: u32, sec: u32) -> (r: Option<
    i64,
>)
    requires
        0 <= year <= 9999,
    ensures
        r is Some <==> valid_date_time(
            year as int,
            month as int,
            day as int,
            hour as int,
            min as int,
            sec as int,
        ),
        r matches Some(t) ==> t as int == unix_seconds(
            year as int,
            month as int,
            day as int,
            hour as int,
            min as int,
            sec as int,
        ),
{
    let date = chrono::NaiveDate::from_ymd_opt(year, month, day)?;
    Some(date.and_hms_opt(hour, min, sec)?.and_utc().timestamp())
}

/// An identity has the shape `YYYYMMDDTHHMMSSZ`.
pub open spec fn identity_shaped(id: Seq<char>) -> bool {
    &&& id.len() == 16
    &&& all_digits(id, 0, 8)
    &&& id[8] == 'T'
    &&& all_digits(id, 9, 15)
    &&& id[15] == 'Z'
}

/// The seconds since the epoch at which the build with this identity started,
/// where the identity names an existing UTC date and time not before 1970.
pub open spec fn start_time_of(id: Seq<char>) -> Option<int> {
    if !identity_shaped(id) {
        None
    } else {
        let y = digits_value(id, 0, 4);
        let mo = digits_value(id, 4, 6);
        let d = digits_value(id, 6, 8);
        let h = digits_value(id, 9, 11);
        let mi = digits_value(id, 11, 13);
        let s = digits_value(id, 13, 15);
        if valid_date_time(y, mo, d, h, mi, s) && unix_seconds(y, mo, d, h, mi, s) >= 0 {
            Some(unix_seconds(y, mo, d, h, mi, s))
        } else {
            None
        }
    }
}

fn field(v: &[char], lo: usize, hi: usize) -> (r: u32)
    requires
        lo <= hi <= v@.len(),
        hi - lo <= 4,
        all_digits(v@, lo as int, hi as int),
    ensures
        r as int == digits_value(v@, lo as int, hi as int),
        r <= 9999,
{
    proof {
        lemma_digits_value_bounds(v@, lo as int, hi as int);
        assert(pow10((hi - lo) as nat) <= 10000) by {
            reveal_with_fuel(pow10, 5);
        }
    }
    let x = parse_digits(v, lo, hi).unwrap();
    x as u32
}

/// The start time of a build, in seconds since 1970-01-01 UTC, from its
/// identity `YYYYMMDDTHHMMSSZ` read as a UTC date and time. Fails with
/// `MalformedFilename` where the identity is not of that shape, names no
/// existing date or time, or lies before 1970.
pub fn build_start_timestamp(identity: &str) -> (r: Result<u64, ExtractError>)
    ensures
        match r {
            Ok(t) => start_time_of(identity@) == Some(t as int),
            Err(e) => start_time_of(identity@) is None && e == ExtractError::MalformedFilename,
        },
{
    let v = chars_of(identity);
    let s = v.as_slice();
    if s.len() != 16 || s[8] != 'T' || s[15] != 'Z' {
        return Err(ExtractError::MalformedFilename);
    }
    proof {
        lemma_digits_end(v@, 0);
        lemma_digits_end(v@, 9);
    }
    if digits_end_exec(s, 0) < 8 || digits_end_exec(s, 9) < 15 {
        return Err(ExtractError::MalformedFilename);
    }
    assert(all_digits(v@, 0, 4) && all_digits(v@, 4, 6) && all_digits(v@, 6, 8));
    assert(all_digits(v@, 9, 11) && all_digits(v@, 11, 13) && all_digits(v@, 13, 15));
    let y = field(s, 0, 4);
    let mo = field(s, 4, 6);
    let d = field(s, 6, 8);
    let h = field(s, 9, 11);
    let mi = field(s, 11, 13);
    let sec = field(s, 13, 15);
    match utc_timestamp(y as i32, mo, d, h, mi, sec) {
        Some(t) => {
            if t < 0 {
                Err(ExtractError::MalformedFilename)
            } else {
                Ok(t as u64)
            }
        },
        None => Err(ExtractError::MalformedFilename),
    }
}

} // verus!
