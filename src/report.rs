//! Reading a timing report: its summary fields and its table of unit times.
//!
//! Digits are ASCII digits and whitespace is ASCII whitespace; times are kept
//! as the decimal text the report shows (`1.5` for `1.5s`).
use vstd::prelude::*;
use crate::text::{
    chars_of, digits_end, digits_end_exec, digits_value, is_digit, lemma_digits_end,
    lit_at, lit_at_exec, parse_digits, string_of,
};
use crate::ExtractError;

verus! {

/// The first index at or after `i` where `lit` occurs in `s`.
pub open spec fn find_from(s: Seq<char>, i: int, lit: Seq<char>) -> Option<int>
    decreases s.len() + 1 - i,
{
    if i < 0 || i + lit.len() > s.len() {
        None
    } else if lit_at(s, i, lit) {
        Some(i)
    } else {
        find_from(s, i + 1, lit)
    }
}

/// Where a decimal number `D+` or `D+.D+` that starts at `i` is directly
/// followed by `s`: the index of that `s`.
pub open spec fn seconds_end(s: Seq<char>, i: int) -> Option<int> {
    let e = digits_end(s, i);
    if e <= i || e >= s.len() {
        None
    } else if s[e] == 's' {
        Some(e)
    } else if s[e] == '.' && digits_end(s, e + 1) > e + 1 && digits_end(s, e + 1) < s.len()
        && s[digits_end(s, e + 1)] == 's' {
        Some(digits_end(s, e + 1))
    } else {
        None
    }
}

fn find_from_exec(v: &[char], i: usize, lit: &[char]) -> (r: Option<usize>)
    ensures
        r matches Some(k) ==> Some(k as int) == find_from(v@, i as int, lit@) && k + lit.len()
            <= v.len(),
        r is None ==> find_from(v@, i as int, lit@) is None,
{
    if i > v.len() {
        return None;
    }
    let mut k: usize = i;
    while k < v.len() && lit.len() <= v.len() - k
        invariant
            i <= k <= v@.len(),
            find_from(v@, i as int, lit@) == find_from(v@, k as int, lit@),
        decreases v.len() - k,
    {
        if lit_at_exec(v, k, lit) {
            return Some(k);
        }
        k = k + 1;
    }
    if lit.len() <= v.len() - k && lit_at_exec(v, k, lit) {
        Some(k)
    } else {
        proof {
            reveal_with_fuel(find_from, 2);
        }
        None
    }
}

fn seconds_end_exec(v: &[char], i: usize) -> (r: Option<usize>)
    requires
        i <= v@.len(),
    ensures
        r matches Some(k) ==> Some(k as int) == seconds_end(v@, i as int) && i < k < v@.len(),
        r is None ==> seconds_end(v@, i as int) is None,
{
    let e = digits_end_exec(v, i);
    if e <= i || e >= v.len() {
        return None;
    }
    if v[e] == 's' {
        return Some(e);
    }
    if v[e] != '.' {
        return None;
    }
    let f = digits_end_exec(v, e + 1);
    if f > e + 1 && f < v.len() && v[f] == 's' {
        Some(f)
    } else {
        None
    }
}

/// A labelled field of a report's summary block.
#[derive(Debug, Clone, Copy, PartialEq, Eq, Structural)]
pub enum SummaryField {
    TotalTime,
    TotalUnits,
    RustcVersion,
}

pub open spec fn field_label(f: SummaryField) -> Seq<char> {
    match f {
        SummaryField::TotalTime => "<td>Total time:</td><td>"@,
        SummaryField::TotalUnits => "<td>Total units:</td><td>"@,
        SummaryField::RustcVersion => "<td>rustc:</td><td>"@,
    }
}

pub open spec fn rustc_prefix() -> Seq<char> {
    "rustc "@
}

/// A character of a version token: ASCII letter or digit, `_`, `.` or `-`.
pub open spec fn is_version_char(c: char) -> bool {
    ('a' <= c && c <= 'z') || ('A' <= c && c <= 'Z') || is_digit(c) || c == '_' || c == '.' || c
        == '-'
}

/// Index of the first character at or after `i` that is no version character.
pub open spec fn version_end(s: Seq<char>, i: int) -> int
    decreases s.len() - i,
{
    if i < 0 || i >= s.len() || !is_version_char(s[i]) {
        i
    } else {
        version_end(s, i + 1)
    }
}

/// Where the label of `f` stands at `p`, the span of the value after it:
/// a decimal followed by `s` (the `s` left out), a run of digits, or
/// `rustc ` with a run of version characters.
pub open spec fn field_span(f: SummaryField, s: Seq<char>, p: int) -> Option<(int, int)> {
    let v0 = p + field_label(f).len();
    match f {
        SummaryField::TotalTime => match seconds_end(s, v0) {
            Some(e) => Some((v0, e)),
            None => None,
        },
        SummaryField::TotalUnits => if digits_end(s, v0) > v0 {
            Some((v0, digits_end(s, v0)))
        } else {
            None
        },
        SummaryField::RustcVersion => {
            let w = v0 + rustc_prefix().len();
            if lit_at(s, v0, rustc_prefix()) && version_end(s, w) > w {
                Some((v0, version_end(s, w)))
            } else {
                None
            }
        },
    }
}

pub open spec fn field_at(f: SummaryField, s: Seq<char>, p: int) -> bool {
    lit_at(s, p, field_label(f)) && field_span(f, s, p) is Some
}

/// The first index at or after `i` where field `f` stands with a value.
pub open spec fn first_field_from(f: SummaryField, s: Seq<char>, i: int) -> Option<int>
    decreases s.len() - i,
{
    if i < 0 || i >= s.len() {
        None
    } else if field_at(f, s, i) {
        Some(i)
    } else {
        first_field_from(f, s, i + 1)
    }
}

/// The text of the first value of field `f` in `s`.
pub open spec fn field_text(f: SummaryField, s: Seq<char>) -> Option<Seq<char>> {
    match first_field_from(f, s, 0) {
        Some(p) => match field_span(f, s, p) {
            Some((a, b)) => Some(s.subrange(a, b)),
            None => None,
        },
        None => None,
    }
}

fn field_label_exec(f: SummaryField) -> (r: Vec<char>)
    ensures
        r@ == field_label(f),
{
    match f {
        SummaryField::TotalTime => chars_of("<td>Total time:</td><td>"),
        SummaryField::TotalUnits => chars_of("<td>Total units:</td><td>"),
        SummaryField::RustcVersion => chars_of("<td>rustc:</td><td>"),
    }
}

fn version_end_exec(v: &[char], i: usize) -> (r: usize)
    requires
        i <= v@.len(),
    ensures
        r as int == version_end(v@, i as int),
        i <= r <= v@.len(),
{
    let mut k: usize = i;
    while k < v.len() && (('a' <= v[k] && v[k] <= 'z') || ('A' <= v[k] && v[k] <= 'Z') || ('0'
        <= v[k] && v[k] <= '9') || v[k] == '_' || v[k] == '.' || v[k] == '-')
        invariant
            i <= k <= v@.len(),
            version_end(v@, i as int) == version_end(v@, k as int),
        decreases v.len() - k,
    {
        k = k + 1;
    }
    k
}

fn field_span_exec(f: SummaryField, v: &[char], p: usize, label_len: usize) -> (r: Option<(usize, usize)>)
    requires
        label_len == field_label(f).len(),
        p + label_len <= v.len(),
    ensures
        r is None ==> field_span(f, v@, p as int) is None,
        r matches Some((a, b)) ==> field_span(f, v@, p as int) == Some((a as int, b as int)) && a
            <= b <= v@.len(),
{
    let v0 = p + label_len;
    match f {
        SummaryField::TotalTime => match seconds_end_exec(v, v0) {
            Some(e) => Some((v0, e)),
            None => None,
        },
        SummaryField::TotalUnits => {
            let e = digits_end_exec(v, v0);
            if e > v0 {
                Some((v0, e))
            } else {
                None
            }
        },
        SummaryField::RustcVersion => {
            let prefix = chars_of("rustc ");
            if !lit_at_exec(v, v0, prefix.as_slice()) {
                return None;
            }
            assert(v0 + prefix.len() <= v.len());
            let w = v0 + prefix.len();
            let e = version_end_exec(v, w);
            if e > w {
                Some((v0, e))
            } else {
                None
            }
        },
    }
}

/// Span of the first value of field `f` in `v`.
fn find_field(f: SummaryField, v: &[char]) -> (r: Option<(usize, usize)>)
    ensures
        r is None ==> field_text(f, v@) is None,
        r matches Some((a, b)) ==> a <= b <= v@.len() && field_text(f, v@) == Some(
            v@.subrange(a as int, b as int),
        ) && first_field_from(f, v@, 0) is Some && field_span(
            f,
            v@,
            first_field_from(f, v@, 0)->0,
        ) == Some((a as int, b as int)),
{
    let label = field_label_exec(f);
    let mut p: usize = 0;
    while p < v.len()
        invariant
            label@ == field_label(f),
            p <= v@.len(),
            first_field_from(f, v@, 0) == first_field_from(f, v@, p as int),
        decreases v.len() - p,
    {
        if label.len() <= v.len() - p && lit_at_exec(v, p, label.as_slice()) {
            match field_span_exec(f, v, p, label.len()) {
                Some((a, b)) => {
                    return Some((a, b));
                },
                None => {},
            }
        }
        p = p + 1;
    }
    None
}

/// Summary of one build.
#[derive(Debug, Clone, PartialEq, Eq)]
pub struct BuildMetadata {
    /// Total build time in seconds, as decimal text.
    pub total_time: String,
    pub rustc_version: String,
    pub total_units: usize,
    /// Build start, in seconds since 1970-01-01 UTC.
    pub build_start_unix_timestamp: u64,
    /// Revision of the sources that were built.
    pub commit_hash: String,
}

/// The plain values of a `BuildMetadata`.
pub struct BuildMetadataView {
    pub total_time: Seq<char>,
    pub rustc_version: Seq<char>,
    pub total_units: int,
    pub build_start_unix_timestamp: int,
    pub commit_hash: Seq<char>,
}

impl View for BuildMetadata {
    type V = BuildMetadataView;

    open spec fn view(&self) -> BuildMetadataView {
        BuildMetadataView {
            total_time: self.total_time@,
            rustc_version: self.rustc_version@,
            total_units: self.total_units as int,
            build_start_unix_timestamp: self.build_start_unix_timestamp as int,
            commit_hash: self.commit_hash@,
        }
    }
}

/// The summary of the report `s`, for a build that started at `start` from
/// revision `hash`: present when all three summary fields are found and the
/// unit count fits in `usize`.
pub open spec fn metadata_of(s: Seq<char>, start: int, hash: Seq<char>) -> Option<BuildMetadataView> {
    match (
        field_text(SummaryField::TotalTime, s),
        field_text(SummaryField::RustcVersion, s),
        field_text(SummaryField::TotalUnits, s),
    ) {
        (Some(t), Some(r), Some(u)) => if digits_value(u, 0, u.len() as int) <= usize::MAX {
            Some(
                BuildMetadataView {
                    total_time: t,
                    rustc_version: r,
                    total_units: digits_value(u, 0, u.len() as int),
                    build_start_unix_timestamp: start,
                    commit_hash: hash,
                },
            )
        } else {
            None
        },
        _ => None,
    }
}

proof fn lemma_digits_value_shift(s: Seq<char>, a: int, b: int)
    requires
        0 <= a <= b <= s.len(),
    ensures
        digits_value(s.subrange(a, b), 0, b - a) == digits_value(s, a, b),
    decreases b - a,
{
    if b > a {
        lemma_digits_value_shift(s, a, b - 1);
        assert(digits_value(s.subrange(a, b), 0, b - 1 - a) == digits_value(s.subrange(a, b - 1), 0, b - 1 - a)) by {
            lemma_digits_value_prefix(s.subrange(a, b), s.subrange(a, b - 1), b - 1 - a);
        }
    }
}

proof fn lemma_digits_value_prefix(s: Seq<char>, t: Seq<char>, n: int)
    requires
        0 <= n <= s.len(),
        n <= t.len(),
        forall|k: int| 0 <= k < n ==> s[k] == t[k],
    ensures
        digits_value(s, 0, n) == digits_value(t, 0, n),
    decreases n,
{
    if n > 0 {
        lemma_digits_value_prefix(s, t, n - 1);
    }
}

/// Reads the summary block of a report. Fails with `ExtractionFailed`
/// exactly when the total time, the compiler version or the unit count is
/// missing, or the unit count does not fit in `usize`.
pub fn extract_build_metadata(content: &str, build_start_unix_timestamp: u64, commit_hash: String) -> (r: Result<BuildMetadata, ExtractError>)
    ensures
        match r {
            Ok(m) => metadata_of(content@, build_start_unix_timestamp as int, commit_hash@) == Some(m@),
            Err(e) => metadata_of(content@, build_start_unix_timestamp as int, commit_hash@) is None
                && e == ExtractError::ExtractionFailed,
        },
{
    let v = chars_of(content);
    let s = v.as_slice();
    let (t0, t1) = match find_field(SummaryField::TotalTime, s) {
        Some(span) => span,
        None => return Err(ExtractError::ExtractionFailed),
    };
    let (r0, r1) = match find_field(SummaryField::RustcVersion, s) {
        Some(span) => span,
        None => return Err(ExtractError::ExtractionFailed),
    };
    let (u0, u1) = match find_field(SummaryField::TotalUnits, s) {
        Some(span) => span,
        None => return Err(ExtractError::ExtractionFailed),
    };
    proof {
        lemma_digits_end(v@, u0 as int);
        lemma_digits_value_shift(v@, u0 as int, u1 as int);
    }
    let total_units = match parse_digits(s, u0, u1) {
        Some(x) => x,
        None => return Err(ExtractError::ExtractionFailed),
    };
    Ok(
        BuildMetadata {
            total_time: string_of(s, t0, t1),
            rustc_version: string_of(s, r0, r1),
            total_units,
            build_start_unix_timestamp,
            commit_hash,
        },
    )
}

/// Time spent on one compilation unit.
#[derive(Debug, Clone, PartialEq, Eq)]
pub struct UnitBuildData {
    pub name: String,
    /// Seconds, as decimal text.
    pub time: String,
}

impl View for UnitBuildData {
    type V = (Seq<char>, Seq<char>);

    open spec fn view(&self) -> (Seq<char>, Seq<char>) {
        (self.name@, self.time@)
    }
}

pub open spec fn units_view(u: Seq<UnitBuildData>) -> Seq<(Seq<char>, Seq<char>)> {
    u.map_values(|x: UnitBuildData| x@)
}

pub open spec fn is_space(c: char) -> bool {
    c == ' ' || c == '\t' || c == '\n' || c == '\r' || c == '\x0B' || c == '\x0C'
}

/// Index of the first non-space at or after `i`.
pub open spec fn spaces_end(s: Seq<char>, i: int) -> int
    decreases s.len() - i,
{
    if i < 0 || i >= s.len() || !is_space(s[i]) {
        i
    } else {
        spaces_end(s, i + 1)
    }
}

pub open spec fn row_open() -> Seq<char> {
    "<tr>"@
}

pub open spec fn cell_open() -> Seq<char> {
    "<td>"@
}

pub open spec fn cell_close() -> Seq<char> {
    "</td>"@
}

pub open spec fn ordinal_close() -> Seq<char> {
    ".</td>"@
}

/// Where `</td>`, spaces, `<td>`, a decimal, `s</td>` start at `q`: the span
/// of the decimal.
pub open spec fn time_cell_at(t: Seq<char>, q: int) -> Option<(int, int)> {
    let c = spaces_end(t, q + cell_close().len());
    let v0 = c + cell_open().len();
    if lit_at(t, q, cell_close()) && lit_at(t, c, cell_open()) {
        match seconds_end(t, v0) {
            Some(e) => if lit_at(t, e + 1, cell_close()) {
                Some((v0, e))
            } else {
                None
            },
            None => None,
        }
    } else {
        None
    }
}

/// The end of a unit name that runs from `q` on: the first index where the
/// time cell starts, with no line break before it.
pub open spec fn name_end_from(t: Seq<char>, q: int) -> Option<int>
    decreases t.len() - q,
{
    if q < 0 || q >= t.len() {
        None
    } else if time_cell_at(t, q) is Some {
        Some(q)
    } else if t[q] == '\n' {
        None
    } else {
        name_end_from(t, q + 1)
    }
}

/// Where `<tr>`, spaces, `<td>`, digits, `.</td>`, spaces, `<td>` start at
/// `p`: the index after them, where the unit name begins.
pub open spec fn name_start_at(t: Seq<char>, p: int) -> Option<int> {
    let a = spaces_end(t, p + row_open().len());
    let d = digits_end(t, a + cell_open().len());
    let b = spaces_end(t, d + ordinal_close().len());
    if lit_at(t, p, row_open()) && lit_at(t, a, cell_open()) && d > a + cell_open().len() && lit_at(
        t,
        d,
        ordinal_close(),
    ) && lit_at(t, b, cell_open()) {
        Some(b + cell_open().len())
    } else {
        None
    }
}

/// A row that starts at `p`: the spans of its name and of its time.
pub open spec fn row_at(t: Seq<char>, p: int) -> Option<(int, int, int, int)> {
    match name_start_at(t, p) {
        Some(n0) => match name_end_from(t, n0) {
            Some(q) => match time_cell_at(t, q) {
                Some((v0, e)) => Some((n0, q, v0, e)),
                None => None,
            },
            None => None,
        },
        None => None,
    }
}

/// The rows of `t` from index `p` on, each searched for after the end of the
/// one before, as (name, time) in their order in `t`.
pub open spec fn rows_from(t: Seq<char>, p: int) -> Seq<(Seq<char>, Seq<char>)>
    decreases t.len() - p,
{
    if p < 0 || p >= t.len() {
        Seq::empty()
    } else {
        match row_at(t, p) {
            Some((n0, q, v0, e)) => {
                let next = if e + 1 + cell_close().len() > p {
                    e + 1 + cell_close().len()
                } else {
                    p + 1
                };
                seq![(t.subrange(n0, q), t.subrange(v0, e))] + rows_from(t, next)
            },
            None => rows_from(t, p + 1),
        }
    }
}

pub open spec fn table_marker() -> Seq<char> {
    "<table class=\"my-table\">"@
}

pub open spec fn body_open() -> Seq<char> {
    "<tbody>"@
}

pub open spec fn body_close() -> Seq<char> {
    "</tbody>"@
}

/// The span of the body of the unit table: from the first `<tbody>` after the
/// first table marker to the first `</tbody>` after that.
pub open spec fn table_body(s: Seq<char>) -> Option<(int, int)> {
    match find_from(s, 0, table_marker()) {
        Some(m) => match find_from(s, m + table_marker().len(), body_open()) {
            Some(b) => match find_from(s, b + body_open().len(), body_close()) {
                Some(e) => Some((b + body_open().len(), e)),
                None => None,
            },
            None => None,
        },
        None => None,
    }
}

/// The unit rows of a report, in their order; none where it has no table.
pub open spec fn units_of(s: Seq<char>) -> Seq<(Seq<char>, Seq<char>)> {
    match table_body(s) {
        Some((a, e)) => rows_from(s.subrange(a, e), 0),
        None => Seq::empty(),
    }
}

/// A report without a unit table has no unit rows; this is no failure.
pub proof fn lemma_no_table_no_units(s: Seq<char>)
    requires
        table_body(s) is None,
    ensures
        units_of(s) == Seq::<(Seq<char>, Seq<char>)>::empty(),
{
}

fn spaces_end_exec(v: &[char], i: usize) -> (r: usize)
    requires
        i <= v@.len(),
    ensures
        r as int == spaces_end(v@, i as int),
        i <= r <= v@.len(),
{
    let mut k: usize = i;
    while k < v.len() && (v[k] == ' ' || v[k] == '\t' || v[k] == '\n' || v[k] == '\r' || v[k]
        == '\x0B' || v[k] == '\x0C')
        invariant
            i <= k <= v@.len(),
            spaces_end(v@, i as int) == spaces_end(v@, k as int),
        decreases v.len() - k,
    {
        k = k + 1;
    }
    k
}

proof fn lemma_mark_lengths()
    ensures
        row_open().len() == 4,
        cell_open().len() == 4,
        cell_close().len() == 5,
        ordinal_close().len() == 6,
{
    reveal_strlit("<tr>");
    reveal_strlit("<td>");
    reveal_strlit("</td>");
    reveal_strlit(".</td>");
}

/// The literals of the row layout.
struct RowMarks {
    row_open: Vec<char>,
    cell_open: Vec<char>,
    cell_close: Vec<char>,
    ordinal_close: Vec<char>,
}

impl RowMarks {
    spec fn wf(&self) -> bool {
        &&& self.row_open@ == row_open()
        &&& self.cell_open@ == cell_open()
        &&& self.cell_close@ == cell_close()
        &&& self.ordinal_close@ == ordinal_close()
    }

    fn new() -> (r: RowMarks)
        ensures
            r.wf(),
    {
        RowMarks {
            row_open: chars_of("<tr>"),
            cell_open: chars_of("<td>"),
            cell_close: chars_of("</td>"),
            ordinal_close: chars_of(".</td>"),
        }
    }
}

fn time_cell_exec(m: &RowMarks, t: &[char], q: usize) -> (r: Option<(usize, usize)>)
    requires
        m.wf(),
        q <= t@.len(),
    ensures
        r is None ==> time_cell_at(t@, q as int) is None,
        r matches Some((v0, e)) ==> time_cell_at(t@, q as int) == Some((v0 as int, e as int)) && q
            < v0 <= e && e + 1 + cell_close().len() <= t@.len(),
{
    let close = m.cell_close.as_slice();
    if close.len() > t.len() - q || !lit_at_exec(t, q, close) {
        return None;
    }
    let c = spaces_end_exec(t, q + close.len());
    let open = m.cell_open.as_slice();
    if open.len() > t.len() - c || !lit_at_exec(t, c, open) {
        return None;
    }
    let v0 = c + open.len();
    match seconds_end_exec(t, v0) {
        Some(e) => {
            proof {
                lemma_mark_lengths();
            }
            if close.len() < t.len() - e && lit_at_exec(t, e + 1, close) {
                Some((v0, e))
            } else {
                None
            }
        },
        None => None,
    }
}

fn name_end_exec(m: &RowMarks, t: &[char], n0: usize) -> (r: Option<usize>)
    requires
        m.wf(),
        n0 <= t@.len(),
    ensures
        r is None ==> name_end_from(t@, n0 as int) is None,
        r matches Some(q) ==> name_end_from(t@, n0 as int) == Some(q as int) && n0 <= q < t@.len(),
{
    let mut q: usize = n0;
    while q < t.len()
        invariant
            m.wf(),
            n0 <= q <= t@.len(),
            name_end_from(t@, n0 as int) == name_end_from(t@, q as int),
        decreases t.len() - q,
    {
        if time_cell_exec(m, t, q).is_some() {
            return Some(q);
        }
        if t[q] == '\n' {
            return None;
        }
        q = q + 1;
    }
    None
}

fn name_start_exec(m: &RowMarks, t: &[char], p: usize) -> (r: Option<usize>)
    requires
        m.wf(),
        p <= t@.len(),
    ensures
        r is None ==> name_start_at(t@, p as int) is None,
        r matches Some(n0) ==> name_start_at(t@, p as int) == Some(n0 as int) && p < n0 <= t@.len(),
{
    proof {
        lemma_mark_lengths();
    }
    let row = m.row_open.as_slice();
    let open = m.cell_open.as_slice();
    let ord = m.ordinal_close.as_slice();
    if row.len() > t.len() - p || !lit_at_exec(t, p, row) {
        return None;
    }
    let a = spaces_end_exec(t, p + row.len());
    if open.len() > t.len() - a || !lit_at_exec(t, a, open) {
        return None;
    }
    let d = digits_end_exec(t, a + open.len());
    if d <= a + open.len() || ord.len() > t.len() - d || !lit_at_exec(t, d, ord) {
        return None;
    }
    let b = spaces_end_exec(t, d + ord.len());
    if open.len() > t.len() - b || !lit_at_exec(t, b, open) {
        return None;
    }
    Some(b + open.len())
}

fn row_at_exec(m: &RowMarks, t: &[char], p: usize) -> (r: Option<(usize, usize, usize, usize)>)
    requires
        m.wf(),
        p <= t@.len(),
    ensures
        r is None ==> row_at(t@, p as int) is None,
        r matches Some((n0, q, v0, e)) ==> row_at(t@, p as int) == Some(
            (n0 as int, q as int, v0 as int, e as int),
        ) && p < n0 <= q < v0 <= e && e + 1 + cell_close().len() <= t@.len(),
{
    let n0 = match name_start_exec(m, t, p) {
        Some(x) => x,
        None => return None,
    };
    let q = match name_end_exec(m, t, n0) {
        Some(x) => x,
        None => return None,
    };
    match time_cell_exec(m, t, q) {
        Some((v0, e)) => Some((n0, q, v0, e)),
        None => None,
    }
}

fn table_body_exec(v: &[char]) -> (r: Option<(usize, usize)>)
    ensures
        r is None ==> table_body(v@) is None,
        r matches Some((a, e)) ==> table_body(v@) == Some((a as int, e as int)) && a <= e
            <= v@.len(),
{
    let marker = chars_of("<table class=\"my-table\">");
    let open = chars_of("<tbody>");
    let close = chars_of("</tbody>");
    let m = match find_from_exec(v, 0, marker.as_slice()) {
        Some(x) => x,
        None => return None,
    };
    let b = match find_from_exec(v, m + marker.len(), open.as_slice()) {
        Some(x) => x,
        None => return None,
    };
    let a = b + open.len();
    match find_from_exec(v, a, close.as_slice()) {
        Some(e) => {
            proof {
                lemma_find_from_at_or_after(v@, a as int, close@);
            }
            Some((a, e))
        },
        None => None,
    }
}

proof fn lemma_find_from_at_or_after(s: Seq<char>, i: int, lit: Seq<char>)
    ensures
        find_from(s, i, lit) matches Some(k) ==> i <= k,
    decreases s.len() + 1 - i,
{
    if !(i < 0 || i + lit.len() > s.len()) && !lit_at(s, i, lit) {
        lemma_find_from_at_or_after(s, i + 1, lit);
    }
}

/// Reads the unit table of a report: one entry per row, in the order of the
/// rows, with the unit name as written and the time without its `s`. A report
/// without the table gives no entries.
pub fn extract_units_data(content: &str) -> (r: Vec<UnitBuildData>)
    ensures
        units_view(r@) == units_of(content@),
{
    let v = chars_of(content);
    let (a, e) = match table_body_exec(v.as_slice()) {
        Some(span) => span,
        None => {
            let r: Vec<UnitBuildData> = Vec::new();
            assert(units_view(r@) =~= Seq::empty());
            return r;
        },
    };
    let t = vstd::slice::slice_subrange(v.as_slice(), a, e);
    let marks = RowMarks::new();
    let mut out: Vec<UnitBuildData> = Vec::new();
    let mut p: usize = 0;
    assert(units_view(out@) =~= Seq::empty());
    while p < t.len()
        invariant
            marks.wf(),
            p <= t@.len(),
            t@ == content@.subrange(a as int, e as int),
            units_of(content@) == rows_from(t@, 0),
            units_view(out@) + rows_from(t@, p as int) == rows_from(t@, 0),
        decreases t.len() - p,
    {
        match row_at_exec(&marks, t, p) {
            Some((n0, q, v0, end)) => {
                let unit = UnitBuildData { name: string_of(t, n0, q), time: string_of(t, v0, end) };
                let ghost before = units_view(out@);
                out.push(unit);
                proof {
                    lemma_mark_lengths();
                    assert(units_view(out@) =~= before.push(unit@));
                    let x = seq![unit@];
                    assert(rows_from(t@, p as int) == x + rows_from(t@, end + 6));
                    assert(before + (x + rows_from(t@, end + 6)) =~= before.push(unit@) + rows_from(t@, end + 6));
                }
                p = end + 6;
            },
            None => {
                p = p + 1;
            },
        }
    }
    assert(units_view(out@) =~= units_view(out@) + rows_from(t@, p as int));
    out
}

} // verus!
