//! Pieces of the terminal trend chart: choosing which snapshots to show,
//! the short date labels, and the bars.

use vstd::prelude::*;

use crate::text::{self, push_char, push_decimal, push_padded, push_str, to_owned};

verus! {

/// Width of a bar, in characters.
pub const BAR_WIDTH: usize = 24;

/// How many snapshots a trend shows at most.
pub const SAMPLE_COUNT: usize = 10;

/// Index of the `i`-th of `n` samples spread evenly over `len` items:
/// `i * (len - 1) / (n - 1)` rounded to the nearest integer, halves up
/// (0 when `n` is 1).
pub open spec fn sample_index(i: int, len: int, n: int) -> int {
    if n <= 1 {
        0
    } else {
        (2 * i * (len - 1) + (n - 1)) / (2 * (n - 1))
    }
}

proof fn lemma_sample_index_bounds(i: int, len: int, n: int)
    requires
        2 <= n < len,
        0 <= i < n,
    ensures
        0 <= sample_index(i, len, n) < len,
        i == 0 ==> sample_index(i, len, n) == 0,
        i == n - 1 ==> sample_index(i, len, n) == len - 1,
{
    let b = n - 1;
    let a = i * (len - 1);
    assert(0 <= a) by (nonlinear_arith)
        requires
            0 <= i,
            len > 0,
            a == i * (len - 1),
    ;
    assert(a <= b * (len - 1)) by (nonlinear_arith)
        requires
            0 <= i <= b,
            len > 0,
            a == i * (len - 1),
    ;
    assert((2 * a + b) / (2 * b) <= len - 1) by (nonlinear_arith)
        requires
            0 <= a <= b * (len - 1),
            b >= 1,
    ;
    assert(0 <= (2 * a + b) / (2 * b)) by (nonlinear_arith)
        requires
            0 <= a,
            b >= 1,
    ;
    if i == 0 {
        assert((2 * 0 + b) / (2 * b) == 0) by (nonlinear_arith)
            requires
                b >= 1,
        ;
    }
    if i == n - 1 {
        assert(a == b * (len - 1)) by (nonlinear_arith)
            requires
                a == i * (len - 1),
                i == b,
        ;
        assert((2 * (b * (len - 1)) + b) / (2 * b) == len - 1) by (nonlinear_arith)
            requires
                b >= 1,
                len >= 1,
        ;
    }
    assert(2 * i * (len - 1) == 2 * a) by (nonlinear_arith)
        requires
            a == i * (len - 1),
    ;
}

/// At most `n` items chosen evenly across `items`: all of them when there
/// are no more than `n`, else `n` of them, always including the first and
/// the last so that the trend's endpoints are honest. Each index is the
/// exact even spread rounded half up (see [`sample_index`]). Computed in
/// floating point, an index that lies exactly half-way between two items
/// may round either way; such a half-way index needs `n - 1` to be even,
/// so it never arises for [`SAMPLE_COUNT`] samples.
pub fn sample<T>(items: &[T], n: usize) -> (r: Vec<&T>)
    requires
        items@.len() <= n || n >= 1,
    ensures
        items@.len() <= n ==> r@.len() == items@.len() && forall|k: int|
            0 <= k < r@.len() ==> *r@[k] == items@[k],
        items@.len() > n ==> r@.len() == n && forall|k: int|
            0 <= k < n ==> {
                &&& 0 <= #[trigger] sample_index(k, items@.len() as int, n as int) < items@.len()
                &&& *r@[k] == items@[sample_index(k, items@.len() as int, n as int)]
            },
        items@.len() > 0 ==> r@.len() > 0 && *r@[0] == items@[0],
        items@.len() > 0 && (items@.len() <= n || n >= 2) ==> *r@[r@.len() - 1] == items@[items@.len()
            - 1],
{
    let len = items.len();
    let mut r: Vec<&T> = Vec::new();
    if len <= n {
        let mut i: usize = 0;
        while i < len
            invariant
                len == items@.len(),
                i <= len,
                r@.len() == i,
                forall|k: int| 0 <= k < i ==> *r@[k] == items@[k],
            decreases len - i,
        {
            r.push(&items[i]);
            i = i + 1;
        }
        return r;
    }
    if n == 1 {
        r.push(&items[0]);
        return r;
    }
    let b: u128 = (n - 1) as u128;
    let mut i: usize = 0;
    while i < n
        invariant
            len == items@.len(),
            2 <= n < len,
            b == n - 1,
            i <= n,
            r@.len() == i,
            forall|k: int|
                0 <= k < i ==> {
                    &&& 0 <= #[trigger] sample_index(k, len as int, n as int) < len
                    &&& *r@[k] == items@[sample_index(k, len as int, n as int)]
                },
        decreases n - i,
    {
        proof {
            lemma_sample_index_bounds(i as int, len as int, n as int);
        }
        assert((i as u128) * ((len - 1) as u128) <= 0xffff_ffff_ffff_ffffu128
            * 0xffff_ffff_ffff_ffffu128) by (nonlinear_arith)
            requires
                i < n,
                n < len,
                len <= 0xffff_ffff_ffff_ffffu128,
        ;
        let a: u128 = (i as u128) * ((len - 1) as u128);
        assert(a / b <= a) by (nonlinear_arith)
            requires
                b >= 1,
                a >= 0,
        ;
        let q: u128 = a / b;
        let rem: u128 = a % b;
        let idx128: u128 = if 2 * rem >= b {
            q + 1
        } else {
            q
        };
        assert(idx128 == (2 * a + b) / (2 * b)) by (nonlinear_arith)
            requires
                b >= 1,
                q == a / b,
                rem == a % b,
                2 * rem >= b ==> idx128 == q + 1,
                2 * rem < b ==> idx128 == q,
        ;
        assert(2 * i * (len - 1) == 2 * a) by (nonlinear_arith)
            requires
                a == i * (len - 1),
        ;
        let idx = idx128 as usize;
        r.push(&items[idx]);
        i = i + 1;
    }
    proof {
        lemma_sample_index_bounds((n - 1) as int, len as int, n as int);
        lemma_sample_index_bounds(0, len as int, n as int);
    }
    r
}

/// A bar of `filled` full blocks followed by light blocks up to
/// [`BAR_WIDTH`] characters.
pub open spec fn bar_text(filled: int) -> Seq<char> {
    Seq::new(filled as nat, |i: int| '\u{2588}') + Seq::new(
        (BAR_WIDTH - filled) as nat,
        |i: int| '\u{2591}',
    )
}

/// The bar of a percentage that fills `filled` of [`BAR_WIDTH`] cells.
pub fn bar(filled: usize) -> (r: String)
    requires
        filled <= BAR_WIDTH,
    ensures
        r@ == bar_text(filled as int),
        r@.len() == BAR_WIDTH,
{
    let mut s = String::new();
    let mut i: usize = 0;
    while i < BAR_WIDTH
        invariant
            filled <= BAR_WIDTH,
            i <= BAR_WIDTH,
            s@.len() == i,
            forall|k: int| 0 <= k < i ==> s@[k] == (if k < filled {
                '\u{2588}'
            } else {
                '\u{2591}'
            }),
        decreases BAR_WIDTH - i,
    {
        if i < filled {
            push_char(&mut s, '\u{2588}');
        } else {
            push_char(&mut s, '\u{2591}');
        }
        i = i + 1;
    }
    assert(s@ =~= bar_text(filled as int));
    s
}

/// Value of a decimal digit byte, if it is one.
pub open spec fn digit_value(b: u8) -> Option<int> {
    if 48 <= b <= 57 {
        Some(b - 48)
    } else {
        None
    }
}

/// How a two-byte text parses as a `u32` (`str::parse`): two digits, or a
/// `+` sign and one digit.
pub open spec fn parse_two(b0: u8, b1: u8) -> Option<int> {
    match (digit_value(b0), digit_value(b1)) {
        (Some(d0), Some(d1)) => Some(10 * d0 + d1),
        (None, Some(d1)) => if b0 == 43 {
            Some(d1)
        } else {
            None
        },
        _ => None,
    }
}

/// The three-letter name of month `i` (0 = January).
pub open spec fn month_abbrev(i: int) -> Seq<char> {
    if i == 0 {
        "Jan"@
    } else if i == 1 {
        "Feb"@
    } else if i == 2 {
        "Mar"@
    } else if i == 3 {
        "Apr"@
    } else if i == 4 {
        "May"@
    } else if i == 5 {
        "Jun"@
    } else if i == 6 {
        "Jul"@
    } else if i == 7 {
        "Aug"@
    } else if i == 8 {
        "Sep"@
    } else if i == 9 {
        "Oct"@
    } else if i == 10 {
        "Nov"@
    } else {
        "Dec"@
    }
}

/// Where a timestamp's month number `m` points in the month list:
/// month 0 counts as January and months past 12 as December.
pub open spec fn month_slot(m: int) -> int {
    if m <= 1 {
        0
    } else if m - 1 > 11 {
        11
    } else {
        m - 1
    }
}

/// `MMM DD` from an ISO-8601 timestamp such as `2026-05-06T11:30:00Z`: the
/// month from bytes 5..7 and the day from bytes 8..10, each 1 when it does
/// not parse; the text itself when it is shorter than 10 bytes.
pub open spec fn short_date_text(iso: Seq<char>) -> Seq<char> {
    let b = vstd::utf8::encode_utf8(iso);
    if b.len() < 10 {
        iso
    } else {
        let month = match parse_two(b[5], b[6]) {
            Some(m) => m,
            None => 1,
        };
        let day = match parse_two(b[8], b[9]) {
            Some(d) => d,
            None => 1,
        };
        month_abbrev(month_slot(month)) + " "@ + text::padded(day as nat, 2)
    }
}

fn month_name(i: u32) -> (r: &'static str)
    ensures
        r@ == month_abbrev(i as int),
{
    if i == 0 {
        "Jan"
    } else if i == 1 {
        "Feb"
    } else if i == 2 {
        "Mar"
    } else if i == 3 {
        "Apr"
    } else if i == 4 {
        "May"
    } else if i == 5 {
        "Jun"
    } else if i == 6 {
        "Jul"
    } else if i == 7 {
        "Aug"
    } else if i == 8 {
        "Sep"
    } else if i == 9 {
        "Oct"
    } else if i == 10 {
        "Nov"
    } else {
        "Dec"
    }
}

fn parse_two_bytes(b0: u8, b1: u8) -> (r: Option<u32>)
    ensures
        match r {
            Some(v) => parse_two(b0, b1) == Some(v as int),
            None => parse_two(b0, b1) is None,
        },
{
    let d1_ok = 48 <= b1 && b1 <= 57;
    if !d1_ok {
        return None;
    }
    let d1 = (b1 - 48) as u32;
    if 48 <= b0 && b0 <= 57 {
        Some(10 * ((b0 - 48) as u32) + d1)
    } else if b0 == 43 {
        Some(d1)
    } else {
        None
    }
}

/// `MMM DD` from an ISO-8601 timestamp like `2026-05-06T11:30:00Z`.
pub fn short_date(iso: &str) -> (r: String)
    requires
        sliceable(iso@),
    ensures
        r@ == short_date_text(iso@),
{
    let b = iso.as_bytes();
    if b.len() < 10 {
        return to_owned(iso);
    }
    let month: u32 = match parse_two_bytes(b[5], b[6]) {
        Some(m) => m,
        None => 1,
    };
    let day: u32 = match parse_two_bytes(b[8], b[9]) {
        Some(d) => d,
        None => 1,
    };
    let slot: u32 = if month <= 1 {
        0
    } else if month - 1 > 11 {
        11
    } else {
        month - 1
    };
    let mut s = to_owned(month_name(slot));
    push_str(&mut s, " ");
    push_padded(&mut s, day as u64, 2);
    s
}

} // verus!

verus! {

proof fn lemma_ascii_concat(a: Seq<char>, b: Seq<char>)
    requires
        vstd::utf8::is_ascii_chars(a),
        vstd::utf8::is_ascii_chars(b),
    ensures
        vstd::utf8::is_ascii_chars(a + b),
{
    assert forall|i: int| 0 <= i < (a + b).len() implies '\0' <= #[trigger] (a + b)[i] <= '\u{7f}' by {
        if i < a.len() {
            assert((a + b)[i] == a[i]);
        } else {
            assert((a + b)[i] == b[i - a.len()]);
        }
    }
}

proof fn lemma_two_digit_text(n: int)
    requires
        0 <= n < 100,
    ensures
        text::padded_signed(n, 2) == seq![
            text::digit_char(n / 10),
            text::digit_char(n % 10),
        ],
        vstd::utf8::is_ascii_chars(text::padded_signed(n, 2)),
{
    text::lemma_two_digits(n as nat);
    text::lemma_digit_char(n / 10);
    text::lemma_digit_char(n % 10);
    assert(text::padded_signed(n, 2) == text::padded(n as nat, 2));
}

/// The trend's date label of a snapshot timestamp is the name of the
/// timestamp's calendar month and its zero-padded day of the month (for
/// instants from 1970 up to the year 9999).
pub proof fn lemma_short_date_of_timestamp(t: int)
    requires
        t >= 0,
        crate::calendar::civil_of_unix(t).0 <= 9999,
    ensures
        ({
            let (_y, mo, d, _h, _mi, _s) = crate::calendar::civil_of_unix(t);
            short_date_text(crate::score::iso8601_text(t)) == month_abbrev(mo - 1) + " "@
                + text::padded(d as nat, 2)
        }),
{
    let days = t / 86400;
    crate::calendar::lemma_civil_is_calendar_date(days);
    crate::calendar::lemma_time_of_day(t);
    let (y, mo, d, h, mi, s) = crate::calendar::civil_of_unix(t);
    assert(crate::calendar::month_len(y, mo - 1) <= 31);
    text::lemma_four_digits(y as nat);
    text::lemma_digit_char(y / 1000);
    text::lemma_digit_char((y / 100) % 10);
    text::lemma_digit_char((y / 10) % 10);
    text::lemma_digit_char(y % 10);
    let yy = text::padded_signed(y, 4);
    assert(yy == text::padded(y as nat, 4));
    assert(vstd::utf8::is_ascii_chars(yy));
    lemma_two_digit_text(mo);
    lemma_two_digit_text(d);
    lemma_two_digit_text(h);
    lemma_two_digit_text(mi);
    lemma_two_digit_text(s);
    reveal_strlit("-");
    reveal_strlit("T");
    reveal_strlit(":");
    reveal_strlit("Z");
    let mm = text::padded_signed(mo, 2);
    let dd = text::padded_signed(d, 2);
    let hh = text::padded_signed(h, 2);
    let nn = text::padded_signed(mi, 2);
    let ss = text::padded_signed(s, 2);
    let iso = crate::score::iso8601_text(t);
    assert(iso == yy + "-"@ + mm + "-"@ + dd + "T"@ + hh + ":"@ + nn + ":"@ + ss + "Z"@);
    let p1 = yy + "-"@;
    let p2 = p1 + mm;
    let p3 = p2 + "-"@;
    let p4 = p3 + dd;
    let p5 = p4 + "T"@;
    let p6 = p5 + hh;
    let p7 = p6 + ":"@;
    let p8 = p7 + nn;
    let p9 = p8 + ":"@;
    let p10 = p9 + ss;
    assert(vstd::utf8::is_ascii_chars("-"@));
    assert(vstd::utf8::is_ascii_chars("T"@));
    assert(vstd::utf8::is_ascii_chars(":"@));
    assert(vstd::utf8::is_ascii_chars("Z"@));
    lemma_ascii_concat(yy, "-"@);
    lemma_ascii_concat(p1, mm);
    lemma_ascii_concat(p2, "-"@);
    lemma_ascii_concat(p3, dd);
    lemma_ascii_concat(p4, "T"@);
    lemma_ascii_concat(p5, hh);
    lemma_ascii_concat(p6, ":"@);
    lemma_ascii_concat(p7, nn);
    lemma_ascii_concat(p8, ":"@);
    lemma_ascii_concat(p9, ss);
    lemma_ascii_concat(p10, "Z"@);
    assert(iso == p10 + "Z"@);
    vstd::utf8::is_ascii_chars_encode_utf8(iso);
    let b = vstd::utf8::encode_utf8(iso);
    assert(iso.len() == 20);
    assert(iso[5] == mm[0] && iso[6] == mm[1] && iso[8] == dd[0] && iso[9] == dd[1]);
    text::lemma_digit_char(mo / 10);
    text::lemma_digit_char(mo % 10);
    text::lemma_digit_char(d / 10);
    text::lemma_digit_char(d % 10);
    assert(b[5] == 48 + mo / 10 && b[6] == 48 + mo % 10);
    assert(b[8] == 48 + d / 10 && b[9] == 48 + d % 10);
    assert(parse_two(b[5], b[6]) == Some(mo));
    assert(parse_two(b[8], b[9]) == Some(d));
    assert(month_slot(mo) == mo - 1);
}

} // verus!

verus! {

/// One point of one series: how many bar cells it fills and its
/// percentage as printed (right-aligned, one decimal).
pub struct Reading {
    pub filled: usize,
    pub label: String,
}

/// One sampled snapshot of the chart.
pub struct TrendRow {
    pub timestamp: String,
    pub overall: Reading,
    pub ownership: Reading,
    pub descriptions: Reading,
}

/// Which way the overall score moved between the first and last sample.
pub enum Direction {
    Up,
    Down,
    Level,
}

/// The closing line's figures, as printed.
pub struct TrendSummary {
    pub direction: Direction,
    /// First overall percentage, one decimal.
    pub first: String,
    /// Last overall percentage, one decimal.
    pub last: String,
    /// The change in percentage points, signed, one decimal.
    pub delta: String,
}

/// Which series a chart block shows.
pub open spec fn reading_of(row: TrendRow, series: int) -> Reading {
    if series == 0 {
        row.overall
    } else if series == 1 {
        row.ownership
    } else {
        row.descriptions
    }
}

/// Whether a timestamp can be cut into its month and day bytes.
pub open spec fn sliceable(iso: Seq<char>) -> bool {
    vstd::utf8::encode_utf8(iso).len() >= 10 ==> {
        let b = vstd::utf8::encode_utf8(iso);
        &&& vstd::utf8::is_char_boundary(b, 5)
        &&& vstd::utf8::is_char_boundary(b, 7)
        &&& vstd::utf8::is_char_boundary(b, 8)
        &&& vstd::utf8::is_char_boundary(b, 10)
    }
}

/// Whether every row can be drawn.
pub open spec fn drawable(rows: Seq<TrendRow>) -> bool {
    forall|i: int|
        0 <= i < rows.len() ==> {
            &&& sliceable((#[trigger] rows[i]).timestamp@)
            &&& rows[i].overall.filled <= BAR_WIDTH
            &&& rows[i].ownership.filled <= BAR_WIDTH
            &&& rows[i].descriptions.filled <= BAR_WIDTH
        }
}

/// The chart line of one row in one series.
pub open spec fn series_line(row: TrendRow, series: int) -> Seq<char> {
    let r = reading_of(row, series);
    "    "@ + short_date_text(row.timestamp@) + " "@ + bar_text(r.filled as int) + " "@ + r.label@
        + "%\n"@
}

/// The chart lines of rows in one series, in order.
pub open spec fn series_lines(rows: Seq<TrendRow>, series: int) -> Seq<char>
    decreases rows.len(),
{
    if rows.len() == 0 {
        Seq::empty()
    } else {
        series_lines(rows.drop_last(), series) + series_line(rows.last(), series)
    }
}

/// The arrow of a direction.
pub open spec fn arrow(d: Direction) -> Seq<char> {
    match d {
        Direction::Up => "\u{2191}"@,
        Direction::Down => "\u{2193}"@,
        Direction::Level => "\u{2192}"@,
    }
}

/// The chart of `total` snapshots sampled to `rows`.
pub open spec fn chart_text(total: nat, rows: Seq<TrendRow>, s: TrendSummary) -> Seq<char> {
    "dbt-fleet trend ("@ + text::digits(total) + " snapshots, sampled to "@ + text::digits(rows.len())
        + ")\n"@ + "\n"@ + "  Overall:\n"@ + series_lines(rows, 0) + "\n"@ + "  Ownership:\n"@
        + series_lines(rows, 1) + "\n"@ + "  Descriptions:\n"@ + series_lines(rows, 2) + "\n"@
        + "Overall: "@ + arrow(s.direction) + " "@ + s.first@ + "% \u{2192} "@ + s.last@ + "% ("@
        + s.delta@ + "pp)\n"@
}

/// What the chart says when there is no history.
pub const NO_HISTORY: &'static str = "No history yet. Run `dbt-fleet score` to record the first snapshot.\n";

/// The chart of a history holding a single snapshot taken at `timestamp`
/// with overall percentage `overall` (one decimal).
pub open spec fn single_text(timestamp: Seq<char>, overall: Seq<char>) -> Seq<char> {
    "Only one snapshot recorded so far.\n"@ + "\n"@ + "  "@ + timestamp + ": overall "@ + overall
        + "%\n"@ + "Run `dbt-fleet score` again later to start the trend.\n"@
}

/// The chart of a history holding a single snapshot.
pub fn render_single(timestamp: &str, overall: &str) -> (r: String)
    ensures
        r@ == single_text(timestamp@, overall@),
{
    let mut s = to_owned("Only one snapshot recorded so far.\n");
    push_str(&mut s, "\n");
    push_str(&mut s, "  ");
    push_str(&mut s, timestamp);
    push_str(&mut s, ": overall ");
    push_str(&mut s, overall);
    push_str(&mut s, "%\n");
    push_str(&mut s, "Run `dbt-fleet score` again later to start the trend.\n");
    assert(s@ =~= single_text(timestamp@, overall@));
    s
}

fn write_series(out: &mut String, rows: &Vec<TrendRow>, series: u8)
    requires
        drawable(rows@),
        series < 3,
    ensures
        final(out)@ == old(out)@ + series_lines(rows@, series as int),
{
    let ghost start = out@;
    let mut i: usize = 0;
    while i < rows.len()
        invariant
            i <= rows@.len(),
            drawable(rows@),
            series < 3,
            out@ == start + series_lines(rows@.subrange(0, i as int), series as int),
        decreases rows.len() - i,
    {
        assert(rows@.subrange(0, i + 1).drop_last() =~= rows@.subrange(0, i as int));
        let row = &rows[i];
        assert(sliceable(row.timestamp@) && row.overall.filled <= BAR_WIDTH
            && row.ownership.filled <= BAR_WIDTH && row.descriptions.filled <= BAR_WIDTH);
        let reading = if series == 0 {
            &row.overall
        } else if series == 1 {
            &row.ownership
        } else {
            &row.descriptions
        };
        let ghost before = out@;
        push_str(out, "    ");
        let date = short_date(row.timestamp.as_str());
        push_str(out, date.as_str());
        push_str(out, " ");
        let b = bar(reading.filled);
        push_str(out, b.as_str());
        push_str(out, " ");
        push_str(out, reading.label.as_str());
        push_str(out, "%\n");
        assert(out@ =~= before + series_line(*row, series as int));
        i = i + 1;
        assert(out@ =~= start + series_lines(rows@.subrange(0, i as int), series as int));
    }
    assert(rows@.subrange(0, i as int) =~= rows@);
}

/// The chart of `total` snapshots, sampled to `rows`, closing with the
/// overall movement `summary`.
pub fn render_chart(total: usize, rows: &Vec<TrendRow>, summary: &TrendSummary) -> (r: String)
    requires
        drawable(rows@),
    ensures
        r@ == chart_text(total as nat, rows@, *summary),
{
    let mut s = to_owned("dbt-fleet trend (");
    push_decimal(&mut s, total as u64);
    push_str(&mut s, " snapshots, sampled to ");
    push_decimal(&mut s, rows.len() as u64);
    push_str(&mut s, ")\n");
    push_str(&mut s, "\n");
    push_str(&mut s, "  Overall:\n");
    write_series(&mut s, rows, 0);
    push_str(&mut s, "\n");
    push_str(&mut s, "  Ownership:\n");
    write_series(&mut s, rows, 1);
    push_str(&mut s, "\n");
    push_str(&mut s, "  Descriptions:\n");
    write_series(&mut s, rows, 2);
    push_str(&mut s, "\n");
    push_str(&mut s, "Overall: ");
    match summary.direction {
        Direction::Up => push_str(&mut s, "\u{2191}"),
        Direction::Down => push_str(&mut s, "\u{2193}"),
        Direction::Level => push_str(&mut s, "\u{2192}"),
    }
    push_str(&mut s, " ");
    push_str(&mut s, summary.first.as_str());
    push_str(&mut s, "% \u{2192} ");
    push_str(&mut s, summary.last.as_str());
    push_str(&mut s, "% (");
    push_str(&mut s, summary.delta.as_str());
    push_str(&mut s, "pp)\n");
    assert(s@ =~= chart_text(total as nat, rows@, *summary));
    s
}

} // verus!

verus! {

/// When there are more items than samples, the sampled indices strictly
/// increase: no item is shown twice and the order of the history is kept.
pub proof fn lemma_samples_strictly_increase(i: int, len: int, n: int)
    requires
        2 <= n < len,
        0 <= i < n - 1,
    ensures
        sample_index(i, len, n) < sample_index(i + 1, len, n),
{
    let b = n - 1;
    let m = 2 * b;
    let x = 2 * i * (len - 1) + b;
    let y = 2 * (i + 1) * (len - 1) + b;
    assert(y == x + 2 * (len - 1)) by (nonlinear_arith)
        requires
            x == 2 * i * (len - 1) + b,
            y == 2 * (i + 1) * (len - 1) + b,
    ;
    assert(x >= 0) by (nonlinear_arith)
        requires
            x == 2 * i * (len - 1) + b,
            i >= 0,
            len >= 1,
            b >= 1,
    ;
    assert(x / m < y / m) by (nonlinear_arith)
        requires
            y >= x + m,
            x >= 0,
            m >= 2,
    ;
}

} // verus!

verus! {

/// The chart line drawing reading `r` for a snapshot taken at `timestamp`.
pub open spec fn drawn_line(timestamp: Seq<char>, r: Reading) -> Seq<char> {
    "    "@ + short_date_text(timestamp) + " "@ + bar_text(r.filled as int) + " "@ + r.label@ + "%\n"@
}

/// The chart lines drawing `readings[i]` for the snapshot of `rows[i]`, in
/// order.
pub open spec fn drawn_lines(rows: Seq<TrendRow>, readings: Seq<Reading>) -> Seq<char>
    decreases rows.len(),
{
    if rows.len() == 0 || readings.len() == 0 {
        Seq::empty()
    } else {
        drawn_lines(rows.drop_last(), readings.drop_last()) + drawn_line(
            rows.last().timestamp@,
            readings.last(),
        )
    }
}

proof fn lemma_series_lines_draw(rows: Seq<TrendRow>)
    ensures
        series_lines(rows, 0) == drawn_lines(rows, rows.map_values(|r: TrendRow| r.overall)),
        series_lines(rows, 1) == drawn_lines(rows, rows.map_values(|r: TrendRow| r.ownership)),
        series_lines(rows, 2) == drawn_lines(rows, rows.map_values(|r: TrendRow| r.descriptions)),
    decreases rows.len(),
{
    if rows.len() > 0 {
        lemma_series_lines_draw(rows.drop_last());
        assert(rows.map_values(|r: TrendRow| r.overall).drop_last() =~= rows.drop_last().map_values(
            |r: TrendRow| r.overall,
        ));
        assert(rows.map_values(|r: TrendRow| r.ownership).drop_last() =~= rows.drop_last().map_values(
            |r: TrendRow| r.ownership,
        ));
        assert(rows.map_values(|r: TrendRow| r.descriptions).drop_last()
            =~= rows.drop_last().map_values(|r: TrendRow| r.descriptions));
    }
}

/// The chart draws, under "Overall", each sampled snapshot's overall
/// reading; under "Ownership", its ownership reading; and under
/// "Descriptions", its descriptions reading; each block in the order of
/// the snapshots, after a heading with the number of snapshots and of
/// samples, and before the line on the overall movement.
pub proof fn lemma_chart_blocks(total: nat, rows: Seq<TrendRow>, s: TrendSummary)
    ensures
        chart_text(total, rows, s) == "dbt-fleet trend ("@ + text::digits(total) + " snapshots, sampled to "@
            + text::digits(rows.len()) + ")\n"@ + "\n"@ + "  Overall:\n"@ + drawn_lines(
            rows,
            rows.map_values(|r: TrendRow| r.overall),
        ) + "\n"@ + "  Ownership:\n"@ + drawn_lines(rows, rows.map_values(|r: TrendRow| r.ownership))
            + "\n"@ + "  Descriptions:\n"@ + drawn_lines(
            rows,
            rows.map_values(|r: TrendRow| r.descriptions),
        ) + "\n"@ + "Overall: "@ + arrow(s.direction) + " "@ + s.first@ + "% \u{2192} "@ + s.last@
            + "% ("@ + s.delta@ + "pp)\n"@,
{
    lemma_series_lines_draw(rows);
}

} // verus!
