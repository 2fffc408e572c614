//! Calendar dates in the proleptic Gregorian calendar, as `chrono::NaiveDate`
//! represents them: the library holds a date as its year, month and day, and
//! every computation on one is a call into chrono stated against the plain
//! calendar rules below.

use vstd::prelude::*;
use vstd::string::*;
use chrono::Datelike;
use crate::numeric::zero_padded;
use crate::clocks::{lemma_text_lt_irreflexive, lemma_text_lt_transitive, lemma_text_lt_trichotomy, text_less, text_lt};

verus! {

/// First year that `NaiveDate` represents.
pub const MIN_YEAR: i32 = -262143;

/// Last year that `NaiveDate` represents.
pub const MAX_YEAR: i32 = 262142;

/// A calendar date.
#[derive(Clone, Copy, Debug, PartialEq, Eq, Structural)]
pub struct Date {
    pub year: i32,
    pub month: u32,
    pub day: u32,
}

/// Whether a year is a leap year (year 0, 1 BCE, is one).
pub open spec fn is_leap(y: int) -> bool {
    y % 4 == 0 && (y % 100 != 0 || y % 400 == 0)
}

/// Number of days of month `m` of year `y`.
pub open spec fn month_days(y: int, m: int) -> int {
    if m == 2 {
        if is_leap(y) {
            29
        } else {
            28
        }
    } else if m == 4 || m == 6 || m == 9 || m == 11 {
        30
    } else {
        31
    }
}

/// Whether `y-m-d` is a date that `NaiveDate` represents.
pub open spec fn civil_valid(y: int, m: int, d: int) -> bool {
    MIN_YEAR <= y <= MAX_YEAR && 1 <= m <= 12 && 1 <= d <= month_days(y, m)
}

impl Date {
    /// Whether this is a date that `NaiveDate` represents.
    pub open spec fn wf(self) -> bool {
        civil_valid(self.year as int, self.month as int, self.day as int)
    }
}

/// The date that follows `d` in the calendar (ignoring the representable
/// range).
pub open spec fn next_day(d: Date) -> Date {
    if (d.day as int) < month_days(d.year as int, d.month as int) {
        Date { year: d.year, month: d.month, day: (d.day + 1) as u32 }
    } else if d.month < 12 {
        Date { year: d.year, month: (d.month + 1) as u32, day: 1 }
    } else {
        Date { year: (d.year + 1) as i32, month: 1, day: 1 }
    }
}

/// The date that precedes `d` in the calendar (ignoring the representable
/// range).
pub open spec fn prev_day(d: Date) -> Date {
    if d.day > 1 {
        Date { year: d.year, month: d.month, day: (d.day - 1) as u32 }
    } else if d.month > 1 {
        Date {
            year: d.year,
            month: (d.month - 1) as u32,
            day: month_days(d.year as int, d.month - 1) as u32,
        }
    } else {
        Date { year: (d.year - 1) as i32, month: 12, day: 31 }
    }
}

/// The date `n` days after `d`.
pub open spec fn plus_days(d: Date, n: nat) -> Date
    decreases n,
{
    if n == 0 {
        d
    } else {
        plus_days(next_day(d), (n - 1) as nat)
    }
}

/// Position of a date in calendar order: dates compare as their
/// `(year, month, day)` triples do.
pub open spec fn date_ord(d: Date) -> int {
    d.year * 512 + d.month * 32 + d.day
}

/// Whether `a` comes before `b` in the calendar.
pub open spec fn date_lt(a: Date, b: Date) -> bool {
    a.year < b.year || (a.year == b.year && (a.month < b.month || (a.month == b.month && a.day < b.day)))
}

/// Whether the month and day are in their ranges.
pub open spec fn in_bounds(d: Date) -> bool {
    1 <= d.month <= 12 && 1 <= d.day <= 31
}

/// For dates with month and day in range, calendar order is the order of
/// `date_ord`.
pub proof fn lemma_ord_matches_lt(a: Date, b: Date)
    requires
        in_bounds(a),
        in_bounds(b),
    ensures
        date_lt(a, b) <==> date_ord(a) < date_ord(b),
        a == b <==> date_ord(a) == date_ord(b),
{
    assert(a.month * 32 + a.day < 512);
    assert(b.month * 32 + b.day < 512);
    if a.year < b.year {
        assert(a.year * 512 + 512 <= b.year * 512);
    }
    if b.year < a.year {
        assert(b.year * 512 + 512 <= a.year * 512);
    }
}

proof fn lemma_month_days_range(y: int, m: int)
    ensures
        28 <= month_days(y, m) <= 31,
{
}

/// The next day is later, and keeps month and day in range.
pub proof fn lemma_next_day_later(d: Date)
    requires
        in_bounds(d),
        d.year < i32::MAX,
        d.day as int <= month_days(d.year as int, d.month as int),
    ensures
        in_bounds(next_day(d)),
        date_ord(next_day(d)) > date_ord(d),
        date_lt(d, next_day(d)),
        next_day(d).day as int <= month_days(next_day(d).year as int, next_day(d).month as int),
{
    lemma_month_days_range(d.year as int, d.month as int);
    lemma_month_days_range(next_day(d).year as int, next_day(d).month as int);
}

/// `n + 1` days on is the day after `n` days on.
pub proof fn lemma_plus_days_succ(d: Date, n: nat)
    ensures
        plus_days(d, n + 1) == next_day(plus_days(d, n)),
    decreases n,
{
    assert(plus_days(d, n + 1) == plus_days(next_day(d), n));
    if n > 0 {
        lemma_plus_days_succ(next_day(d), (n - 1) as nat);
        assert(plus_days(d, n) == plus_days(next_day(d), (n - 1) as nat));
    } else {
        assert(plus_days(next_day(d), 0) == next_day(d));
    }
}

/// Going on more days gives a later date, and advances the year by at most
/// one per day.
pub proof fn lemma_plus_days_later(d: Date, n: nat)
    requires
        in_bounds(d),
        d.day as int <= month_days(d.year as int, d.month as int),
        d.year + n < i32::MAX,
    ensures
        n > 0 ==> date_ord(plus_days(d, n)) > date_ord(d),
        in_bounds(plus_days(d, n)),
        plus_days(d, n).day as int <= month_days(plus_days(d, n).year as int, plus_days(d, n).month as int),
        d.year <= plus_days(d, n).year <= d.year + n,
    decreases n,
{
    if n > 0 {
        let e = next_day(d);
        lemma_next_day_later(d);
        assert(e.year <= d.year + 1);
        lemma_plus_days_later(e, (n - 1) as nat);
        assert(plus_days(d, n) == plus_days(e, (n - 1) as nat));
    }
}

/// Over spans shorter than the representable range, `plus_days` is
/// one-to-one in the count.
pub proof fn lemma_plus_days_injective(d: Date, a: nat, b: nat)
    requires
        d.wf(),
        plus_days(d, a) == plus_days(d, b),
        a < 200_000_000,
        b < 200_000_000,
    ensures
        a == b,
{
    if a < b {
        lemma_plus_days_split(d, a, (b - a) as nat);
        lemma_plus_days_later(d, a);
        lemma_plus_days_later(plus_days(d, a), (b - a) as nat);
    } else if b < a {
        lemma_plus_days_split(d, b, (a - b) as nat);
        lemma_plus_days_later(d, b);
        lemma_plus_days_later(plus_days(d, b), (a - b) as nat);
    }
}

/// Going on `a` days and then `b` is going on `a + b`.
pub proof fn lemma_plus_days_split(d: Date, a: nat, b: nat)
    ensures
        plus_days(plus_days(d, a), b) == plus_days(d, a + b),
    decreases b,
{
    if b > 0 {
        lemma_plus_days_split(d, a, (b - 1) as nat);
        lemma_plus_days_succ(plus_days(d, a), (b - 1) as nat);
        lemma_plus_days_succ(d, (a + b - 1) as nat);
    }
}

/// Counting from the first of a month reaches the first of the next month
/// after as many days as the month has.
pub proof fn lemma_month_length(y: i32, m: u32)
    requires
        1 <= m <= 12,
        y < i32::MAX,
    ensures
        forall|k: nat| k < month_days(y as int, m as int) ==> #[trigger] plus_days(
            Date { year: y, month: m, day: 1 },
            k,
        ) == (Date { year: y, month: m, day: (1 + k) as u32 }),
        plus_days(Date { year: y, month: m, day: 1 }, month_days(y as int, m as int) as nat) == (if m < 12 {
            Date { year: y, month: (m + 1) as u32, day: 1 }
        } else {
            Date { year: (y + 1) as i32, month: 1, day: 1 }
        }),
{
    let first = Date { year: y, month: m, day: 1 };
    let md = month_days(y as int, m as int);
    lemma_month_days_range(y as int, m as int);
    assert forall|k: nat| k < md implies #[trigger] plus_days(first, k) == (Date {
        year: y,
        month: m,
        day: (1 + k) as u32,
    }) by {
        lemma_month_prefix(y, m, k);
    }
    lemma_month_prefix(y, m, (md - 1) as nat);
    lemma_plus_days_succ(first, (md - 1) as nat);
}

proof fn lemma_month_prefix(y: i32, m: u32, k: nat)
    requires
        1 <= m <= 12,
        k < month_days(y as int, m as int),
    ensures
        plus_days(Date { year: y, month: m, day: 1 }, k) == (Date { year: y, month: m, day: (1 + k) as u32 }),
    decreases k,
{
    lemma_month_days_range(y as int, m as int);
    if k > 0 {
        lemma_month_prefix(y, m, (k - 1) as nat);
        lemma_plus_days_succ(Date { year: y, month: m, day: 1 }, (k - 1) as nat);
    }
}

// ── chrono ─────────────────────────────────────────────────────────────

/// Calls `NaiveDate::from_ymd_opt`: the date when it exists and is within
/// the representable years, `None` otherwise.
#[verifier::external_body]
pub(crate) fn from_ymd(year: i32, month: u32, day: u32) -> (r: Option<Date>)
    ensures
        r == (if civil_valid(year as int, month as int, day as int) {
            Some(Date { year, month, day })
        } else {
            None::<Date>
        }),
{
    match chrono::NaiveDate::from_ymd_opt(year, month, day) {
        Some(d) => Some(Date { year: d.year(), month: d.month(), day: d.day() }),
        None => None,
    }
}

/// Calls `NaiveDate::pred_opt`: the previous calendar date, `None` before
/// the first representable date.
#[verifier::external_body]
pub(crate) fn pred(d: Date) -> (r: Option<Date>)
    requires
        d.wf(),
    ensures
        r == (if prev_day(d).wf() {
            Some(prev_day(d))
        } else {
            None::<Date>
        }),
{
    let n = chrono::NaiveDate::from_ymd_opt(d.year, d.month, d.day).unwrap();
    match n.pred_opt() {
        Some(p) => Some(Date { year: p.year(), month: p.month(), day: p.day() }),
        None => None,
    }
}

/// Calls `NaiveDate::checked_add_signed` with `TimeDelta::days(n)`: the
/// date `n` days on, `None` past the last representable date.
#[verifier::external_body]
pub(crate) fn add_days(d: Date, n: i64) -> (r: Option<Date>)
    requires
        d.wf(),
        0 <= n <= 366,
    ensures
        r == (if plus_days(d, n as nat).wf() {
            Some(plus_days(d, n as nat))
        } else {
            None::<Date>
        }),
{
    let x = chrono::NaiveDate::from_ymd_opt(d.year, d.month, d.day).unwrap();
    match x.checked_add_signed(chrono::TimeDelta::days(n)) {
        Some(p) => Some(Date { year: p.year(), month: p.month(), day: p.day() }),
        None => None,
    }
}

/// Calls `Datelike::with_year`: the same month and day in `year`, when that
/// date exists.
#[verifier::external_body]
pub(crate) fn with_year(d: Date, year: i32) -> (r: Option<Date>)
    requires
        d.wf(),
    ensures
        r == (if civil_valid(year as int, d.month as int, d.day as int) {
            Some(Date { year, month: d.month, day: d.day })
        } else {
            None::<Date>
        }),
{
    let x = chrono::NaiveDate::from_ymd_opt(d.year, d.month, d.day).unwrap();
    match x.with_year(year) {
        Some(p) => Some(Date { year: p.year(), month: p.month(), day: p.day() }),
        None => None,
    }
}

/// Calls `NaiveDate::signed_duration_since(..).num_days()`: the number of
/// days from `since` to `d`, negative when `d` is earlier. Both dates lie in
/// the representable range, which spans fewer than 200 million days.
#[verifier::external_body]
pub(crate) fn days_since(d: Date, since: Date) -> (r: i64)
    requires
        d.wf(),
        since.wf(),
    ensures
        r >= 0 ==> plus_days(since, r as nat) == d,
        r < 0 ==> plus_days(d, -r as nat) == since,
        -200_000_000 < r < 200_000_000,
{
    let a = chrono::NaiveDate::from_ymd_opt(d.year, d.month, d.day).unwrap();
    let b = chrono::NaiveDate::from_ymd_opt(since.year, since.month, since.day).unwrap();
    a.signed_duration_since(b).num_days()
}

/// Calls `Local::now().date_naive()`: today's date in the machine's time
/// zone. Only that it is a representable date is promised.
#[verifier::external_body]
pub(crate) fn today_local() -> (d: Date)
    ensures
        d.wf(),
{
    let t = chrono::Local::now().date_naive();
    Date { year: t.year(), month: t.month(), day: t.day() }
}

/// What `NaiveDate::parse_from_str(s, "%Y-%m-%d")` gives for a text, as
/// `(year, month, day)`.
pub uninterp spec fn parse_ymd_spec(s: Seq<char>) -> Option<(int, int, int)>;

/// Calls `NaiveDate::parse_from_str(s, "%Y-%m-%d")`. The result is named by
/// `parse_ymd_spec`; a parsed date is a representable date.
#[verifier::external_body]
pub(crate) fn parse_ymd(s: &str) -> (r: Option<Date>)
    ensures
        match r {
            Some(d) => parse_ymd_spec(s@) == Some((d.year as int, d.month as int, d.day as int)) && d.wf(),
            None => parse_ymd_spec(s@) is None,
        },
{
    match chrono::NaiveDate::parse_from_str(s, "%Y-%m-%d") {
        Ok(p) => Some(Date { year: p.year(), month: p.month(), day: p.day() }),
        Err(_) => None,
    }
}

/// How chrono writes a year for `%Y`: four digits, zero-padded, for the
/// years 0 to 9999; otherwise with a sign (`+` or `-`) before the digits of
/// its magnitude, zero-padded to four (`write_year`, `{:+05}`).
pub open spec fn year_text(y: int) -> Seq<char> {
    if 0 <= y <= 9999 {
        zero_padded(y as nat, 4)
    } else if y > 9999 {
        "+"@ + zero_padded(y as nat, 4)
    } else {
        "-"@ + zero_padded((-y) as nat, 4)
    }
}

/// What `NaiveDate::format("%Y-%m-%d")` writes for a date: the year as
/// `year_text`, then month and day as two zero-padded digits each.
pub open spec fn format_ymd_spec(y: int, m: int, d: int) -> Seq<char> {
    year_text(y) + "-"@ + zero_padded(m as nat, 2) + "-"@ + zero_padded(d as nat, 2)
}

/// `YYYY-MM-DD` with the year zero-padded to four digits.
pub open spec fn iso_date(d: Date) -> Seq<char> {
    zero_padded(d.year as nat, 4) + "-"@ + zero_padded(d.month as nat, 2) + "-"@ + zero_padded(d.day as nat, 2)
}

/// Calls `NaiveDate::format("%Y-%m-%d")` and renders it: `format_ymd_spec`,
/// as chrono's `write_year` and two-digit fields write it.
#[verifier::external_body]
pub(crate) fn format_ymd(d: Date) -> (s: String)
    requires
        d.wf(),
    ensures
        s@ == format_ymd_spec(d.year as int, d.month as int, d.day as int),
{
    let x = chrono::NaiveDate::from_ymd_opt(d.year, d.month, d.day).unwrap();
    x.format("%Y-%m-%d").to_string()
}

// ── Verified date arithmetic ───────────────────────────────────────────

/// The number of days of month `month` of `year`.
pub fn month_length(year: i32, month: u32) -> (n: u32)
    requires
        MIN_YEAR <= year <= MAX_YEAR,
    ensures
        n as int == month_days(year as int, month as int),
{
    if month == 2 {
        // Shifted by a whole number of 400-year cycles, so that the
        // remainders below are taken of a positive number.
        let p: i64 = year as i64 + 262_400;
        assert(p % 4 == year % 4 && p % 100 == year % 100 && p % 400 == year % 400);
        if p % 4 == 0 && (p % 100 != 0 || p % 400 == 0) {
            29
        } else {
            28
        }
    } else if month == 4 || month == 6 || month == 9 || month == 11 {
        30
    } else {
        31
    }
}

/// The date that follows `d`.
pub fn next_date(d: Date) -> (r: Date)
    requires
        d.wf(),
    ensures
        r == next_day(d),
{
    if d.day < month_length(d.year, d.month) {
        Date { year: d.year, month: d.month, day: d.day + 1 }
    } else if d.month < 12 {
        Date { year: d.year, month: d.month + 1, day: 1 }
    } else {
        Date { year: d.year + 1, month: 1, day: 1 }
    }
}

/// Whether `a` comes before `b`.
pub fn before(a: Date, b: Date) -> (r: bool)
    ensures
        r == date_lt(a, b),
{
    a.year < b.year || (a.year == b.year && (a.month < b.month || (a.month == b.month && a.day < b.day)))
}

/// The number of days of a month as the reminders compute it: from the
/// first of the month to the first of the next; 30 when either is not a
/// representable date.
pub open spec fn days_in_month_spec(y: int, m: int) -> int {
    let next_ok = if m == 12 {
        civil_valid(y + 1, 1, 1)
    } else {
        civil_valid(y, m + 1, 1)
    };
    if next_ok && civil_valid(y, m, 1) {
        month_days(y, m)
    } else {
        30
    }
}

/// Days in month `month` of `year` (see `days_in_month_spec`).
pub fn days_in_month(year: i32, month: u32) -> (r: u32)
    requires
        year < i32::MAX,
        month < u32::MAX,
    ensures
        r as int == days_in_month_spec(year as int, month as int),
{
    let next = if month == 12 {
        from_ymd(year + 1, 1, 1)
    } else {
        from_ymd(year, month + 1, 1)
    };
    match (next, from_ymd(year, month, 1)) {
        (Some(n), Some(f)) => {
            let k = days_since(n, f);
            proof {
                lemma_month_length(year, month);
                let md = month_days(year as int, month as int);
                lemma_month_days_range(year as int, month as int);
                if k < 0 {
                    lemma_plus_days_later(n, -k as nat);
                    lemma_plus_days_later(f, md as nat);
                    lemma_plus_days_split(f, md as nat, -k as nat);
                    lemma_plus_days_injective(f, 0, (md - k) as nat);
                } else {
                    lemma_plus_days_injective(f, k as nat, md as nat);
                }
            }
            k as u32
        },
        _ => 30,
    }
}

// ── Recurring dates ────────────────────────────────────────────────────

/// The smaller of two integers.
pub open spec fn min_int(a: int, b: int) -> int {
    if a <= b {
        a
    } else {
        b
    }
}

/// The month after `(y, m)`.
pub open spec fn next_month(y: int, m: int) -> (int, int) {
    if m == 12 {
        (y + 1, 1)
    } else {
        (y, m + 1)
    }
}

/// The next occurrence of a date repeating with `freq` (`daily`, `weekly`,
/// `yearly`, anything else monthly): a day, a week, the same day next year
/// (365 days on when that day does not exist), or the same day next month
/// clamped to the month's length (the date itself when that month is past
/// the representable range).
pub open spec fn advance_spec(d: Date, freq: Seq<char>) -> Date {
    if freq == "daily"@ {
        plus_days(d, 1)
    } else if freq == "weekly"@ {
        plus_days(d, 7)
    } else if freq == "yearly"@ {
        if civil_valid(d.year + 1, d.month as int, d.day as int) {
            Date { year: (d.year + 1) as i32, month: d.month, day: d.day }
        } else {
            plus_days(d, 365)
        }
    } else {
        let (ny, nm) = next_month(d.year as int, d.month as int);
        let day = min_int(d.day as int, days_in_month_spec(ny, nm));
        if civil_valid(ny, nm, day) {
            Date { year: ny as i32, month: nm as u32, day: day as u32 }
        } else {
            d
        }
    }
}

/// Whether the next occurrence is within the representable range where
/// chrono's date arithmetic would otherwise overflow.
pub open spec fn advance_defined(d: Date, freq: Seq<char>) -> bool {
    if freq == "daily"@ {
        plus_days(d, 1).wf()
    } else if freq == "weekly"@ {
        plus_days(d, 7).wf()
    } else if freq == "yearly"@ {
        civil_valid(d.year + 1, d.month as int, d.day as int) || plus_days(d, 365).wf()
    } else {
        true
    }
}

/// The next occurrence of a repeating date (see `advance_spec`).
pub fn advance_date(date: Date, frequency: &str) -> (r: Date)
    requires
        date.wf(),
        advance_defined(date, frequency@),
    ensures
        r == advance_spec(date, frequency@),
        r.wf(),
{
    if crate::text::str_eq(frequency, "daily") {
        match add_days(date, 1) {
            Some(x) => x,
            None => date,
        }
    } else if crate::text::str_eq(frequency, "weekly") {
        match add_days(date, 7) {
            Some(x) => x,
            None => date,
        }
    } else if crate::text::str_eq(frequency, "yearly") {
        match with_year(date, date.year + 1) {
            Some(x) => x,
            None => match add_days(date, 365) {
                Some(x) => x,
                None => date,
            },
        }
    } else {
        let (y, m) = if date.month == 12 {
            (date.year + 1, 1u32)
        } else {
            (date.year, date.month + 1)
        };
        let last_day = days_in_month(y, m);
        let day = if date.day <= last_day {
            date.day
        } else {
            last_day
        };
        match from_ymd(y, m, day) {
            Some(x) => x,
            None => date,
        }
    }
}

/// The next occurrence when it is defined and later than `d`; `None` where
/// chrono's date arithmetic would overflow or the date would not move on.
pub open spec fn step_spec(d: Date, freq: Seq<char>) -> Option<Date> {
    let a = advance_spec(d, freq);
    if advance_defined(d, freq) && a.wf() && date_lt(d, a) {
        Some(a)
    } else {
        None
    }
}

fn step(d: Date, freq: &str) -> (r: Option<Date>)
    requires
        d.wf(),
    ensures
        r == step_spec(d, freq@),
{
    let defined = if crate::text::str_eq(freq, "daily") {
        add_days(d, 1).is_some()
    } else if crate::text::str_eq(freq, "weekly") {
        add_days(d, 7).is_some()
    } else if crate::text::str_eq(freq, "yearly") {
        with_year(d, d.year + 1).is_some() || add_days(d, 365).is_some()
    } else {
        true
    };
    if !defined {
        return None;
    }
    let a = advance_date(d, freq);
    if before(d, a) {
        Some(a)
    } else {
        None
    }
}

/// The first occurrence on or after `first`, starting from `d` (a one-time
/// date stays where it is); `None` when stepping fails on the way.
pub open spec fn skip_to_spec(d: Date, freq: Seq<char>, one_time: bool, first: Date) -> Option<Date>
    decreases (if in_bounds(d) && in_bounds(first) && date_lt(d, first) {
        date_ord(first) - date_ord(d)
    } else {
        0
    }),
{
    if !date_lt(d, first) || one_time || !in_bounds(d) || !in_bounds(first) {
        Some(d)
    } else {
        match step_spec(d, freq) {
            Some(n) => {
                proof {
                    lemma_ord_matches_lt(d, n);
                    lemma_ord_matches_lt(d, first);
                    if date_lt(n, first) {
                        lemma_ord_matches_lt(n, first);
                    }
                }
                skip_to_spec(n, freq, one_time, first)
            },
            None => None,
        }
    }
}

/// The occurrences from `d` on that fall within `first ..= last` (a one-time
/// date at most once); `None` when stepping fails on the way.
pub open spec fn emit_spec(d: Date, freq: Seq<char>, one_time: bool, first: Date, last: Date) -> Option<Seq<Date>>
    decreases (if in_bounds(d) && in_bounds(last) && !date_lt(last, d) {
        date_ord(last) - date_ord(d) + 1
    } else {
        0
    }),
{
    if date_lt(last, d) || date_lt(d, first) {
        Some(Seq::empty())
    } else if one_time || !in_bounds(d) || !in_bounds(last) {
        Some(seq![d])
    } else {
        match step_spec(d, freq) {
            Some(n) => {
                proof {
                    lemma_ord_matches_lt(d, n);
                    lemma_ord_matches_lt(last, d);
                    lemma_ord_matches_lt(last, n);
                }
                match emit_spec(n, freq, one_time, first, last) {
                    Some(rest) => Some(seq![d] + rest),
                    None => None,
                }
            },
            None => None,
        }
    }
}

/// The dates within `first ..= last` of a date repeating with `freq` from
/// `start`: first moved on to the window, then every occurrence up to its
/// end. With `one_time` the date does not repeat.
pub open spec fn occurrences_spec(start: Date, freq: Seq<char>, one_time: bool, first: Date, last: Date) -> Option<
    Seq<Date>,
> {
    match skip_to_spec(start, freq, one_time, first) {
        Some(d) => emit_spec(d, freq, one_time, first, last),
        None => None,
    }
}

/// The occurrences of a repeating date within a window (see
/// `occurrences_spec`); `None` when the dates would run past the
/// representable range.
pub fn occurrences_in(start: Date, frequency: &str, one_time: bool, first: Date, last: Date) -> (r: Option<Vec<Date>>)
    requires
        start.wf(),
        first.wf(),
        last.wf(),
    ensures
        match r {
            Some(v) => occurrences_spec(start, frequency@, one_time, first, last) == Some(v@),
            None => occurrences_spec(start, frequency@, one_time, first, last) is None,
        },
{
    let mut date = start;
    while before(date, first) && !one_time
        invariant
            date.wf(),
            first.wf(),
            skip_to_spec(start, frequency@, one_time, first) == skip_to_spec(date, frequency@, one_time, first),
        decreases (if date_lt(date, first) {
            date_ord(first) - date_ord(date)
        } else {
            0
        }),
    {
        match step(date, frequency) {
            Some(n) => {
                proof {
                    lemma_ord_matches_lt(date, n);
                    lemma_ord_matches_lt(date, first);
                    if date_lt(n, first) {
                        lemma_ord_matches_lt(n, first);
                    }
                }
                date = n;
            },
            None => {
                return None;
            },
        }
    }
    let mut out: Vec<Date> = Vec::new();
    let ghost d0 = date;
    loop
        invariant
            date.wf(),
            first.wf(),
            last.wf(),
            skip_to_spec(start, frequency@, one_time, first) == Some(d0),
            emit_spec(d0, frequency@, one_time, first, last) == match emit_spec(date, frequency@, one_time, first, last) {
                Some(rest) => Some(out@ + rest),
                None => None::<Seq<Date>>,
            },
        decreases (if !date_lt(last, date) {
            date_ord(last) - date_ord(date) + 1
        } else {
            0
        }),
    {
        if before(last, date) || before(date, first) {
            assert(out@ + Seq::<Date>::empty() =~= out@);
            return Some(out);
        }
        out.push(date);
        if one_time {
            assert(out@ =~= out@.drop_last() + seq![date]);
            return Some(out);
        }
        match step(date, frequency) {
            Some(n) => {
                proof {
                    lemma_ord_matches_lt(date, n);
                    lemma_ord_matches_lt(last, date);
                    lemma_ord_matches_lt(last, n);
                    let prev = out@.drop_last();
                    match emit_spec(n, frequency@, one_time, first, last) {
                        Some(rest) => {
                            assert(prev + (seq![date] + rest) =~= out@ + rest);
                        },
                        None => {},
                    }
                }
                date = n;
            },
            None => {
                return None;
            },
        }
    }
}

// ── Card due dates ─────────────────────────────────────────────────────

/// A card's due date in month `(y, m)` for due day `due_day` (clamped to the
/// month's length), when the day is between 1 and 31 and the date exists.
pub open spec fn card_due_spec(y: int, m: int, due_day: int) -> Option<Date> {
    if 1 <= due_day <= 31 {
        let day = min_int(due_day, days_in_month_spec(y, m));
        if civil_valid(y, m, day) {
            Some(Date { year: y as i32, month: m as u32, day: day as u32 })
        } else {
            None
        }
    } else {
        None
    }
}

/// A card's due date within the given month (see `card_due_spec`).
pub fn card_due_in_month(year: i32, month: u32, due_day: i64) -> (r: Option<Date>)
    requires
        year < i32::MAX,
        month < u32::MAX,
    ensures
        r == card_due_spec(year as int, month as int, due_day as int),
{
    if due_day < 1 || due_day > 31 {
        return None;
    }
    let dim = days_in_month(year, month);
    let day: u32 = if (due_day as u32) <= dim {
        due_day as u32
    } else {
        dim
    };
    from_ymd(year, month, day)
}

/// The next due date of a card on or after `today`: this month's, or when
/// that has passed, next month's (this month's again when next month's does
/// not exist).
pub open spec fn card_next_due_spec(today: Date, due_day: int) -> Option<Date> {
    match card_due_spec(today.year as int, today.month as int, due_day) {
        Some(d) => if !date_lt(d, today) {
            Some(d)
        } else {
            let (ny, nm) = next_month(today.year as int, today.month as int);
            match card_due_spec(ny, nm, due_day) {
                Some(n) => Some(n),
                None => Some(d),
            }
        },
        None => None,
    }
}

/// The next due date of a card (see `card_next_due_spec`).
pub fn card_next_due(today: Date, due_day: i64) -> (r: Option<Date>)
    requires
        today.wf(),
    ensures
        r == card_next_due_spec(today, due_day as int),
{
    match card_due_in_month(today.year, today.month, due_day) {
        Some(d) => if !before(d, today) {
            Some(d)
        } else {
            let (ny, nm) = if today.month == 12 {
                (today.year + 1, 1u32)
            } else {
                (today.year, today.month + 1)
            };
            match card_due_in_month(ny, nm, due_day) {
                Some(n) => Some(n),
                None => Some(d),
            }
        },
        None => None,
    }
}

/// The number of days from `since` to `d`, negative when `d` is earlier
/// (counted within the span of the representable range).
pub open spec fn days_between(d: Date, since: Date) -> int {
    if !date_lt(d, since) {
        (choose|k: nat| k < 200_000_000 && plus_days(since, k) == d) as int
    } else {
        -((choose|k: nat| k < 200_000_000 && plus_days(d, k) == since) as int)
    }
}

/// The number of days from `since` to `d` (see `days_between`).
pub fn days_from(d: Date, since: Date) -> (r: i64)
    requires
        d.wf(),
        since.wf(),
    ensures
        r == days_between(d, since),
        -200_000_000 < r < 200_000_000,
{
    let r = days_since(d, since);
    proof {
        if r >= 0 {
            lemma_plus_days_later(since, r as nat);
            lemma_ord_matches_lt(d, since);
            assert(r < 200_000_000 && plus_days(since, r as nat) == d);
            let k = choose|k: nat| k < 200_000_000 && plus_days(since, k) == d;
            lemma_plus_days_injective(since, k, r as nat);
        } else {
            lemma_plus_days_later(d, -r as nat);
            lemma_ord_matches_lt(d, since);
            assert((-r) < 200_000_000 && plus_days(d, -r as nat) == since);
            let k = choose|k: nat| k < 200_000_000 && plus_days(d, k) == since;
            lemma_plus_days_injective(d, k, -r as nat);
        }
    }
    r
}

/// Days from `today` to `due`, and whether that is within `horizon` days
/// (overdue dates always are).
pub fn due_within(due: Date, today: Date, horizon: i64) -> (r: (i64, bool))
    requires
        due.wf(),
        today.wf(),
    ensures
        r.0 == days_between(due, today),
        r.1 == (days_between(due, today) <= horizon),
{
    let diff = days_from(due, today);
    (diff, diff <= horizon)
}

/// Whether the next occurrence of `d` is defined (see `advance_defined`).
pub fn advance_is_defined(d: Date, frequency: &str) -> (r: bool)
    requires
        d.wf(),
    ensures
        r == advance_defined(d, frequency@),
{
    if crate::text::str_eq(frequency, "daily") {
        add_days(d, 1).is_some()
    } else if crate::text::str_eq(frequency, "weekly") {
        add_days(d, 7).is_some()
    } else if crate::text::str_eq(frequency, "yearly") {
        with_year(d, d.year + 1).is_some() || add_days(d, 365).is_some()
    } else {
        true
    }
}

/// The first occurrence after `today` of a repeating date, moving on from
/// `d` at least once; `None` when stepping fails on the way.
pub open spec fn next_after_spec(d: Date, freq: Seq<char>, today: Date) -> Option<Date>
    decreases (if in_bounds(d) && in_bounds(today) && !date_lt(today, d) {
        date_ord(today) - date_ord(d) + 1
    } else {
        0
    }),
{
    match step_spec(d, freq) {
        Some(n) => if date_lt(today, n) || !in_bounds(d) || !in_bounds(today) {
            Some(n)
        } else {
            proof {
                lemma_ord_matches_lt(d, n);
                lemma_ord_matches_lt(today, n);
                lemma_ord_matches_lt(today, d);
            }
            next_after_spec(n, freq, today)
        },
        None => None,
    }
}

/// The next due date of a recurring transaction applied on `today`: its due
/// date moved on until it is after today (see `next_after_spec`).
pub fn next_due_after(due: Date, frequency: &str, today: Date) -> (r: Option<Date>)
    requires
        due.wf(),
        today.wf(),
    ensures
        r == next_after_spec(due, frequency@, today),
        r matches Some(n) ==> n.wf(),
{
    let mut d = due;
    loop
        invariant
            d.wf(),
            today.wf(),
            next_after_spec(due, frequency@, today) == next_after_spec(d, frequency@, today),
        decreases (if !date_lt(today, d) {
            date_ord(today) - date_ord(d) + 1
        } else {
            0
        }),
    {
        match step(d, frequency) {
            Some(n) => {
                if before(today, n) {
                    return Some(n);
                }
                proof {
                    lemma_ord_matches_lt(d, n);
                    lemma_ord_matches_lt(today, n);
                    lemma_ord_matches_lt(today, d);
                }
                d = n;
            },
            None => {
                return None;
            },
        }
    }
}

/// Calls `Local::now().iso_week()`: the ISO year and week of the current
/// local date. Only that the week is between 1 and 53 is promised.
#[verifier::external_body]
pub(crate) fn current_iso_week() -> (r: (i32, u32))
    ensures
        1 <= r.1 <= 53,
{
    let w = chrono::Local::now().iso_week();
    (w.year(), w.week())
}

/// The first and last day of the month `(year, month)` that the calendar
/// view shows; an invalid month is refused. The last representable month has
/// no successor month to count back from (chrono panics there), so it is
/// left out.
pub fn month_window(year: i32, month: u32) -> (r: Result<(Date, Date), crate::error::AppError>)
    requires
        !(year == MAX_YEAR && month == 12),
    ensures
        civil_valid(year as int, month as int, 1) ==> (r matches Ok((f, l)) && f == (Date { year, month, day: 1 })
            && l == (Date { year, month, day: month_days(year as int, month as int) as u32 })),
        !civil_valid(year as int, month as int, 1) ==> (r matches Err(crate::error::AppError::Database(m)) && m@
            == "invalid year/month"@),
{
    let first = match from_ymd(year, month, 1) {
        Some(f) => f,
        None => {
            return Err(crate::error::AppError::Database(String::from_str("invalid year/month")));
        },
    };
    let next = if month == 12 {
        from_ymd(year + 1, 1, 1)
    } else {
        from_ymd(year, month + 1, 1)
    };
    let next = match next {
        Some(n) => n,
        None => first,
    };
    let last = match pred(next) {
        Some(p) => p,
        None => first,
    };
    Ok((first, last))
}

// ── Ordering by date text ──────────────────────────────────────────────

/// The texts of a list of strings.
pub open spec fn texts(v: Seq<String>) -> Seq<Seq<char>> {
    v.map_values(|s: String| s@)
}

/// Whether `p` lists the positions `0..keys.len()` once each, in ascending
/// text order of their keys, with positions of equal keys in ascending order
/// (the order a stable sort by key gives).
pub open spec fn stable_text_order(keys: Seq<Seq<char>>, p: Seq<usize>) -> bool {
    &&& p.len() == keys.len()
    &&& forall|a: int| 0 <= a < p.len() ==> (#[trigger] p[a] as int) < keys.len()
    &&& forall|a: int, b: int| 0 <= a < b < p.len() ==> #[trigger] p[a] != #[trigger] p[b]
    &&& forall|a: int, b: int|
        0 <= a < b < p.len() ==> !text_lt(keys[#[trigger] p[b] as int], keys[#[trigger] p[a] as int])
    &&& forall|a: int, b: int|
        0 <= a < b < p.len() && keys[#[trigger] p[a] as int] == keys[#[trigger] p[b] as int] ==> p[a] < p[b]
}

/// The order in which items dated by `dates` (`YYYY-MM-DD` texts) are
/// listed: by date text ascending, items of the same date in their original
/// order. Position `k` of the result is the index of the `k`-th item.
pub fn date_order(dates: &Vec<String>) -> (p: Vec<usize>)
    ensures
        stable_text_order(texts(dates@), p@),
{
    let ghost keys = texts(dates@);
    let n = dates.len();
    let mut p: Vec<usize> = Vec::new();
    let mut i: usize = 0;
    while i < n
        invariant
            n == dates@.len(),
            keys == texts(dates@),
            i <= n,
            p@.len() == i,
            forall|a: int| 0 <= a < p@.len() ==> (#[trigger] p@[a] as int) < i,
            forall|a: int, b: int| 0 <= a < b < p@.len() ==> #[trigger] p@[a] != #[trigger] p@[b],
            forall|a: int, b: int|
                0 <= a < b < p@.len() ==> !text_lt(keys[#[trigger] p@[b] as int], keys[#[trigger] p@[a] as int]),
            forall|a: int, b: int|
                0 <= a < b < p@.len() && keys[#[trigger] p@[a] as int] == keys[#[trigger] p@[b] as int] ==> p@[a]
                    < p@[b],
        decreases n - i,
    {
        let mut k: usize = 0;
        while k < p.len() && !text_less(dates[i].as_str(), dates[p[k]].as_str())
            invariant
                n == dates@.len(),
                keys == texts(dates@),
                i < n,
                p@.len() == i,
                k <= p@.len(),
                forall|a: int| 0 <= a < p@.len() ==> (#[trigger] p@[a] as int) < i,
                forall|a: int| 0 <= a < k ==> !text_lt(keys[i as int], keys[#[trigger] p@[a] as int]),
            decreases p@.len() - k,
        {
            k = k + 1;
        }
        let ghost old_p = p@;
        proof {
            if k < old_p.len() {
                assert(text_lt(keys[i as int], keys[old_p[k as int] as int]));
            }
            assert forall|b: int| k <= b < old_p.len() implies text_lt(
                keys[i as int],
                keys[#[trigger] old_p[b] as int],
            ) by {
                lemma_text_lt_trichotomy(keys[old_p[k as int] as int], keys[old_p[b] as int]);
                if b > k {
                    if text_lt(keys[old_p[k as int] as int], keys[old_p[b] as int]) {
                        lemma_text_lt_transitive(keys[i as int], keys[old_p[k as int] as int], keys[old_p[b] as int]);
                    }
                }
            }
        }
        p.insert(k, i);
        proof {
            let np = p@;
            assert(np =~= old_p.subrange(0, k as int).push(i) + old_p.subrange(k as int, old_p.len() as int));
            assert forall|a: int| 0 <= a < np.len() implies (#[trigger] np[a] as int) < i + 1 by {
                if a > k {
                    assert(np[a] == old_p[a - 1]);
                }
            }
            assert forall|a: int, b: int| 0 <= a < b < np.len() implies #[trigger] np[a] != #[trigger] np[b] by {
                if a < k && b > k {
                    assert(np[b] == old_p[b - 1]);
                } else if a > k {
                    assert(np[a] == old_p[a - 1] && np[b] == old_p[b - 1]);
                } else if a == k {
                    assert(np[b] == old_p[b - 1]);
                }
            }
            assert forall|a: int, b: int| 0 <= a < b < np.len() implies !text_lt(
                keys[#[trigger] np[b] as int],
                keys[#[trigger] np[a] as int],
            ) && (keys[np[a] as int] == keys[np[b] as int] ==> np[a] < np[b]) by {
                if a < k && b == k {
                    lemma_text_lt_trichotomy(keys[i as int], keys[old_p[a] as int]);
                    lemma_text_lt_irreflexive(keys[i as int]);
                } else if a < k && b > k {
                    assert(np[b] == old_p[b - 1]);
                } else if a == k {
                    assert(np[b] == old_p[b - 1]);
                    lemma_text_lt_trichotomy(keys[i as int], keys[old_p[b - 1] as int]);
                    lemma_text_lt_irreflexive(keys[i as int]);
                } else if a > k {
                    assert(np[a] == old_p[a - 1] && np[b] == old_p[b - 1]);
                }
            }
        }
        i = i + 1;
    }
    p
}

// ── Laws ───────────────────────────────────────────────────────────────

/// A repeating date always moves on to a later date, except a monthly one in
/// the last representable month, which stays where it is; and the next
/// occurrence is always a representable date.
pub proof fn law_advance_moves_forward(d: Date, freq: Seq<char>)
    requires
        d.wf(),
        advance_defined(d, freq),
    ensures
        advance_spec(d, freq).wf(),
        date_lt(d, advance_spec(d, freq)) || (advance_spec(d, freq) == d && d.year == MAX_YEAR && d.month == 12),
{
    let a = advance_spec(d, freq);
    lemma_month_days_range(d.year as int, d.month as int);
    if freq == "daily"@ {
        lemma_plus_days_later(d, 1);
        lemma_ord_matches_lt(d, a);
    } else if freq == "weekly"@ {
        lemma_plus_days_later(d, 7);
        lemma_ord_matches_lt(d, a);
    } else if freq == "yearly"@ {
        if !civil_valid(d.year + 1, d.month as int, d.day as int) {
            lemma_plus_days_later(d, 365);
            lemma_ord_matches_lt(d, a);
        }
    } else {
        let (ny, nm) = next_month(d.year as int, d.month as int);
        lemma_month_days_range(ny, nm);
        if d.month == 12 && d.year < MAX_YEAR {
            assert(civil_valid(ny, nm, 1));
            assert(civil_valid(ny, nm + 1, 1));
        }
    }
}

/// Calendar order is transitive.
pub proof fn lemma_date_lt_transitive(a: Date, b: Date, c: Date)
    requires
        date_lt(a, b),
        date_lt(b, c),
    ensures
        date_lt(a, c),
{
}

/// The occurrences within a window all fall in the window, each later than
/// the one before.
pub proof fn law_occurrences_in_window(d: Date, freq: Seq<char>, one_time: bool, first: Date, last: Date)
    requires
        emit_spec(d, freq, one_time, first, last) is Some,
    ensures
        ({
            let s = emit_spec(d, freq, one_time, first, last)->0;
            &&& forall|i: int| 0 <= i < s.len() ==> !date_lt(#[trigger] s[i], first) && !date_lt(last, s[i])
            &&& forall|i: int, j: int| 0 <= i < j < s.len() ==> date_lt(#[trigger] s[i], #[trigger] s[j])
            &&& s.len() > 0 ==> s[0] == d
        }),
    decreases (if in_bounds(d) && in_bounds(last) && !date_lt(last, d) {
        date_ord(last) - date_ord(d) + 1
    } else {
        0
    }),
{
    if date_lt(last, d) || date_lt(d, first) {
    } else if one_time || !in_bounds(d) || !in_bounds(last) {
    } else {
        let n = step_spec(d, freq)->0;
        lemma_ord_matches_lt(d, n);
        lemma_ord_matches_lt(last, d);
        lemma_ord_matches_lt(last, n);
        law_occurrences_in_window(n, freq, one_time, first, last);
        let rest = emit_spec(n, freq, one_time, first, last)->0;
        let s = emit_spec(d, freq, one_time, first, last)->0;
        assert(s == seq![d] + rest);
        assert forall|i: int, j: int| 0 <= i < j < s.len() implies date_lt(#[trigger] s[i], #[trigger] s[j]) by {
            if i == 0 {
                if j > 1 {
                    assert(date_lt(rest[0], rest[j - 1]));
                    lemma_date_lt_transitive(d, n, rest[j - 1]);
                }
            } else {
                assert(s[i] == rest[i - 1] && s[j] == rest[j - 1]);
            }
        }
        assert forall|i: int| 0 <= i < s.len() implies !date_lt(#[trigger] s[i], first) && !date_lt(last, s[i]) by {
            if i > 0 {
                assert(s[i] == rest[i - 1]);
            }
        }
    }
}

// ── Dates as text ──────────────────────────────────────────────────────

/// A date as `YYYY-MM-DD` (see `format_ymd`).
pub fn date_text(d: Date) -> (s: String)
    requires
        d.wf(),
    ensures
        s@ == format_ymd_spec(d.year as int, d.month as int, d.day as int),
        0 <= d.year <= 9999 ==> s@ == iso_date(d),
{
    format_ymd(d)
}

/// A `YYYY-MM-DD` text as a date, when it is one (see `parse_ymd`).
pub fn parse_date(s: &str) -> (r: Option<Date>)
    ensures
        match r {
            Some(d) => parse_ymd_spec(s@) == Some((d.year as int, d.month as int, d.day as int)) && d.wf(),
            None => parse_ymd_spec(s@) is None,
        },
{
    parse_ymd(s)
}

/// Whether `d` falls between `first` and `last`, both included.
pub fn in_window(d: Date, first: Date, last: Date) -> (r: bool)
    ensures
        r == (!date_lt(d, first) && !date_lt(last, d)),
{
    !before(d, first) && !before(last, d)
}

/// Days from `today` until the date a `YYYY-MM-DD` text holds (negative
/// when it is past); 0 when the text is not a date.
pub fn days_until_text(date: &str, today: Date) -> (r: i64)
    requires
        today.wf(),
    ensures
        match parse_ymd_spec(date@) {
            Some((y, m, d)) => r == days_between(Date { year: y as i32, month: m as u32, day: d as u32 }, today),
            None => r == 0,
        },
{
    match parse_date(date) {
        Some(d) => days_from(d, today),
        None => 0,
    }
}

/// Today's date in the machine's time zone.
pub fn today() -> (d: Date)
    ensures
        d.wf(),
{
    today_local()
}

} // verus!
