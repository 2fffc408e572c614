//! The date bounds of the income/expense report periods: this month, last
//! month, a custom range, or all time. Bounds are texts compared against the
//! stored `YYYY-MM-DD` / `YYYY-MM-DD HH:MM:SS` dates.

use vstd::prelude::*;
use vstd::string::*;
use crate::calendar::{format_ymd, format_ymd_spec, from_ymd, pred, today_local, prev_day, Date};
use crate::numeric::{int_text, push_int, push_zero_padded, zero_padded};
use crate::text::str_eq;

verus! {

/// The bounds of the month `(year, month)`: its first day, and day 31 at
/// the end of the day (every stored date of the month sorts within them).
pub open spec fn month_bounds_spec(year: int, month: int) -> (Seq<char>, Seq<char>) {
    (
        int_text(year) + "-"@ + zero_padded(month as nat, 2) + "-01"@,
        int_text(year) + "-"@ + zero_padded(month as nat, 2) + "-31 23:59:59"@,
    )
}

/// The bounds of the month `(year, month)` (see `month_bounds_spec`).
pub fn month_bounds(year: i32, month: u32) -> (r: (String, String))
    ensures
        (r.0@, r.1@) == month_bounds_spec(year as int, month as int),
{
    let mut start = String::new();
    push_int(&mut start, year as i64);
    start.append("-");
    push_zero_padded(&mut start, month as u64, 2);
    start.append("-01");
    let mut end = String::new();
    push_int(&mut end, year as i64);
    end.append("-");
    push_zero_padded(&mut end, month as u64, 2);
    end.append("-31 23:59:59");
    (start, end)
}

/// The bounds of the current month, by the machine's local date.
pub fn current_month_bounds() -> (r: (String, String))
    ensures
        exists|d: Date| d.wf() && (r.0@, r.1@) == month_bounds_spec(d.year as int, d.month as int),
{
    let today = today_local();
    let r = month_bounds(today.year, today.month);
    assert(today.wf() && (r.0@, r.1@) == month_bounds_spec(today.year as int, today.month as int));
    r
}

/// The first and last day of the month before `today`'s (at the first
/// representable date, that date itself).
pub open spec fn last_month_days(today: Date) -> (Date, Date) {
    let first_of_this = Date { year: today.year, month: today.month, day: 1 };
    let last_of_prev = if prev_day(first_of_this).wf() {
        prev_day(first_of_this)
    } else {
        first_of_this
    };
    let first_of_prev = Date { year: last_of_prev.year, month: last_of_prev.month, day: 1 };
    (first_of_prev, last_of_prev)
}

/// The bounds of the month before `today`'s: its first day, and its last
/// day at the end of the day.
pub open spec fn last_month_bounds_spec(today: Date) -> (Seq<char>, Seq<char>) {
    let (f, l) = last_month_days(today);
    (
        format_ymd_spec(f.year as int, f.month as int, f.day as int),
        format_ymd_spec(l.year as int, l.month as int, l.day as int) + " 23:59:59"@,
    )
}

/// The bounds of the month before `today`'s (see `last_month_bounds_spec`).
pub fn last_month_bounds_at(today: Date) -> (r: (String, String))
    requires
        today.wf(),
    ensures
        (r.0@, r.1@) == last_month_bounds_spec(today),
{
    let first_of_this = match from_ymd(today.year, today.month, 1) {
        Some(d) => d,
        None => today,
    };
    let last_of_prev = match pred(first_of_this) {
        Some(p) => p,
        None => first_of_this,
    };
    let first_of_prev = match from_ymd(last_of_prev.year, last_of_prev.month, 1) {
        Some(d) => d,
        None => last_of_prev,
    };
    let start = format_ymd(first_of_prev);
    let mut end = format_ymd(last_of_prev);
    end.append(" 23:59:59");
    (start, end)
}

/// The bounds of last month, by the machine's local date.
pub fn last_month_bounds() -> (r: (String, String))
    ensures
        exists|d: Date| d.wf() && (r.0@, r.1@) == last_month_bounds_spec(d),
{
    let today = today_local();
    let r = last_month_bounds_at(today);
    assert(today.wf() && (r.0@, r.1@) == last_month_bounds_spec(today));
    r
}

/// The bounds covering every stored date.
pub open spec fn all_time_bounds() -> (Seq<char>, Seq<char>) {
    ("1900-01-01"@, "2099-12-31"@)
}

/// The bounds of a report period on the date `today`: `this_month`,
/// `last_month`, `custom` (the given start, and the given end at the end of
/// the day; all time when either is missing), anything else all time.
pub open spec fn period_bounds_spec(
    period: Seq<char>,
    custom_start: Option<Seq<char>>,
    custom_end: Option<Seq<char>>,
    today: Date,
) -> (Seq<char>, Seq<char>) {
    if period == "this_month"@ {
        month_bounds_spec(today.year as int, today.month as int)
    } else if period == "last_month"@ {
        last_month_bounds_spec(today)
    } else if period == "custom"@ {
        match (custom_start, custom_end) {
            (Some(s), Some(e)) => (s, e + " 23:59:59"@),
            _ => all_time_bounds(),
        }
    } else {
        all_time_bounds()
    }
}

/// Plain-value view of an optional text.
pub open spec fn opt_text(o: Option<String>) -> Option<Seq<char>> {
    match o {
        Some(s) => Some(s@),
        None => None,
    }
}

/// The bounds of a report period on the date `today` (see
/// `period_bounds_spec`).
pub fn period_bounds_at(period: &str, custom_start: Option<String>, custom_end: Option<String>, today: Date) -> (r: (
    String,
    String,
))
    requires
        today.wf(),
    ensures
        (r.0@, r.1@) == period_bounds_spec(period@, opt_text(custom_start), opt_text(custom_end), today),
{
    if str_eq(period, "this_month") {
        month_bounds(today.year, today.month)
    } else if str_eq(period, "last_month") {
        last_month_bounds_at(today)
    } else if str_eq(period, "custom") {
        match (custom_start, custom_end) {
            (Some(start), Some(end)) => {
                let mut e = end;
                e.append(" 23:59:59");
                (start, e)
            },
            _ => (String::from_str("1900-01-01"), String::from_str("2099-12-31")),
        }
    } else {
        (String::from_str("1900-01-01"), String::from_str("2099-12-31"))
    }
}

/// The bounds of a report period by the machine's local date (see
/// `period_bounds_spec`).
pub fn period_bounds(period: &str, custom_start: Option<String>, custom_end: Option<String>) -> (r: (String, String))
    ensures
        exists|d: Date|
            d.wf() && (r.0@, r.1@) == period_bounds_spec(period@, opt_text(custom_start), opt_text(custom_end), d),
{
    let today = today_local();
    let ghost s = opt_text(custom_start);
    let ghost e = opt_text(custom_end);
    let r = period_bounds_at(period, custom_start, custom_end, today);
    assert(today.wf() && (r.0@, r.1@) == period_bounds_spec(period@, s, e, today));
    r
}

} // verus!
