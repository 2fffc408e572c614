use suvarix::calendar::Date;
use suvarix::periods::{last_month_bounds_at, month_bounds, period_bounds, period_bounds_at};

#[test]
fn period_bounds_custom_widens_end_to_end_of_day() {
    let (start, end) = period_bounds("custom", Some("2026-01-01".into()), Some("2026-01-31".into()));
    assert_eq!(start, "2026-01-01");
    assert_eq!(end, "2026-01-31 23:59:59");
}

#[test]
fn period_bounds_custom_without_dates_falls_back_to_all_time() {
    let (start, end) = period_bounds("custom", None, None);
    assert_eq!(start, "1900-01-01");
    assert_eq!(end, "2099-12-31");
}

fn d(year: i32, month: u32, day: u32) -> Date {
    Date { year, month, day }
}

#[test]
fn period_bounds_custom_with_one_date_falls_back_to_all_time() {
    let (start, end) = period_bounds_at("custom", Some("2026-01-01".into()), None, d(2026, 3, 15));
    assert_eq!((start.as_str(), end.as_str()), ("1900-01-01", "2099-12-31"));
}

#[test]
fn period_bounds_unknown_period_is_all_time() {
    let (start, end) = period_bounds_at("fortnight", Some("2026-01-01".into()), Some("2026-01-31".into()), d(2026, 3, 15));
    assert_eq!((start.as_str(), end.as_str()), ("1900-01-01", "2099-12-31"));
}

#[test]
fn this_month_runs_from_the_first_to_day_31_end_of_day() {
    let (start, end) = period_bounds_at("this_month", None, None, d(2026, 3, 15));
    assert_eq!(start, "2026-03-01");
    assert_eq!(end, "2026-03-31 23:59:59");
    let (s2, e2) = month_bounds(2026, 11);
    assert_eq!((s2.as_str(), e2.as_str()), ("2026-11-01", "2026-11-31 23:59:59"));
}

#[test]
fn last_month_covers_the_whole_previous_month() {
    let (start, end) = period_bounds_at("last_month", None, None, d(2026, 3, 15));
    assert_eq!(start, "2026-02-01");
    assert_eq!(end, "2026-02-28 23:59:59");
    let (start, end) = last_month_bounds_at(d(2024, 3, 31));
    assert_eq!((start.as_str(), end.as_str()), ("2024-02-01", "2024-02-29 23:59:59"));
}

#[test]
fn last_month_of_january_is_december_of_the_year_before() {
    let (start, end) = last_month_bounds_at(d(2026, 1, 1));
    assert_eq!(start, "2025-12-01");
    assert_eq!(end, "2025-12-31 23:59:59");
}
