use suvarix::calendar::Date;
use suvarix::reports::{fy_bounds, gain_type, holding_period, lot_key, parse_fy, txn_date};

fn d(year: i32, month: u32, day: u32) -> Date {
    Date { year, month, day }
}

#[test]
fn lots_are_keyed_by_holding_or_by_description() {
    assert_eq!(lot_key("equity", Some(12), "INFY"), "equity:12");
    assert_eq!(lot_key("mf", None, "Axis Bluechip"), "mf::Axis Bluechip");
    assert_eq!(lot_key("equity", Some(-3), ""), "equity:-3");
}

#[test]
fn financial_year_runs_april_to_march() {
    assert_eq!(parse_fy("2024-25"), Some((d(2024, 4, 1), d(2025, 3, 31))));
    assert_eq!(parse_fy("2023"), Some((d(2023, 4, 1), d(2024, 3, 31))));
    assert_eq!(parse_fy("garbage"), None);
    assert_eq!(parse_fy(""), None);
    assert_eq!(parse_fy("999999-00"), None);
    let (s, e) = fy_bounds(d(2024, 4, 1), d(2025, 3, 31));
    assert_eq!((s.as_str(), e.as_str()), ("2024-04-01", "2025-03-31 23:59:59"));
}

#[test]
fn transaction_dates_read_the_date_part() {
    let fb = d(2024, 4, 1);
    assert_eq!(txn_date("2024-06-15 10:30:00", fb), d(2024, 6, 15));
    assert_eq!(txn_date("2024-06-15", fb), d(2024, 6, 15));
    assert_eq!(txn_date("not a date", fb), fb);
}

#[test]
fn ltcg_when_held_365_days_or_more() {
    assert_eq!(holding_period(d(2023, 4, 1), d(2024, 3, 31)), (365, false));
    assert_eq!(holding_period(d(2023, 4, 2), d(2024, 3, 31)), (364, true));
    assert_eq!(gain_type(true), "STCG");
    assert_eq!(gain_type(false), "LTCG");
}
