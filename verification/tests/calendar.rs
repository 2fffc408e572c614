use suvarix::calendar::{advance_date, date_order, date_text, month_length, month_window, next_date, card_due_in_month, card_next_due, days_in_month, days_until_text, in_window, due_within, occurrences_in, Date};

fn d(year: i32, month: u32, day: u32) -> Date {
    Date { year, month, day }
}

#[test]
fn month_lengths_follow_the_gregorian_rules() {
    assert_eq!(days_in_month(2026, 1), 31);
    assert_eq!(days_in_month(2026, 2), 28);
    assert_eq!(days_in_month(2024, 2), 29);
    assert_eq!(days_in_month(1900, 2), 28);
    assert_eq!(days_in_month(2000, 2), 29);
    assert_eq!(days_in_month(2026, 4), 30);
    assert_eq!(days_in_month(2026, 12), 31);
    assert_eq!(days_in_month(2026, 13), 30);
}

#[test]
fn repeating_dates_move_on_by_their_frequency() {
    assert_eq!(advance_date(d(2026, 1, 31), "daily"), d(2026, 2, 1));
    assert_eq!(advance_date(d(2026, 12, 28), "weekly"), d(2027, 1, 4));
    assert_eq!(advance_date(d(2026, 1, 31), "monthly"), d(2026, 2, 28));
    assert_eq!(advance_date(d(2026, 12, 15), "monthly"), d(2027, 1, 15));
    assert_eq!(advance_date(d(2026, 3, 10), "quarterly"), d(2026, 4, 10));
    assert_eq!(advance_date(d(2025, 6, 1), "yearly"), d(2026, 6, 1));
    // 29 February does not exist next year: 365 days on instead.
    assert_eq!(advance_date(d(2024, 2, 29), "yearly"), d(2025, 2, 28));
}

#[test]
fn monthly_bill_occurs_once_in_each_month() {
    let got = occurrences_in(d(2025, 11, 15), "monthly", false, d(2026, 2, 1), d(2026, 2, 28)).unwrap();
    assert_eq!(got, vec![d(2026, 2, 15)]);
}

#[test]
fn weekly_bill_occurs_every_week_of_the_month() {
    let got = occurrences_in(d(2026, 1, 30), "weekly", false, d(2026, 2, 1), d(2026, 2, 28)).unwrap();
    assert_eq!(got, vec![d(2026, 2, 6), d(2026, 2, 13), d(2026, 2, 20), d(2026, 2, 27)]);
}

#[test]
fn one_time_bill_shows_only_in_its_own_month() {
    let first = d(2026, 2, 1);
    let last = d(2026, 2, 28);
    assert_eq!(occurrences_in(d(2026, 2, 10), "one_time", true, first, last).unwrap(), vec![d(2026, 2, 10)]);
    assert!(occurrences_in(d(2026, 1, 10), "one_time", true, first, last).unwrap().is_empty());
    assert!(occurrences_in(d(2026, 3, 10), "one_time", true, first, last).unwrap().is_empty());
}

#[test]
fn card_due_day_is_clamped_to_the_month() {
    assert_eq!(card_due_in_month(2026, 2, 31), Some(d(2026, 2, 28)));
    assert_eq!(card_due_in_month(2026, 3, 31), Some(d(2026, 3, 31)));
    assert_eq!(card_due_in_month(2026, 3, 0), None);
    assert_eq!(card_due_in_month(2026, 3, 32), None);
}

#[test]
fn card_next_due_rolls_over_to_next_month() {
    assert_eq!(card_next_due(d(2026, 1, 10), 15), Some(d(2026, 1, 15)));
    assert_eq!(card_next_due(d(2026, 1, 15), 15), Some(d(2026, 1, 15)));
    assert_eq!(card_next_due(d(2026, 1, 20), 15), Some(d(2026, 2, 15)));
    assert_eq!(card_next_due(d(2026, 1, 31), 30), Some(d(2026, 2, 28)));
    assert_eq!(card_next_due(d(2026, 12, 20), 5), Some(d(2027, 1, 5)));
}

#[test]
fn reminders_within_the_horizon_include_overdue_ones() {
    assert_eq!(due_within(d(2026, 1, 10), d(2026, 1, 1), 7), (9, false));
    assert_eq!(due_within(d(2026, 1, 8), d(2026, 1, 1), 7), (7, true));
    assert_eq!(due_within(d(2025, 12, 30), d(2026, 1, 1), 7), (-2, true));
    assert_eq!(due_within(d(2025, 3, 1), d(2024, 3, 1), 400), (365, true));
}

#[test]
fn days_until_counts_from_today() {
    assert_eq!(days_until_text("2024-03-15", d(2024, 3, 10)), 5);
    assert_eq!(days_until_text("2024-02-29", d(2024, 3, 10)), -10);
    assert_eq!(days_until_text("someday", d(2024, 3, 10)), 0);
}

#[test]
fn window_includes_both_ends() {
    let (first, last) = (d(2024, 3, 1), d(2024, 3, 31));
    assert!(in_window(d(2024, 3, 1), first, last));
    assert!(in_window(d(2024, 3, 31), first, last));
    assert!(!in_window(d(2024, 2, 29), first, last));
    assert!(!in_window(d(2024, 4, 1), first, last));
}

#[test]
fn next_date_and_month_length_follow_the_calendar() {
    assert_eq!(month_length(2024, 2), 29);
    assert_eq!(month_length(2023, 2), 28);
    assert_eq!(month_length(1900, 2), 28);
    assert_eq!(month_length(-400, 2), 29);
    assert_eq!(month_length(-1, 2), 28);
    assert_eq!(month_length(2023, 4), 30);
    assert_eq!(month_length(2023, 12), 31);
    assert_eq!(next_date(d(2024, 1, 31)), d(2024, 2, 1));
    assert_eq!(next_date(d(2024, 12, 31)), d(2025, 1, 1));
    assert_eq!(next_date(d(2024, 6, 14)), d(2024, 6, 15));
}

#[test]
fn month_window_refuses_months_that_do_not_exist() {
    let (f, l) = month_window(2024, 2).unwrap();
    assert_eq!((f, l), (d(2024, 2, 1), d(2024, 2, 29)));
    for (y, m) in [(2024, 13), (2024, 0), (262143, 12), (262142, 13), (i32::MAX, 12), (-262144, 1)] {
        match month_window(y, m) {
            Err(suvarix::error::AppError::Database(msg)) => assert_eq!(msg, "invalid year/month"),
            other => panic!("unexpected {other:?}"),
        }
    }
    let (f, l) = month_window(262142, 11).unwrap();
    assert_eq!((f, l), (d(262142, 11, 1), d(262142, 11, 30)));
}

#[test]
fn date_order_sorts_by_date_keeping_ties_in_place() {
    let dates: Vec<String> = ["2024-03-01", "2024-01-15", "2024-03-01", "2023-12-31", "2024-01-15"]
        .iter()
        .map(|s| s.to_string())
        .collect();
    assert_eq!(date_order(&dates), vec![3, 1, 4, 0, 2]);
    assert_eq!(date_order(&Vec::new()), Vec::<usize>::new());
}

#[test]
fn date_text_signs_years_outside_four_digits() {
    assert_eq!(date_text(d(2024, 3, 9)), "2024-03-09");
    assert_eq!(date_text(d(7, 1, 2)), "0007-01-02");
    assert_eq!(date_text(d(12345, 6, 7)), "+12345-06-07");
    assert_eq!(date_text(d(-5, 1, 1)), "-0005-01-01");
}
