use suvarix::calendar::Date;
use suvarix::error::AppError;
use suvarix::payments::{bill_next_due, card_label, paid_source, recurring_next_due, PaidSource};

fn d(year: i32, month: u32, day: u32) -> Date {
    Date { year, month, day }
}

#[test]
fn paid_source_names_the_three_kinds() {
    assert_eq!(paid_source("loan").unwrap(), PaidSource::Loan);
    assert_eq!(paid_source("credit_card").unwrap(), PaidSource::CreditCard);
    assert_eq!(paid_source("bill").unwrap(), PaidSource::Bill);
    match paid_source("insurance") {
        Err(AppError::Database(m)) => assert_eq!(m, "unknown reminder source"),
        _ => panic!("expected a database error"),
    }
}

#[test]
fn card_label_joins_bank_and_card() {
    assert_eq!(card_label("HDFC", Some("Regalia")), "HDFC Regalia");
    assert_eq!(card_label("HDFC", None), "HDFC");
}

#[test]
fn bill_next_due_moves_on_by_frequency() {
    assert_eq!(bill_next_due("monthly", "2024-01-31"), Some("2024-02-29".to_string()));
    assert_eq!(bill_next_due("yearly", "2024-02-29"), Some("2025-02-28".to_string()));
    assert_eq!(bill_next_due("weekly", "2024-12-28"), Some("2025-01-04".to_string()));
    assert_eq!(bill_next_due("one_time", "2024-01-31"), None);
    assert_eq!(bill_next_due("monthly", "not a date"), None);
}

#[test]
fn recurring_next_due_lands_after_today() {
    let today = d(2024, 6, 15);
    assert_eq!(recurring_next_due("2024-01-15", "monthly", today), Some("2024-07-15".to_string()));
    assert_eq!(recurring_next_due("2024-06-14", "daily", today), Some("2024-06-16".to_string()));
    assert_eq!(recurring_next_due("2025-01-01", "yearly", today), Some("2026-01-01".to_string()));
    assert_eq!(recurring_next_due("garbage", "monthly", today), Some("2024-06-15".to_string()));
}
