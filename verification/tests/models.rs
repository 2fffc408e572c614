use suvarix::calendar::Date;
use suvarix::error::AppError;
use suvarix::models::{angel_status, category_deletable, category_name, duplicate_category_error, upstox_status, zerodha_status};

#[test]
fn category_names_are_trimmed_and_must_not_be_empty() {
    assert_eq!(category_name("  Groceries ").unwrap(), "Groceries");
    match category_name("   ") {
        Err(AppError::Validation(m)) => assert_eq!(m, "Category name cannot be empty"),
        _ => panic!("expected a validation error"),
    }
    match duplicate_category_error("Food") {
        AppError::Validation(m) => assert_eq!(m, "Category \"Food\" already exists"),
        _ => panic!("expected a validation error"),
    }
}

#[test]
fn category_in_use_cannot_be_deleted() {
    assert!(category_deletable("Food", 0).is_ok());
    match category_deletable("Food", 3) {
        Err(AppError::Validation(m)) => assert_eq!(
            m,
            "Category \"Food\" is used by 3 existing record(s) and can't be deleted. Remove or recategorize them first."
        ),
        _ => panic!("expected a validation error"),
    }
}

#[test]
fn broker_session_is_live_only_on_the_day_it_was_obtained() {
    let today = Date { year: 2026, month: 3, day: 10 };
    let s = zerodha_status(true, true, true, Some("2026-03-10".to_string()), today);
    assert!(s.has_config && s.is_connected);
    let s = upstox_status(true, false, true, Some("2026-03-09".to_string()), today);
    assert!(!s.has_config && !s.is_connected);
    assert_eq!(s.token_date.as_deref(), Some("2026-03-09"));
    let s = angel_status(true, true, false, Some("2026-03-10".to_string()), today);
    assert!(s.has_config && !s.is_connected);
}

#[test]
fn error_messages_match_the_user_interface_texts() {
    assert_eq!(AppError::Validation("x".into()).message(), "Invalid input: x");
    assert_eq!(AppError::WrongPassword.message(), "Wrong password");
    assert_eq!(AppError::Database("locked".into()).message(), "Database error: locked");
    assert_eq!(AppError::UnsupportedBackupVersion(4, 3).message(), "Unsupported backup version: file is v4, this app reads up to v3");
}
