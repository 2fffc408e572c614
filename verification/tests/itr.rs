use suvarix::error::AppError;
use suvarix::itr::{deleted_or_not_found, itr_keys};

#[test]
fn blank_assessment_year_is_rejected_before_form_type() {
    match itr_keys("   ", "") {
        Err(AppError::Validation(m)) => assert_eq!(m, "Assessment year is required"),
        _ => panic!("expected a validation error"),
    }
    match itr_keys("2024-25", " \t") {
        Err(AppError::Validation(m)) => assert_eq!(m, "Form type is required"),
        _ => panic!("expected a validation error"),
    }
}

#[test]
fn keys_are_trimmed() {
    let (ay, form) = itr_keys(" 2024-25 ", "ITR-2\n").unwrap();
    assert_eq!(ay, "2024-25");
    assert_eq!(form, "ITR-2");
}

#[test]
fn deleting_a_missing_return_is_not_found() {
    assert!(deleted_or_not_found(1, 7).is_ok());
    match deleted_or_not_found(0, 42) {
        Err(AppError::NotFound(m)) => assert_eq!(m, "ITR return 42"),
        _ => panic!("expected not found"),
    }
}
