use suvarix::calendar::Date;
use suvarix::challenges::{
    budget_hold_outcome, catalog, challenge_end, challenge_template, challenge_window, check_not_active,
    joinable_templates, missed_target, no_spend_days, transition, Transition,
};
use suvarix::error::AppError;

fn d(year: i32, month: u32, day: u32) -> Date {
    Date { year, month, day }
}

#[test]
fn catalog_lists_three_kinds() {
    let kinds: Vec<&str> = catalog().iter().map(|t| t.kind).collect();
    assert_eq!(kinds, vec!["save_amount", "no_spend", "budget_hold"]);
    let hold = challenge_template("budget_hold").unwrap();
    assert!(!hold.target_editable);
    assert_eq!(hold.duration_days, 30);
}

#[test]
fn active_kinds_are_not_offered_again() {
    let left = joinable_templates(&vec!["no_spend".to_string()]);
    let kinds: Vec<&str> = left.iter().map(|t| t.kind).collect();
    assert_eq!(kinds, vec!["save_amount", "budget_hold"]);
    assert_eq!(joinable_templates(&vec![]).len(), 3);
}

#[test]
fn unknown_kind_and_second_instance_are_refused() {
    match challenge_template("marathon") {
        Err(AppError::Validation(m)) => assert_eq!(m, "unknown challenge kind: marathon"),
        _ => panic!("expected a validation error"),
    }
    match check_not_active(1) {
        Err(AppError::Validation(m)) => assert_eq!(m, "challenge already active"),
        _ => panic!("expected a validation error"),
    }
    assert!(check_not_active(0).is_ok());
}

#[test]
fn joined_window_holds_duration_days() {
    assert_eq!(challenge_end(d(2024, 2, 25), 7), Some(d(2024, 3, 2)));
    assert_eq!(challenge_end(d(2024, 1, 1), 1), Some(d(2024, 1, 1)));
}

#[test]
fn window_measures_up_to_today() {
    let w = challenge_window("2024-03-01", "2024-03-30", d(2024, 3, 10));
    assert_eq!(w.eff_end, d(2024, 3, 10));
    assert!(!w.window_over);
    assert_eq!(w.elapsed_days, 10);
    assert_eq!(w.total_days, 30);
    assert_eq!(w.days_left, 20);
    let over = challenge_window("2024-03-01", "2024-03-07", d(2024, 3, 10));
    assert_eq!(over.eff_end, d(2024, 3, 7));
    assert!(over.window_over);
    assert_eq!(over.elapsed_days, 7);
    assert_eq!(over.days_left, 0);
}

#[test]
fn unreadable_dates_fall_back_to_today() {
    let w = challenge_window("soon", "later", d(2024, 3, 10));
    assert_eq!(w.start, d(2024, 3, 10));
    assert_eq!(w.end, d(2024, 3, 10));
    assert_eq!(w.elapsed_days, 1);
    assert_eq!(w.total_days, 1);
}

#[test]
fn no_spend_counts_elapsed_days_without_spending() {
    let w = challenge_window("2024-03-08", "2024-03-14", d(2024, 3, 10));
    assert_eq!(no_spend_days(w.elapsed_days, 1), 2);
    assert_eq!(no_spend_days(-3, 0), 0);
    assert_eq!(no_spend_days(2, 5), 0);
}

#[test]
fn budget_hold_fails_on_breach_and_completes_after_window() {
    let running = challenge_window("2024-03-01", "2024-03-30", d(2024, 3, 10));
    let ok = budget_hold_outcome(&running, 0);
    assert_eq!(ok.held_days, 10);
    assert!(!ok.done && !ok.failed);
    let breached = budget_hold_outcome(&running, 2);
    assert!(breached.failed && !breached.done);
    let over = challenge_window("2024-03-01", "2024-03-30", d(2024, 4, 10));
    let finished = budget_hold_outcome(&over, 0);
    assert!(finished.done);
    assert_eq!(finished.held_days, 30);
}

#[test]
fn evaluation_transitions() {
    assert_eq!(transition(true, true), Transition::Complete);
    assert_eq!(transition(false, true), Transition::Fail);
    assert_eq!(transition(false, false), Transition::Stay);
    assert!(missed_target(true, false));
    assert!(!missed_target(true, true));
    assert!(!missed_target(false, false));
}
