use suvarix::calendar::Date;
use suvarix::insights::{dismiss, dismissal_until, feed_order, hidden_by, maturity_nudge, pillar_action};

fn d(year: i32, month: u32, day: u32) -> Date {
    Date { year, month, day }
}

#[test]
fn dismissal_hides_then_expires() {
    // An already-expired dismissal does not hide anything.
    let items = vec![("budget:Food".to_string(), "2000-01-01".to_string())];
    assert!(!hidden_by("budget:Food", &items, "2026-03-10"));
    // One that lasts past today does.
    let items = vec![("budget:Food".to_string(), "2026-03-17".to_string())];
    assert!(hidden_by("budget:Food", &items, "2026-03-10"));
    assert!(!hidden_by("budget:Rent", &items, "2026-03-10"));
    assert!(!hidden_by("budget:Food", &items, "2026-03-17"));
}

#[test]
fn dismissing_drops_expired_and_previous_entries_for_the_id() {
    let items = vec![
        ("a".to_string(), "2000-01-01".to_string()),
        ("b".to_string(), "2026-03-12".to_string()),
        ("c".to_string(), "2026-03-11".to_string()),
    ];
    let out = dismiss(items, "c".to_string(), "2026-03-10", "2026-03-17".to_string());
    assert_eq!(
        out,
        vec![("b".to_string(), "2026-03-12".to_string()), ("c".to_string(), "2026-03-17".to_string())]
    );
}

#[test]
fn pillar_actions_point_at_the_right_screen() {
    assert_eq!(pillar_action("savings"), ("\u{1f4b0}", "Review spending", "/income-expenses"));
    assert_eq!(pillar_action("debt").2, "/liabilities");
    assert_eq!(pillar_action("unknown"), ("\u{1f3af}", "Open", "/dashboard"));
}

#[test]
fn maturities_of_the_coming_week_are_announced() {
    let today = d(2026, 3, 10);
    let n = maturity_nudge("fd", "SBI", "2026-03-10", today).unwrap();
    assert_eq!(n.id, "maturity:fd:SBI:2026-03-10");
    assert_eq!(n.body, "SBI matures today (2026-03-10). Plan the reinvestment.");
    assert_eq!((n.severity.as_str(), n.priority), ("info", 50));
    let n = maturity_nudge("bond", "NHAI", "2026-03-11", today).unwrap();
    assert_eq!(n.body, "NHAI matures in 1 day (2026-03-11). Plan the reinvestment.");
    let n = maturity_nudge("fd", "SBI", "2026-03-17", today).unwrap();
    assert!(n.body.contains("in 7 days"));
    assert!(maturity_nudge("fd", "SBI", "2026-03-18", today).is_none());
    assert!(maturity_nudge("fd", "SBI", "2026-03-09", today).is_none());
    // An unreadable date counts as today.
    assert!(maturity_nudge("fd", "SBI", "someday", today).unwrap().body.contains("matures today"));
}

#[test]
fn feed_is_ordered_by_priority_keeping_ties_in_order() {
    assert_eq!(feed_order(&vec![50, 100, 60, 100, 30]), vec![1, 3, 2, 0, 4]);
    assert_eq!(feed_order(&vec![]), Vec::<usize>::new());
    assert_eq!(feed_order(&vec![7, 7, 7]), vec![0, 1, 2]);
}

#[test]
fn dismissal_lasts_a_week() {
    assert_eq!(dismissal_until(d(2024, 12, 28)), Some("2025-01-04".to_string()));
    assert_eq!(dismissal_until(d(262142, 12, 31)), None);
}
