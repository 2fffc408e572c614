use suvarix::calendar::Date;
use suvarix::gamification::{
    badges_to_try, bootstrap_steps, centurion_due, level_changed, unit_for, update_streak_on, xp_to_level, BadgeContext,
    BadgeFacts, BootstrapStep,
};

fn d(year: i32, month: u32, day: u32) -> Date {
    Date { year, month, day }
}

#[test]
fn levels_follow_the_xp_thresholds() {
    let l = xp_to_level(0);
    assert_eq!((l.name, l.floor, l.next, l.needed), ("Rookie", 0, 100, 100));
    let l = xp_to_level(100);
    assert_eq!((l.name, l.needed), ("Saver", 200));
    let l = xp_to_level(2999);
    assert_eq!((l.name, l.needed), ("Market Expert", 1));
    let l = xp_to_level(3000);
    assert_eq!((l.name, l.next, l.needed), ("Finance Legend", i64::MAX, 0));
    assert!(level_changed(99, 100));
    assert!(!level_changed(100, 299));
    assert!(centurion_due(100) && !centurion_due(99));
}

#[test]
fn streak_continues_within_a_week_and_restarts_after() {
    let today = d(2026, 3, 10);
    let r = update_streak_on(6, 6, Some("2026-03-05"), today);
    assert_eq!((r.current_count, r.best_count, r.is_new_best, r.streak_bonus_xp), (7, 7, true, 25));
    let r = update_streak_on(6, 10, Some("2026-03-02"), today);
    assert_eq!((r.current_count, r.best_count, r.is_new_best, r.streak_bonus_xp), (1, 10, false, 0));
    let r = update_streak_on(29, 40, Some("2026-03-03"), today);
    assert_eq!((r.current_count, r.streak_bonus_xp), (30, 50));
}

#[test]
fn streak_recorded_twice_on_one_day_is_unchanged() {
    let r = update_streak_on(4, 9, Some("2026-03-10"), d(2026, 3, 10));
    assert_eq!((r.current_count, r.best_count, r.is_new_best, r.streak_bonus_xp), (4, 9, false, 0));
}

#[test]
fn streak_without_a_readable_last_date_starts_at_one() {
    let today = d(2026, 3, 10);
    assert_eq!(update_streak_on(4, 9, None, today).current_count, 1);
    assert_eq!(update_streak_on(4, 9, Some("yesterday"), today).current_count, 1);
}

fn ctx_all(v: bool) -> BadgeContext {
    BadgeContext {
        check_first_investment: v,
        check_first_goal: v,
        check_first_milestone: v,
        check_diversification: v,
        check_debt_destroyer: v,
        check_crore_club: v,
        check_health_a: v,
        check_health_aplus: v,
        check_emergency_ready: v,
        check_debt_light: v,
        check_first_lakh: v,
        check_ten_lakh: v,
        check_savings_star: v,
    }
}

#[test]
fn badge_checks_respect_the_stored_facts() {
    let none = BadgeFacts { filled_holding_tables: 0, first_lakh_reached: false, ten_lakh_reached: false, savings_star_reached: false };
    assert_eq!(
        badges_to_try(&ctx_all(true), &none),
        vec!["goal_getter", "milestone_hunter", "debt_destroyer", "crore_club", "health_a", "health_aplus", "emergency_ready", "debt_light"]
    );
    let rich = BadgeFacts { filled_holding_tables: 5, first_lakh_reached: true, ten_lakh_reached: false, savings_star_reached: true };
    let got = badges_to_try(&ctx_all(true), &rich);
    assert_eq!(got[0], "first_investment");
    assert_eq!(got[1], "diversified_investor");
    assert!(got.contains(&"first_lakh") && !got.contains(&"ten_lakh") && got.contains(&"savings_star"));
    assert!(badges_to_try(&ctx_all(false), &rich).is_empty());
}

fn show(v: &[BootstrapStep]) -> Vec<String> {
    v.iter()
        .map(|s| match s {
            BootstrapStep::Badge(id) => format!("badge:{id}"),
            BootstrapStep::Xp(n) => format!("xp:{n}"),
        })
        .collect()
}

#[test]
fn bootstrap_grants_capped_xp_for_existing_data() {
    let steps = bootstrap_steps(6, 9, 2, true, 250);
    assert_eq!(
        show(&steps),
        vec![
            "badge:first_investment", "xp:60", "badge:diversified_investor", "badge:goal_getter", "xp:200",
            "badge:milestone_hunter", "xp:200", "badge:crore_club", "xp:500"
        ]
    );
    assert!(bootstrap_steps(0, 0, 0, false, 0).is_empty());
}

#[test]
fn challenge_units() {
    assert_eq!(unit_for("save_amount"), "\u{20b9}");
    assert_eq!(unit_for("no_spend"), "days");
    assert_eq!(unit_for("budget_hold"), "");
    assert_eq!(unit_for("other"), "");
}
