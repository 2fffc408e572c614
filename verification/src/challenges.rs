//! Opt-in, time-boxed savings challenges: the catalog of kinds, which of
//! them can be joined, the dates a joined challenge runs, and the parts of
//! a challenge's progress that are counts of days: the window measured up to
//! today, zero-spend days, and whether a budget hold is done or failed. The
//! money sums and percentages are the application's.

use vstd::prelude::*;
use vstd::string::*;
use crate::calendar::{add_days, before, date_lt, days_between, days_from, parse_date, plus_days, Date};
use crate::error::AppError;
use crate::payments::parsed_date;
use crate::text::str_eq;

verus! {

// ── Catalog ────────────────────────────────────────────────────────────

/// A joinable kind of challenge. The default target is rupees for
/// `save_amount` and days for `no_spend`; `budget_hold` has none.
#[derive(Clone, Copy, Debug)]
pub struct ChallengeTemplate {
    pub kind: &'static str,
    pub title: &'static str,
    pub icon: &'static str,
    pub description: &'static str,
    pub default_target: i64,
    pub duration_days: i64,
    pub xp_reward: i64,
    pub target_editable: bool,
    pub unit: &'static str,
}

/// Plain-value view of a template.
pub struct TemplateView {
    pub kind: Seq<char>,
    pub title: Seq<char>,
    pub icon: Seq<char>,
    pub description: Seq<char>,
    pub default_target: int,
    pub duration_days: int,
    pub xp_reward: int,
    pub target_editable: bool,
    pub unit: Seq<char>,
}

impl View for ChallengeTemplate {
    type V = TemplateView;

    open spec fn view(&self) -> TemplateView {
        TemplateView {
            kind: self.kind@,
            title: self.title@,
            icon: self.icon@,
            description: self.description@,
            default_target: self.default_target as int,
            duration_days: self.duration_days as int,
            xp_reward: self.xp_reward as int,
            target_editable: self.target_editable,
            unit: self.unit@,
        }
    }
}

/// The catalog, in the order it is offered.
pub open spec fn catalog_spec() -> Seq<TemplateView> {
    seq![
        TemplateView {
            kind: "save_amount"@,
            title: "Monthly Saver"@,
            icon: "\u{1f437}"@,
            description: "Save a target amount over the next 30 days."@,
            default_target: 10_000,
            duration_days: 30,
            xp_reward: 60,
            target_editable: true,
            unit: "\u{20b9}"@,
        },
        TemplateView {
            kind: "no_spend"@,
            title: "No-Spend Days"@,
            icon: "\u{1f6ab}"@,
            description: "Rack up zero-spend days this week."@,
            default_target: 3,
            duration_days: 7,
            xp_reward: 40,
            target_editable: true,
            unit: "days"@,
        },
        TemplateView {
            kind: "budget_hold"@,
            title: "Budget Boss"@,
            icon: "\u{1f6e1}\u{fe0f}"@,
            description: "Stay within every budget for 30 days straight."@,
            default_target: 0,
            duration_days: 30,
            xp_reward: 50,
            target_editable: false,
            unit: ""@,
        },
    ]
}

/// Plain-value view of a list of templates.
pub open spec fn templates_view(v: Seq<ChallengeTemplate>) -> Seq<TemplateView> {
    v.map_values(|t: ChallengeTemplate| t@)
}

/// The catalog of challenge kinds (see `catalog_spec`).
pub fn catalog() -> (v: Vec<ChallengeTemplate>)
    ensures
        templates_view(v@) == catalog_spec(),
{
    let v = vec![
        ChallengeTemplate {
            kind: "save_amount",
            title: "Monthly Saver",
            icon: "\u{1f437}",
            description: "Save a target amount over the next 30 days.",
            default_target: 10_000,
            duration_days: 30,
            xp_reward: 60,
            target_editable: true,
            unit: "\u{20b9}",
        },
        ChallengeTemplate {
            kind: "no_spend",
            title: "No-Spend Days",
            icon: "\u{1f6ab}",
            description: "Rack up zero-spend days this week.",
            default_target: 3,
            duration_days: 7,
            xp_reward: 40,
            target_editable: true,
            unit: "days",
        },
        ChallengeTemplate {
            kind: "budget_hold",
            title: "Budget Boss",
            icon: "\u{1f6e1}\u{fe0f}",
            description: "Stay within every budget for 30 days straight.",
            default_target: 0,
            duration_days: 30,
            xp_reward: 50,
            target_editable: false,
            unit: "",
        },
    ];
    assert(templates_view(v@) =~= catalog_spec());
    v
}

/// Whether a text is among a list of texts.
pub open spec fn contains_text(v: Seq<Seq<char>>, t: Seq<char>) -> bool {
    exists|i: int| 0 <= i < v.len() && v[i] == t
}

/// The templates of a catalog whose kind is not among `active`, in order.
pub open spec fn joinable_spec(cat: Seq<TemplateView>, active: Seq<Seq<char>>) -> Seq<TemplateView>
    decreases cat.len(),
{
    if cat.len() == 0 {
        Seq::empty()
    } else {
        let rest = joinable_spec(cat.drop_last(), active);
        if contains_text(active, cat.last().kind) {
            rest
        } else {
            rest.push(cat.last())
        }
    }
}

/// A kind that already has an active challenge is never offered to join
/// again; every other kind of the catalog is.
pub proof fn law_joinable_excludes_active(cat: Seq<TemplateView>, active: Seq<Seq<char>>)
    ensures
        forall|i: int|
            0 <= i < joinable_spec(cat, active).len() ==> !contains_text(
                active,
                #[trigger] joinable_spec(cat, active)[i].kind,
            ),
        forall|j: int|
            0 <= j < cat.len() && !contains_text(active, #[trigger] cat[j].kind) ==> joinable_spec(
                cat,
                active,
            ).contains(cat[j]),
    decreases cat.len(),
{
    if cat.len() > 0 {
        law_joinable_excludes_active(cat.drop_last(), active);
        let rest = joinable_spec(cat.drop_last(), active);
        assert forall|j: int| 0 <= j < cat.len() && !contains_text(active, #[trigger] cat[j].kind) implies joinable_spec(
            cat,
            active,
        ).contains(cat[j]) by {
            if j < cat.len() - 1 {
                assert(cat.drop_last()[j] == cat[j]);
                let k = choose|k: int| 0 <= k < rest.len() && rest[k] == cat[j];
                if !contains_text(active, cat.last().kind) {
                    assert(rest.push(cat.last())[k] == cat[j]);
                }
            } else {
                assert(rest.push(cat.last())[rest.len() as int] == cat[j]);
            }
        }
    }
}

fn contains_kind(active: &Vec<String>, kind: &str) -> (r: bool)
    ensures
        r == contains_text(active@.map_values(|s: String| s@), kind@),
{
    let ghost av = active@.map_values(|s: String| s@);
    let n = active.len();
    let mut i: usize = 0;
    while i < n
        invariant
            n == active@.len(),
            av == active@.map_values(|s: String| s@),
            i <= n,
            forall|k: int| 0 <= k < i ==> av[k] != kind@,
        decreases n - i,
    {
        if str_eq(active[i].as_str(), kind) {
            assert(av[i as int] == kind@);
            return true;
        }
        i = i + 1;
    }
    false
}

/// The challenge kinds that can be joined: the catalog without the kinds
/// that already have an active challenge (one live instance per kind).
pub fn joinable_templates(active_kinds: &Vec<String>) -> (v: Vec<ChallengeTemplate>)
    ensures
        templates_view(v@) == joinable_spec(catalog_spec(), active_kinds@.map_values(|s: String| s@)),
{
    let ghost av = active_kinds@.map_values(|s: String| s@);
    let cat = catalog();
    let n = cat.len();
    let mut out: Vec<ChallengeTemplate> = Vec::new();
    let mut i: usize = 0;
    assert(templates_view(cat@).take(0) =~= Seq::<TemplateView>::empty());
    assert(templates_view(out@) =~= Seq::<TemplateView>::empty());
    while i < n
        invariant
            n == cat@.len(),
            templates_view(cat@) == catalog_spec(),
            av == active_kinds@.map_values(|s: String| s@),
            i <= n,
            templates_view(out@) == joinable_spec(templates_view(cat@).take(i as int), av),
        decreases n - i,
    {
        let ghost pre = templates_view(cat@).take(i as int);
        assert(templates_view(cat@).take(i + 1).drop_last() =~= pre);
        assert(templates_view(cat@).take(i + 1).last() == cat@[i as int]@);
        let t = cat[i];
        if !contains_kind(active_kinds, t.kind) {
            let ghost before = out@;
            out.push(t);
            assert(templates_view(out@) =~= templates_view(before).push(t@));
        }
        i = i + 1;
    }
    assert(templates_view(cat@).take(n as int) =~= templates_view(cat@));
    out
}

/// The template of a kind, when the catalog has it.
pub open spec fn template_spec(kind: Seq<char>) -> Option<TemplateView> {
    if kind == "save_amount"@ {
        Some(catalog_spec()[0])
    } else if kind == "no_spend"@ {
        Some(catalog_spec()[1])
    } else if kind == "budget_hold"@ {
        Some(catalog_spec()[2])
    } else {
        None
    }
}

/// The template of a kind to join; an unknown kind is a validation error,
/// `unknown challenge kind: ` and the kind.
pub fn challenge_template(kind: &str) -> (r: Result<ChallengeTemplate, AppError>)
    ensures
        match template_spec(kind@) {
            Some(t) => r matches Ok(x) && x@ == t,
            None => r matches Err(AppError::Validation(m)) && m@ == "unknown challenge kind: "@ + kind@,
        },
{
    let cat = catalog();
    assert(catalog_spec().len() == 3);
    assert(templates_view(cat@).len() == cat@.len());
    assert(forall|i: int| 0 <= i < 3 ==> templates_view(cat@)[i] == #[trigger] cat@[i]@);
    if str_eq(kind, "save_amount") {
        Ok(cat[0])
    } else if str_eq(kind, "no_spend") {
        Ok(cat[1])
    } else if str_eq(kind, "budget_hold") {
        Ok(cat[2])
    } else {
        let mut m = String::from_str("unknown challenge kind: ");
        m.append(kind);
        Err(AppError::Validation(m))
    }
}

/// Refuses to join a kind that already has `existing` active challenges:
/// a validation error, `challenge already active`, when there is one.
pub fn check_not_active(existing: i64) -> (r: Result<(), AppError>)
    ensures
        existing > 0 ==> (r matches Err(AppError::Validation(m)) && m@ == "challenge already active"@),
        existing <= 0 ==> r is Ok,
{
    if existing > 0 {
        Err(AppError::Validation(String::from_str("challenge already active")))
    } else {
        Ok(())
    }
}

/// The last day of a challenge joined on `today`: `duration_days - 1` days
/// later, so that the window holds `duration_days` days. None past the last
/// representable date.
pub fn challenge_end(today: Date, duration_days: i64) -> (r: Option<Date>)
    requires
        today.wf(),
        1 <= duration_days <= 366,
    ensures
        match r {
            Some(e) => e == plus_days(today, (duration_days - 1) as nat) && e.wf(),
            None => !plus_days(today, (duration_days - 1) as nat).wf(),
        },
{
    add_days(today, duration_days - 1)
}

// ── Progress in days ───────────────────────────────────────────────────

/// A challenge's window measured on `today`: its start and end (today when
/// a stored date is unreadable), the end of the part measured so far (today,
/// or the end once it is past), whether the window is over, the days
/// elapsed so far counting both ends, the window's length (at least one
/// day) and the days left (none once past).
pub struct ChallengeWindow {
    pub start: Date,
    pub end: Date,
    pub eff_end: Date,
    pub window_over: bool,
    pub elapsed_days: i64,
    pub total_days: i64,
    pub days_left: i64,
}

/// A stored date, or `today` when it is unreadable.
pub open spec fn date_or(s: Seq<char>, today: Date) -> Date {
    match parsed_date(s) {
        Some(d) => d,
        None => today,
    }
}

/// The window of a challenge stored with `start_date` and `end_date`,
/// measured on `today` (see `ChallengeWindow`).
pub open spec fn window_spec(start_date: Seq<char>, end_date: Seq<char>, today: Date, w: ChallengeWindow) -> bool {
    let start = date_or(start_date, today);
    let end = date_or(end_date, today);
    let eff_end = if date_lt(end, today) {
        end
    } else {
        today
    };
    &&& w.start == start
    &&& w.end == end
    &&& w.eff_end == eff_end
    &&& w.window_over == date_lt(end, today)
    &&& w.elapsed_days == days_between(eff_end, start) + 1
    &&& w.total_days == (if days_between(end, start) + 1 > 1 {
        days_between(end, start) + 1
    } else {
        1
    })
    &&& w.days_left == (if days_between(end, today) > 0 {
        days_between(end, today)
    } else {
        0
    })
}

fn date_or_today(s: &str, today: Date) -> (d: Date)
    requires
        today.wf(),
    ensures
        d == date_or(s@, today),
        d.wf(),
{
    match parse_date(s) {
        Some(d) => d,
        None => today,
    }
}

/// The window of a stored challenge measured on `today`.
pub fn challenge_window(start_date: &str, end_date: &str, today: Date) -> (w: ChallengeWindow)
    requires
        today.wf(),
    ensures
        window_spec(start_date@, end_date@, today, w),
        w.start.wf(),
        w.end.wf(),
        w.eff_end.wf(),
{
    let start = date_or_today(start_date, today);
    let end = date_or_today(end_date, today);
    let window_over = before(end, today);
    let eff_end = if window_over {
        end
    } else {
        today
    };
    let elapsed_days = days_from(eff_end, start) + 1;
    let span = days_from(end, start) + 1;
    let total_days = if span > 1 {
        span
    } else {
        1
    };
    let left = days_from(end, today);
    let days_left = if left > 0 {
        left
    } else {
        0
    };
    ChallengeWindow { start, end, eff_end, window_over, elapsed_days, total_days, days_left }
}

/// Zero-spend days of a `no_spend` challenge: the days elapsed (none if
/// negative) less the days with spending, never below zero.
pub open spec fn no_spend_spec(elapsed_days: int, days_with_spend: int) -> int {
    let elapsed = if elapsed_days > 0 {
        elapsed_days
    } else {
        0
    };
    if elapsed - days_with_spend > 0 {
        elapsed - days_with_spend
    } else {
        0
    }
}

/// Zero-spend days of a `no_spend` challenge (see `no_spend_spec`).
pub fn no_spend_days(elapsed_days: i64, days_with_spend: i64) -> (r: i64)
    requires
        -200_000_000 < elapsed_days < 200_000_000,
        days_with_spend >= 0,
    ensures
        r == no_spend_spec(elapsed_days as int, days_with_spend as int),
{
    let elapsed = if elapsed_days > 0 {
        elapsed_days
    } else {
        0
    };
    let left = elapsed - days_with_spend;
    if left > 0 {
        left
    } else {
        0
    }
}

/// Where a `budget_hold` challenge stands: the days held so far (elapsed,
/// kept between 0 and the window's length), done when the window is over
/// with no budget breached, failed as soon as one is.
pub struct HoldOutcome {
    pub held_days: i64,
    pub done: bool,
    pub failed: bool,
}

/// The standing of a `budget_hold` challenge with `breaches` budgets over
/// their limit (see `HoldOutcome`).
pub fn budget_hold_outcome(w: &ChallengeWindow, breaches: i64) -> (r: HoldOutcome)
    requires
        w.total_days >= 1,
    ensures
        r.held_days == (if w.elapsed_days < 0 {
            0
        } else if w.elapsed_days > w.total_days {
            w.total_days as int
        } else {
            w.elapsed_days as int
        }),
        r.done == (w.window_over && breaches <= 0),
        r.failed == (breaches > 0),
{
    let held_days = if w.elapsed_days < 0 {
        0
    } else if w.elapsed_days > w.total_days {
        w.total_days
    } else {
        w.elapsed_days
    };
    let breached = breaches > 0;
    HoldOutcome { held_days, done: w.window_over && !breached, failed: breached }
}

/// What evaluating an active challenge does to it.
#[derive(Clone, Copy, Debug, PartialEq, Eq, Structural)]
pub enum Transition {
    Complete,
    Fail,
    Stay,
}

/// A challenge whose target is met completes (and earns its XP); one that
/// failed is marked failed; otherwise it stays active.
pub fn transition(done: bool, failed: bool) -> (t: Transition)
    ensures
        t == (if done {
            Transition::Complete
        } else if failed {
            Transition::Fail
        } else {
            Transition::Stay
        }),
{
    if done {
        Transition::Complete
    } else if failed {
        Transition::Fail
    } else {
        Transition::Stay
    }
}

/// A `save_amount` or `no_spend` challenge has failed when its window is
/// over and the target was not met.
pub fn missed_target(window_over: bool, done: bool) -> (r: bool)
    ensures
        r == (window_over && !done),
{
    window_over && !done
}

} // verus!
