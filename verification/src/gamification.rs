//! The rules of the XP, level, streak and badge system: which level a total
//! belongs to, what recording an activity does to a streak, which badges a
//! check or the first-run bootstrap tries to award, and how much XP the
//! bootstrap grants for existing data. The stored state is the
//! application's.

use vstd::prelude::*;
use vstd::string::*;
use crate::calendar::{date_lt, days_since, format_ymd, format_ymd_spec, lemma_ord_matches_lt,
    lemma_plus_days_injective, lemma_plus_days_later, parse_ymd, parse_ymd_spec, plus_days, Date};
use crate::text::str_eq;

verus! {

/// A badge and, once earned, when.
#[derive(Debug)]
pub struct Badge {
    pub id: String,
    pub name: String,
    pub description: String,
    pub icon: String,
    pub xp_reward: i64,
    pub earned_at: Option<String>,
}

/// A streak's state.
#[derive(Debug)]
pub struct StreakInfo {
    pub streak_type: String,
    pub current_count: i64,
    pub best_count: i64,
    pub last_activity_date: Option<String>,
}

/// The outcome of an XP award.
#[derive(Debug)]
pub struct XpAwardResult {
    pub new_xp: i64,
    pub level_changed: bool,
    pub new_level: String,
    pub new_badges: Vec<Badge>,
}

/// The outcome of recording an activity on a streak.
#[derive(Debug)]
pub struct StreakUpdateResult {
    pub current_count: i64,
    pub best_count: i64,
    pub is_new_best: bool,
    pub streak_bonus_xp: i64,
}

/// Which badge checks a caller asks for. The wealth flags only trigger a
/// check; the thresholds are verified against the stored data.
#[derive(Debug)]
pub struct BadgeContext {
    pub check_first_investment: bool,
    pub check_first_goal: bool,
    pub check_first_milestone: bool,
    pub check_diversification: bool,
    pub check_debt_destroyer: bool,
    pub check_crore_club: bool,
    pub check_health_a: bool,
    pub check_health_aplus: bool,
    pub check_emergency_ready: bool,
    pub check_debt_light: bool,
    pub check_first_lakh: bool,
    pub check_ten_lakh: bool,
    pub check_savings_star: bool,
}

// ── Levels ─────────────────────────────────────────────────────────────

/// A level: its name, the XP where it starts, the XP where the next starts
/// (`i64::MAX` for the last), and the XP still needed to reach the next (0
/// at the last).
pub struct XpLevel {
    pub name: &'static str,
    pub floor: i64,
    pub next: i64,
    pub needed: i64,
}

/// Index of the level an XP total belongs to: the first whose next
/// threshold (100, 300, 700, 1500, 3000) is above it; 5 past them all.
pub open spec fn level_index(xp: int) -> int {
    if xp < 100 {
        0
    } else if xp < 300 {
        1
    } else if xp < 700 {
        2
    } else if xp < 1500 {
        3
    } else if xp < 3000 {
        4
    } else {
        5
    }
}

/// The level names, lowest first.
pub open spec fn level_name(i: int) -> Seq<char> {
    if i == 0 {
        "Rookie"@
    } else if i == 1 {
        "Saver"@
    } else if i == 2 {
        "Investor"@
    } else if i == 3 {
        "Pro Investor"@
    } else if i == 4 {
        "Market Expert"@
    } else {
        "Finance Legend"@
    }
}

/// Where each level starts.
pub open spec fn level_floor(i: int) -> int {
    if i == 0 {
        0
    } else if i == 1 {
        100
    } else if i == 2 {
        300
    } else if i == 3 {
        700
    } else if i == 4 {
        1500
    } else {
        3000
    }
}

/// Where the level after each starts (`i64::MAX` after the last).
pub open spec fn level_next(i: int) -> int {
    if i == 5 {
        i64::MAX as int
    } else {
        level_floor(i + 1)
    }
}

/// The level thresholds are 100, 300, 700, 1500 and 3000 XP. An XP total is
/// at the level numbered by how many thresholds it has reached; that level
/// starts at the last threshold reached (0 before the first) and the next
/// one at the first threshold not reached; the levels are named, lowest
/// first, Rookie, Saver, Investor, Pro Investor, Market Expert and Finance
/// Legend.
pub proof fn law_level_thresholds(xp: int)
    ensures
        ({
            let th = seq![100int, 300int, 700int, 1500int, 3000int];
            let names = seq!["Rookie"@, "Saver"@, "Investor"@, "Pro Investor"@, "Market Expert"@, "Finance Legend"@];
            let i = level_index(xp);
            &&& 0 <= i <= 5
            &&& forall|k: int| 0 <= k < i ==> th[k] <= xp
            &&& forall|k: int| i <= k < 5 ==> xp < th[k]
            &&& level_floor(i) == (if i == 0 {
                0
            } else {
                th[i - 1]
            })
            &&& (i < 5 ==> level_next(i) == th[i])
            &&& level_name(i) == names[i]
        }),
{
}

/// The level of an XP total.
pub fn xp_to_level(xp: i64) -> (l: XpLevel)
    requires
        xp >= 100 - i64::MAX,
    ensures
        l.name@ == level_name(level_index(xp as int)),
        l.floor == level_floor(level_index(xp as int)),
        l.next == level_next(level_index(xp as int)),
        l.needed == (if level_index(xp as int) == 5 {
            0
        } else {
            level_next(level_index(xp as int)) - xp
        }),
{
    if xp < 100 {
        XpLevel { name: "Rookie", floor: 0, next: 100, needed: 100 - xp }
    } else if xp < 300 {
        XpLevel { name: "Saver", floor: 100, next: 300, needed: 300 - xp }
    } else if xp < 700 {
        XpLevel { name: "Investor", floor: 300, next: 700, needed: 700 - xp }
    } else if xp < 1500 {
        XpLevel { name: "Pro Investor", floor: 700, next: 1500, needed: 1500 - xp }
    } else if xp < 3000 {
        XpLevel { name: "Market Expert", floor: 1500, next: 3000, needed: 3000 - xp }
    } else {
        XpLevel { name: "Finance Legend", floor: 3000, next: i64::MAX, needed: 0 }
    }
}

/// Whether going from one XP total to another changes the level.
pub fn level_changed(old_xp: i64, new_xp: i64) -> (r: bool)
    requires
        old_xp >= 100 - i64::MAX,
        new_xp >= 100 - i64::MAX,
    ensures
        r == (level_name(level_index(old_xp as int)) != level_name(level_index(new_xp as int))),
{
    let a = xp_to_level(old_xp);
    let b = xp_to_level(new_xp);
    !str_eq(a.name, b.name)
}

/// XP total at which the "centurion" badge is due.
pub const CENTURION_XP: i64 = 100;

/// Whether the "centurion" badge is due at an XP total.
pub fn centurion_due(xp: i64) -> (r: bool)
    ensures
        r == (xp >= CENTURION_XP),
{
    xp >= CENTURION_XP
}

// ── Streaks ────────────────────────────────────────────────────────────

/// Whether `today` is at most a week after `last` (or before it).
pub open spec fn within_a_week(last: Date, today: Date) -> bool {
    date_lt(today, last) || exists|k: nat| k <= 7 && #[trigger] plus_days(last, k) == today
}

/// The new current count of a streak recorded on `today` (as text
/// `today_text`) whose last activity was `last`: unchanged when that was
/// today; otherwise one more when the last activity parses as a date at most
/// a week before, and 1 when it is older, missing or unparsable.
pub open spec fn streak_next_count(current: int, last: Option<Seq<char>>, today: Date) -> int {
    match last {
        None => 1,
        Some(l) => match parse_ymd_spec(l) {
            Some((y, m, d)) => if within_a_week(Date { year: y as i32, month: m as u32, day: d as u32 }, today) {
                current + 1
            } else {
                1
            },
            None => 1,
        },
    }
}

/// XP bonus for reaching a streak count: 25 at 7, 50 at 30.
pub open spec fn streak_bonus(count: int) -> int {
    if count == 30 {
        50
    } else if count == 7 {
        25
    } else {
        0
    }
}

fn days_within_week(last: Date, today: Date) -> (r: bool)
    requires
        last.wf(),
        today.wf(),
    ensures
        r == within_a_week(last, today),
{
    let k = days_since(today, last);
    proof {
        if k < 0 {
            lemma_plus_days_later(today, -k as nat);
            lemma_ord_matches_lt(today, last);
        } else if k <= 7 {
            assert(plus_days(last, k as nat) == today);
        } else {
            lemma_plus_days_later(last, k as nat);
            lemma_ord_matches_lt(today, last);
            assert forall|j: nat| j <= 7 implies #[trigger] plus_days(last, j) != today by {
                if plus_days(last, j) == today {
                    lemma_plus_days_injective(last, j, k as nat);
                }
            }
        }
    }
    k <= 7
}

/// Records an activity on a streak on `today`: when the last activity was
/// today (the same text), nothing changes and no bonus is given; otherwise
/// the count moves on (see `streak_next_count`), the best is kept up, and
/// reaching 7 or 30 earns a bonus.
pub fn update_streak_on(current: i64, best: i64, last_date: Option<&str>, today: Date) -> (r: StreakUpdateResult)
    requires
        today.wf(),
        current < i64::MAX,
    ensures
        ({
            let last = match last_date {
                Some(l) => Some(l@),
                None => None,
            };
            if last == Some(format_ymd_spec(today.year as int, today.month as int, today.day as int)) {
                r.current_count == current && r.best_count == best && !r.is_new_best && r.streak_bonus_xp == 0
            } else {
                let n = streak_next_count(current as int, last, today);
                &&& r.current_count == n
                &&& r.best_count == (if n > best {
                    n
                } else {
                    best as int
                })
                &&& r.is_new_best == (n > best)
                &&& r.streak_bonus_xp == streak_bonus(n)
            }
        }),
{
    let today_text = format_ymd(today);
    let same_day = match last_date {
        Some(l) => str_eq(l, today_text.as_str()),
        None => false,
    };
    if same_day {
        return StreakUpdateResult { current_count: current, best_count: best, is_new_best: false, streak_bonus_xp: 0 };
    }
    let new_current: i64 = match last_date {
        Some(l) => match parse_ymd(l) {
            Some(last) => if days_within_week(last, today) {
                current + 1
            } else {
                1
            },
            None => 1,
        },
        None => 1,
    };
    let new_best = if new_current > best {
        new_current
    } else {
        best
    };
    let bonus: i64 = if new_current == 30 {
        50
    } else if new_current == 7 {
        25
    } else {
        0
    };
    StreakUpdateResult {
        current_count: new_current,
        best_count: new_best,
        is_new_best: new_current > best,
        streak_bonus_xp: bonus,
    }
}

// ── Badges ─────────────────────────────────────────────────────────────

/// Number of holding tables with at least one row needed for the
/// diversification badge.
pub const DIVERSIFIED_TABLES: usize = 5;

/// Facts about the stored data that badge checks depend on.
pub struct BadgeFacts {
    /// Number of holding tables with at least one row.
    pub filled_holding_tables: usize,
    /// Net worth is at least one lakh.
    pub first_lakh_reached: bool,
    /// Net worth is at least ten lakh.
    pub ten_lakh_reached: bool,
    /// The 90-day savings rate is at least one half.
    pub savings_star_reached: bool,
}

/// The badges a check tries to award, in order: each asked-for badge whose
/// condition holds (holding-based ones from the stored holdings, wealth
/// ones from the stored net worth and savings rate, the rest as asked).
pub open spec fn badges_to_try_spec(c: BadgeContext, f: BadgeFacts) -> Seq<Seq<char>> {
    (if c.check_first_investment && f.filled_holding_tables > 0 {
        seq!["first_investment"@]
    } else {
        seq![]
    }) + (if c.check_diversification && f.filled_holding_tables >= DIVERSIFIED_TABLES {
        seq!["diversified_investor"@]
    } else {
        seq![]
    }) + (if c.check_first_goal {
        seq!["goal_getter"@]
    } else {
        seq![]
    }) + (if c.check_first_milestone {
        seq!["milestone_hunter"@]
    } else {
        seq![]
    }) + (if c.check_debt_destroyer {
        seq!["debt_destroyer"@]
    } else {
        seq![]
    }) + (if c.check_crore_club {
        seq!["crore_club"@]
    } else {
        seq![]
    }) + (if c.check_health_a {
        seq!["health_a"@]
    } else {
        seq![]
    }) + (if c.check_health_aplus {
        seq!["health_aplus"@]
    } else {
        seq![]
    }) + (if c.check_emergency_ready {
        seq!["emergency_ready"@]
    } else {
        seq![]
    }) + (if c.check_debt_light {
        seq!["debt_light"@]
    } else {
        seq![]
    }) + (if c.check_first_lakh && f.first_lakh_reached {
        seq!["first_lakh"@]
    } else {
        seq![]
    }) + (if c.check_ten_lakh && f.ten_lakh_reached {
        seq!["ten_lakh"@]
    } else {
        seq![]
    }) + (if c.check_savings_star && f.savings_star_reached {
        seq!["savings_star"@]
    } else {
        seq![]
    })
}

/// Plain-value view of a list of badge ids.
pub open spec fn ids_view(v: Seq<&'static str>) -> Seq<Seq<char>> {
    v.map_values(|s: &'static str| s@)
}

fn push_if(v: &mut Vec<&'static str>, cond: bool, id: &'static str)
    ensures
        ids_view(final(v)@) == ids_view(old(v)@) + (if cond {
            seq![id@]
        } else {
            seq![]
        }),
{
    let ghost before = v@;
    if cond {
        v.push(id);
        assert(ids_view(v@) =~= ids_view(before) + seq![id@]);
    } else {
        assert(ids_view(v@) =~= ids_view(before) + Seq::<Seq<char>>::empty());
    }
}

/// The badges a check tries to award (see `badges_to_try_spec`).
pub fn badges_to_try(c: &BadgeContext, f: &BadgeFacts) -> (v: Vec<&'static str>)
    ensures
        ids_view(v@) == badges_to_try_spec(*c, *f),
{
    let mut v: Vec<&'static str> = Vec::new();
    assert(ids_view(v@) =~= Seq::<Seq<char>>::empty());
    push_if(&mut v, c.check_first_investment && f.filled_holding_tables > 0, "first_investment");
    push_if(&mut v, c.check_diversification && f.filled_holding_tables >= DIVERSIFIED_TABLES, "diversified_investor");
    push_if(&mut v, c.check_first_goal, "goal_getter");
    push_if(&mut v, c.check_first_milestone, "milestone_hunter");
    push_if(&mut v, c.check_debt_destroyer, "debt_destroyer");
    push_if(&mut v, c.check_crore_club, "crore_club");
    push_if(&mut v, c.check_health_a, "health_a");
    push_if(&mut v, c.check_health_aplus, "health_aplus");
    push_if(&mut v, c.check_emergency_ready, "emergency_ready");
    push_if(&mut v, c.check_debt_light, "debt_light");
    push_if(&mut v, c.check_first_lakh && f.first_lakh_reached, "first_lakh");
    push_if(&mut v, c.check_ten_lakh && f.ten_lakh_reached, "ten_lakh");
    push_if(&mut v, c.check_savings_star && f.savings_star_reached, "savings_star");
    assert(ids_view(v@) =~= badges_to_try_spec(*c, *f));
    v
}

// ── First-run bootstrap ────────────────────────────────────────────────

/// One step of the first-run bootstrap: try to award a badge, or add XP.
pub enum BootstrapStep {
    Badge(&'static str),
    Xp(i32),
}

/// Plain-value view of a bootstrap step.
pub enum BootstrapStepView {
    Badge(Seq<char>),
    Xp(int),
}

/// Plain-value view of a list of bootstrap steps.
pub open spec fn steps_view(v: Seq<BootstrapStep>) -> Seq<BootstrapStepView> {
    v.map_values(|s: BootstrapStep| match s {
        BootstrapStep::Badge(id) => BootstrapStepView::Badge(id@),
        BootstrapStep::Xp(n) => BootstrapStepView::Xp(n as int),
    })
}

/// The smaller of two integers.
pub open spec fn min_of(a: int, b: int) -> int {
    if a <= b {
        a
    } else {
        b
    }
}

/// The bootstrap's steps for the holding tables in use: the
/// first-investment badge and 10 XP per table.
pub open spec fn invest_steps(filled: int) -> Seq<BootstrapStepView> {
    if filled > 0 {
        seq![BootstrapStepView::Badge("first_investment"@), BootstrapStepView::Xp(filled * 10)]
    } else {
        seq![]
    }
}

/// The diversification badge from five holding tables in use.
pub open spec fn diverse_steps(filled: int) -> Seq<BootstrapStepView> {
    if filled >= 5 {
        seq![BootstrapStepView::Badge("diversified_investor"@)]
    } else {
        seq![]
    }
}

/// The goal badge and 50 XP per achieved goal, up to four.
pub open spec fn goal_steps(goals: int) -> Seq<BootstrapStepView> {
    if goals > 0 {
        seq![BootstrapStepView::Badge("goal_getter"@), BootstrapStepView::Xp(min_of(goals, 4) * 50)]
    } else {
        seq![]
    }
}

/// The milestone badge and 100 XP per achieved milestone, up to five.
pub open spec fn milestone_steps(milestones: int) -> Seq<BootstrapStepView> {
    if milestones > 0 {
        seq![BootstrapStepView::Badge("milestone_hunter"@), BootstrapStepView::Xp(min_of(milestones, 5) * 100)]
    } else {
        seq![]
    }
}

/// The crore-club badge.
pub open spec fn crore_steps(crore: bool) -> Seq<BootstrapStepView> {
    if crore {
        seq![BootstrapStepView::Badge("crore_club"@)]
    } else {
        seq![]
    }
}

/// 5 XP per transaction, up to a hundred.
pub open spec fn txn_steps(txs: int) -> Seq<BootstrapStepView> {
    if txs > 0 {
        seq![BootstrapStepView::Xp(min_of(txs, 100) * 5)]
    } else {
        seq![]
    }
}

/// The bootstrap's steps for existing data, in order: holdings, goals,
/// milestones, the crore club, transactions.
pub open spec fn bootstrap_steps_spec(filled: int, goals: int, milestones: int, crore: bool, txs: int) -> Seq<
    BootstrapStepView,
> {
    invest_steps(filled) + diverse_steps(filled) + goal_steps(goals) + milestone_steps(milestones) + crore_steps(
        crore,
    ) + txn_steps(txs)
}

fn push_step(v: &mut Vec<BootstrapStep>, s: BootstrapStep)
    ensures
        steps_view(final(v)@) == steps_view(old(v)@).push(
            match s {
                BootstrapStep::Badge(id) => BootstrapStepView::Badge(id@),
                BootstrapStep::Xp(n) => BootstrapStepView::Xp(n as int),
            },
        ),
{
    let ghost before = v@;
    v.push(s);
    assert(steps_view(v@) =~= steps_view(before).push(
        match s {
            BootstrapStep::Badge(id) => BootstrapStepView::Badge(id@),
            BootstrapStep::Xp(n) => BootstrapStepView::Xp(n as int),
        },
    ));
}

/// The bootstrap's steps (see `bootstrap_steps_spec`), from the number of
/// holding tables in use, achieved goals and milestones, whether a crore
/// milestone is achieved, and the number of transactions.
pub fn bootstrap_steps(filled: usize, goals: i64, milestones: i64, crore: bool, txs: i64) -> (v: Vec<BootstrapStep>)
    requires
        filled <= 9,
    ensures
        steps_view(v@) == bootstrap_steps_spec(filled as int, goals as int, milestones as int, crore, txs as int),
{
    let mut v: Vec<BootstrapStep> = Vec::new();
    let ghost s0 = steps_view(v@);
    assert(s0 =~= Seq::<BootstrapStepView>::empty());
    if filled > 0 {
        push_step(&mut v, BootstrapStep::Badge("first_investment"));
        push_step(&mut v, BootstrapStep::Xp((filled as i32) * 10));
    }
    let ghost s1 = steps_view(v@);
    assert(s1 =~= invest_steps(filled as int));
    if filled >= 5 {
        push_step(&mut v, BootstrapStep::Badge("diversified_investor"));
    }
    let ghost s2 = steps_view(v@);
    assert(s2 =~= s1 + diverse_steps(filled as int));
    if goals > 0 {
        let g: i64 = if goals < 4 {
            goals
        } else {
            4
        };
        push_step(&mut v, BootstrapStep::Badge("goal_getter"));
        push_step(&mut v, BootstrapStep::Xp((g * 50) as i32));
    }
    let ghost s3 = steps_view(v@);
    assert(s3 =~= s2 + goal_steps(goals as int));
    if milestones > 0 {
        let m: i64 = if milestones < 5 {
            milestones
        } else {
            5
        };
        push_step(&mut v, BootstrapStep::Badge("milestone_hunter"));
        push_step(&mut v, BootstrapStep::Xp((m * 100) as i32));
    }
    let ghost s4 = steps_view(v@);
    assert(s4 =~= s3 + milestone_steps(milestones as int));
    if crore {
        push_step(&mut v, BootstrapStep::Badge("crore_club"));
    }
    let ghost s5 = steps_view(v@);
    assert(s5 =~= s4 + crore_steps(crore));
    if txs > 0 {
        let t: i64 = if txs < 100 {
            txs
        } else {
            100
        };
        push_step(&mut v, BootstrapStep::Xp((t * 5) as i32));
    }
    assert(steps_view(v@) =~= s5 + txn_steps(txs as int));
    v
}

// ── Challenges ─────────────────────────────────────────────────────────

/// How a challenge kind's target and progress are shown: rupees for
/// `save_amount`, days for `no_spend`, nothing otherwise.
pub open spec fn unit_spec(kind: Seq<char>) -> Seq<char> {
    if kind == "save_amount"@ {
        "\u{20b9}"@
    } else if kind == "no_spend"@ {
        "days"@
    } else {
        ""@
    }
}

/// The unit of a challenge kind (see `unit_spec`).
pub fn unit_for(kind: &str) -> (u: String)
    ensures
        u@ == unit_spec(kind@),
{
    if str_eq(kind, "save_amount") {
        String::from_str("\u{20b9}")
    } else if str_eq(kind, "no_spend") {
        String::from_str("days")
    } else {
        String::from_str("")
    }
}

} // verus!
