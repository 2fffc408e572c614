//! The insight feed's rules that do not depend on money amounts: the screen
//! and button for a weak health pillar, the maturity reminders of the coming
//! week, the order of the feed, and which nudges a dismissal hides.

use vstd::prelude::*;
use vstd::string::*;
use crate::calendar::{add_days, date_text, days_between, days_from, format_ymd_spec, parse_ymd, parse_ymd_spec, plus_days, Date};
use crate::numeric::{decimal_digits, push_decimal};
use crate::text::str_eq;

verus! {

/// One actionable nudge.
pub struct Nudge {
    /// Stable across recomputes: the dismissal key.
    pub id: String,
    /// `critical`, `warning`, `positive` or `info`.
    pub severity: String,
    pub category: String,
    pub icon: String,
    pub title: String,
    pub body: String,
    pub action_label: String,
    pub action_route: String,
    /// Higher is shown first.
    pub priority: i32,
}

/// The icon, button label and screen for a weak health pillar, by its key.
pub open spec fn pillar_action_spec(key: Seq<char>) -> (Seq<char>, Seq<char>, Seq<char>) {
    if key == "savings"@ {
        ("\u{1f4b0}"@, "Review spending"@, "/income-expenses"@)
    } else if key == "emergency"@ {
        ("\u{1f6df}"@, "Build reserves"@, "/portfolio"@)
    } else if key == "debt"@ {
        ("\u{2694}\u{fe0f}"@, "Manage debt"@, "/liabilities"@)
    } else if key == "diversification"@ {
        ("\u{1f9e9}"@, "Diversify"@, "/portfolio"@)
    } else if key == "protection"@ {
        ("\u{1f6e1}\u{fe0f}"@, "Add cover"@, "/portfolio"@)
    } else if key == "networth"@ {
        ("\u{1f4c8}"@, "Grow net worth"@, "/portfolio"@)
    } else {
        ("\u{1f3af}"@, "Open"@, "/dashboard"@)
    }
}

/// The icon, button label and screen for a weak health pillar.
pub fn pillar_action(key: &str) -> (r: (&'static str, &'static str, &'static str))
    ensures
        (r.0@, r.1@, r.2@) == pillar_action_spec(key@),
{
    if str_eq(key, "savings") {
        ("\u{1f4b0}", "Review spending", "/income-expenses")
    } else if str_eq(key, "emergency") {
        ("\u{1f6df}", "Build reserves", "/portfolio")
    } else if str_eq(key, "debt") {
        ("\u{2694}\u{fe0f}", "Manage debt", "/liabilities")
    } else if str_eq(key, "diversification") {
        ("\u{1f9e9}", "Diversify", "/portfolio")
    } else if str_eq(key, "protection") {
        ("\u{1f6e1}\u{fe0f}", "Add cover", "/portfolio")
    } else if str_eq(key, "networth") {
        ("\u{1f4c8}", "Grow net worth", "/portfolio")
    } else {
        ("\u{1f3af}", "Open", "/dashboard")
    }
}

// ── Maturities of the coming week ──────────────────────────────────────

/// How many days ahead a maturity is announced.
pub const LOOKAHEAD_DAYS: i64 = 7;

/// Days from `today` to a maturity date text: 0 when it does not parse.
pub open spec fn maturity_days(date: Seq<char>, today: Date) -> int {
    match parse_ymd_spec(date) {
        Some((y, m, d)) => days_between(Date { year: y as i32, month: m as u32, day: d as u32 }, today),
        None => 0,
    }
}

/// "today", or "in N day(s)".
pub open spec fn when_text(days: int) -> Seq<char> {
    if days == 0 {
        "today"@
    } else {
        "in "@ + decimal_digits(days as nat) + " day"@ + (if days == 1 {
            ""@
        } else {
            "s"@
        })
    }
}

/// The reminder for a fixed deposit or bond (`source`) named `name` maturing
/// on `date`, when that is today or within the coming week.
pub open spec fn maturity_nudge_spec(source: Seq<char>, name: Seq<char>, date: Seq<char>, today: Date) -> Option<
    (Seq<char>, Seq<char>),
> {
    let days = maturity_days(date, today);
    if 0 <= days <= LOOKAHEAD_DAYS {
        Some(
            (
                "maturity:"@ + source + ":"@ + name + ":"@ + date,
                name + " matures "@ + when_text(days) + " ("@ + date + "). Plan the reinvestment."@,
            ),
        )
    } else {
        None
    }
}

/// The reminder for an upcoming maturity (see `maturity_nudge_spec`: its id
/// and body; it is an `info` nudge of priority 50 pointing at the
/// portfolio).
pub fn maturity_nudge(source: &str, name: &str, date: &str, today: Date) -> (r: Option<Nudge>)
    requires
        today.wf(),
    ensures
        match maturity_nudge_spec(source@, name@, date@, today) {
            Some((id, body)) => r matches Some(n) && n.id@ == id && n.body@ == body && n.severity@ == "info"@
                && n.category@ == "maturity"@ && n.icon@ == "\u{23f0}"@ && n.title@ == "Maturity coming up"@
                && n.action_label@ == "Plan reinvestment"@ && n.action_route@ == "/portfolio"@ && n.priority == 50,
            None => r is None,
        },
{
    let days: i64 = match parse_ymd(date) {
        Some(d) => days_from(d, today),
        None => 0,
    };
    if days < 0 || days > LOOKAHEAD_DAYS {
        return None;
    }
    let mut when = String::new();
    if days == 0 {
        when.append("today");
    } else {
        when.append("in ");
        push_decimal(&mut when, days as u64);
        when.append(" day");
        if days != 1 {
            when.append("s");
        } else {
            when.append("");
        }
    }
    let mut id = String::from_str("maturity:");
    id.append(source);
    id.append(":");
    id.append(name);
    id.append(":");
    id.append(date);
    let mut body = String::from_str(name);
    body.append(" matures ");
    body.append(when.as_str());
    body.append(" (");
    body.append(date);
    body.append("). Plan the reinvestment.");
    Some(
        Nudge {
            id,
            severity: String::from_str("info"),
            category: String::from_str("maturity"),
            icon: String::from_str("\u{23f0}"),
            title: String::from_str("Maturity coming up"),
            body,
            action_label: String::from_str("Plan reinvestment"),
            action_route: String::from_str("/portfolio"),
            priority: 50,
        },
    )
}

// ── Order of the feed ──────────────────────────────────────────────────

/// Whether `order` lists the positions of `prio` highest priority first,
/// equal priorities in the order given, each position once.
pub open spec fn is_feed_order(prio: Seq<i32>, order: Seq<usize>) -> bool {
    &&& order.len() == prio.len()
    &&& forall|a: int| 0 <= a < order.len() ==> (#[trigger] order[a]) < prio.len()
    &&& forall|a: int, b: int| 0 <= a < b < order.len() ==> #[trigger] order[a] != #[trigger] order[b]
    &&& forall|a: int, b: int|
        0 <= a < b < order.len() ==> prio[#[trigger] order[a] as int] > prio[#[trigger] order[b] as int] || (
        prio[order[a] as int] == prio[order[b] as int] && order[a] < order[b])
}

/// The order in which nudges with priorities `prio` are shown (see
/// `is_feed_order`).
pub fn feed_order(prio: &Vec<i32>) -> (order: Vec<usize>)
    ensures
        is_feed_order(prio@, order@),
{
    let n = prio.len();
    let mut order: Vec<usize> = Vec::new();
    let mut i: usize = 0;
    while i < n
        invariant
            n == prio@.len(),
            i <= n,
            order@.len() == i,
            forall|a: int| 0 <= a < order@.len() ==> (#[trigger] order@[a]) < i,
            forall|a: int, b: int| 0 <= a < b < order@.len() ==> #[trigger] order@[a] != #[trigger] order@[b],
            forall|a: int, b: int|
                0 <= a < b < order@.len() ==> prio@[#[trigger] order@[a] as int] > prio@[#[trigger] order@[b] as int]
                    || (prio@[order@[a] as int] == prio@[order@[b] as int] && order@[a] < order@[b]),
        decreases n - i,
    {
        let p = prio[i];
        let mut pos: usize = 0;
        while pos < order.len() && prio[order[pos]] >= p
            invariant
                n == prio@.len(),
                i < n,
                p == prio@[i as int],
                order@.len() == i,
                forall|a: int| 0 <= a < order@.len() ==> (#[trigger] order@[a]) < i,
                pos <= order@.len(),
                forall|a: int| 0 <= a < pos ==> prio@[#[trigger] order@[a] as int] >= p,
            decreases order@.len() - pos,
        {
            pos = pos + 1;
        }
        let ghost old_order = order@;
        proof {
            assert forall|a: int| pos <= a < old_order.len() implies prio@[#[trigger] old_order[a] as int] < p by {
                if prio@[old_order[pos as int] as int] >= p {
                } else {
                    if a > pos {
                        let x = old_order[pos as int];
                        let y = old_order[a];
                        assert(prio@[x as int] > prio@[y as int] || (prio@[x as int] == prio@[y as int] && x < y));
                    }
                }
            }
        }
        order.insert(pos, i);
        proof {
            assert forall|a: int| 0 <= a < order@.len() implies (#[trigger] order@[a]) < i + 1 by {
                if a < pos {
                    assert(order@[a] == old_order[a]);
                } else if a > pos {
                    assert(order@[a] == old_order[a - 1]);
                }
            }
            assert forall|a: int, b: int| 0 <= a < b < order@.len() implies #[trigger] order@[a]
                != #[trigger] order@[b] by {
                if a < pos {
                    assert(order@[a] == old_order[a]);
                }
                if a > pos {
                    assert(order@[a] == old_order[a - 1]);
                }
                if b < pos {
                    assert(order@[b] == old_order[b]);
                }
                if b > pos {
                    assert(order@[b] == old_order[b - 1]);
                }
            }
            assert forall|a: int, b: int| 0 <= a < b < order@.len() implies prio@[#[trigger] order@[a] as int]
                > prio@[#[trigger] order@[b] as int] || (prio@[order@[a] as int] == prio@[order@[b] as int]
                && order@[a] < order@[b]) by {
                let x = order@[a];
                let y = order@[b];
                if a < pos {
                    assert(x == old_order[a]);
                }
                if a > pos {
                    assert(x == old_order[a - 1]);
                }
                if b < pos {
                    assert(y == old_order[b]);
                }
                if b > pos {
                    assert(y == old_order[b - 1]);
                }
            }
        }
        i = i + 1;
    }
    order
}

// ── Dismissals ─────────────────────────────────────────────────────────

/// How long, in days, a dismissed nudge stays hidden.
pub const DISMISS_DAYS: i64 = 7;

/// The day a nudge dismissed on `today` comes back: `DISMISS_DAYS` days
/// later, as `YYYY-MM-DD`; none past the last representable date.
pub fn dismissal_until(today: Date) -> (r: Option<String>)
    requires
        today.wf(),
    ensures
        match r {
            Some(s) => plus_days(today, DISMISS_DAYS as nat).wf() && s@ == format_ymd_spec(
                plus_days(today, DISMISS_DAYS as nat).year as int,
                plus_days(today, DISMISS_DAYS as nat).month as int,
                plus_days(today, DISMISS_DAYS as nat).day as int,
            ),
            None => !plus_days(today, DISMISS_DAYS as nat).wf(),
        },
{
    match add_days(today, DISMISS_DAYS) {
        Some(d) => Some(date_text(d)),
        None => None,
    }
}

/// Whether a dismissal that lasts until `until` still holds on `today`
/// (dates as `YYYY-MM-DD` texts, compared as texts).
pub open spec fn dismissal_active(until: Seq<char>, today: Seq<char>) -> bool {
    crate::clocks::text_lt(today, until)
}

/// Whether a nudge is hidden on `today` by one of the dismissals
/// `(id, until)`.
pub open spec fn is_hidden(id: Seq<char>, dismissals: Seq<(Seq<char>, Seq<char>)>, today: Seq<char>) -> bool {
    exists|k: int| 0 <= k < dismissals.len() && #[trigger] dismissals[k].0 == id && dismissal_active(dismissals[k].1, today)
}

/// Plain-value view of the stored dismissals.
pub open spec fn dismissals_view(d: Seq<(String, String)>) -> Seq<(Seq<char>, Seq<char>)> {
    d.map_values(|e: (String, String)| (e.0@, e.1@))
}

/// Whether a nudge with id `id` is hidden on `today` by the dismissals.
pub fn hidden_by(id: &str, dismissals: &Vec<(String, String)>, today: &str) -> (r: bool)
    ensures
        r == is_hidden(id@, dismissals_view(dismissals@), today@),
{
    let ghost dv = dismissals_view(dismissals@);
    let n = dismissals.len();
    let mut k: usize = 0;
    while k < n
        invariant
            n == dismissals@.len(),
            dv == dismissals_view(dismissals@),
            k <= n,
            forall|j: int| 0 <= j < k ==> !(#[trigger] dv[j].0 == id@ && dismissal_active(dv[j].1, today@)),
        decreases n - k,
    {
        let e = &dismissals[k];
        if str_eq(e.0.as_str(), id) && crate::clocks::text_less(today, e.1.as_str()) {
            assert(dv[k as int].0 == id@ && dismissal_active(dv[k as int].1, today@));
            return true;
        }
        k = k + 1;
    }
    false
}

/// The dismissals kept when `id` is dismissed on `today` until `until`:
/// those still active other than for `id`, in order, then the new one.
pub open spec fn dismiss_spec(
    items: Seq<(Seq<char>, Seq<char>)>,
    id: Seq<char>,
    today: Seq<char>,
    until: Seq<char>,
) -> Seq<(Seq<char>, Seq<char>)> {
    items.filter(kept_dismissal(id, today)).push((id, until))
}

/// Which stored dismissals survive a new dismissal of `id` on `today`: the
/// still-active ones for other nudges.
pub open spec fn kept_dismissal(id: Seq<char>, today: Seq<char>) -> spec_fn((Seq<char>, Seq<char>)) -> bool {
    |e: (Seq<char>, Seq<char>)| dismissal_active(e.1, today) && e.0 != id
}

/// Records the dismissal of `id` on `today` until `until` (see
/// `dismiss_spec`).
pub fn dismiss(items: Vec<(String, String)>, id: String, today: &str, until: String) -> (r: Vec<(String, String)>)
    ensures
        dismissals_view(r@) == dismiss_spec(dismissals_view(items@), id@, today@, until@),
{
    let ghost iv = dismissals_view(items@);
    let ghost f = kept_dismissal(id@, today@);
    let mut out: Vec<(String, String)> = Vec::new();
    let n = items.len();
    let mut k: usize = 0;
    proof {
        reveal(Seq::filter);
        assert(iv.take(0) =~= Seq::<(Seq<char>, Seq<char>)>::empty());
        assert(dismissals_view(out@) =~= Seq::<(Seq<char>, Seq<char>)>::empty());
    }
    while k < n
        invariant
            n == items@.len(),
            iv == dismissals_view(items@),
            f == kept_dismissal(id@, today@),
            k <= n,
            dismissals_view(out@) == iv.take(k as int).filter(f),
        decreases n - k,
    {
        let e = &items[k];
        let keep = crate::clocks::text_less(today, e.1.as_str()) && !str_eq(e.0.as_str(), id.as_str());
        proof {
            reveal(Seq::filter);
            assert(iv.take(k + 1).drop_last() =~= iv.take(k as int));
            assert(iv.take(k + 1).last() == iv[k as int]);
        }
        if keep {
            let ghost before = out@;
            out.push((e.0.clone(), e.1.clone()));
            assert(dismissals_view(out@) =~= dismissals_view(before).push(iv[k as int]));
        }
        k = k + 1;
    }
    assert(iv.take(n as int) =~= iv);
    let ghost before = out@;
    out.push((id, until));
    assert(dismissals_view(out@) =~= dismissals_view(before).push((id@, until@)));
    out
}

/// Right after a dismissal, the dismissed nudge is hidden exactly when the
/// new dismissal still holds on that day, whatever was dismissed before.
pub proof fn law_dismissed_nudge_is_hidden(
    items: Seq<(Seq<char>, Seq<char>)>,
    id: Seq<char>,
    today: Seq<char>,
    until: Seq<char>,
)
    ensures
        is_hidden(id, dismiss_spec(items, id, today, until), today) == dismissal_active(until, today),
{
    let f = kept_dismissal(id, today);
    let kept = items.filter(f);
    let out = kept.push((id, until));
    if is_hidden(id, out, today) {
        let k = choose|k: int| 0 <= k < out.len() && #[trigger] out[k].0 == id && dismissal_active(out[k].1, today);
        if k < kept.len() {
            items.lemma_filter_pred(f, k);
            assert(out[k] == kept[k]);
        }
    }
    if dismissal_active(until, today) {
        assert(out[kept.len() as int].0 == id);
    }
}

} // verus!
