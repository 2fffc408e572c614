//! The date and grouping rules of the capital-gains report: the financial
//! year a report covers, which buy lots a sale is matched against, the date
//! of a stored transaction, and whether a gain is short- or long-term. The
//! amounts themselves are the application's.

use vstd::prelude::*;
use vstd::string::*;
use crate::calendar::{days_between, days_from, format_ymd, format_ymd_spec, from_ymd, parse_ymd, parse_ymd_spec,
    civil_valid, Date};
use crate::numeric::{int_text, parse_i64, parse_int_spec, push_int};
use crate::text::{find_char_from, index_of, is_white_space, white_space};

verus! {

/// The key of the buy-lot queue a transaction belongs to: its asset class
/// and holding id, or, without a holding id, its asset class and
/// description.
pub open spec fn lot_key_spec(asset_class: Seq<char>, holding_id: Option<int>, description: Seq<char>) -> Seq<char> {
    match holding_id {
        Some(id) => asset_class + ":"@ + int_text(id),
        None => asset_class + "::"@ + description,
    }
}

/// The key of the buy-lot queue a transaction belongs to.
pub fn lot_key(asset_class: &str, holding_id: Option<i64>, description: &str) -> (k: String)
    ensures
        k@ == lot_key_spec(
            asset_class@,
            match holding_id {
                Some(i) => Some(i as int),
                None => None,
            },
            description@,
        ),
{
    let mut k = String::from_str(asset_class);
    match holding_id {
        Some(id) => {
            k.append(":");
            push_int(&mut k, id);
        },
        None => {
            k.append("::");
            k.append(description);
        },
    }
    k
}

/// The year a financial-year label starts: the text before the first `-`
/// read as an `i32` (`"2024-25"` starts in 2024).
pub open spec fn fy_start_year(fy: Seq<char>) -> Option<int> {
    parse_int_spec(fy.take(index_of(fy, '-')), true, i32::MIN as int, i32::MAX as int)
}

/// The first and last day of a financial year: 1 April of its start year to
/// 31 March of the next; `None` when the label does not parse or the dates
/// are not representable.
pub open spec fn parse_fy_spec(fy: Seq<char>) -> Option<(Date, Date)> {
    match fy_start_year(fy) {
        Some(y) => if civil_valid(y, 4, 1) && civil_valid(y + 1, 3, 31) {
            Some((Date { year: y as i32, month: 4, day: 1 }, Date { year: (y + 1) as i32, month: 3, day: 31 }))
        } else {
            None
        },
        None => None,
    }
}

/// The first and last day of a financial year (see `parse_fy_spec`).
pub fn parse_fy(fy: &str) -> (r: Option<(Date, Date)>)
    ensures
        r == parse_fy_spec(fy@),
{
    let n = fy.unicode_len();
    let k = find_char_from(fy, '-', 0);
    assert(fy@.subrange(0, n as int) =~= fy@);
    let head = fy.substring_char(0, k);
    assert(head@ =~= fy@.take(k as int));
    let y: i32 = match parse_i64(head) {
        Some(v) => if v < -2147483648 || v > 2147483647 {
            return None;
        } else {
            v as i32
        },
        None => {
            return None;
        },
    };
    let start = match from_ymd(y, 4, 1) {
        Some(d) => d,
        None => {
            return None;
        },
    };
    match from_ymd(y + 1, 3, 31) {
        Some(end) => Some((start, end)),
        None => None,
    }
}

/// The bounds of the sales a financial year's report covers: its first day,
/// and its last day at the end of the day.
pub fn fy_bounds(start: Date, end: Date) -> (r: (String, String))
    requires
        start.wf(),
        end.wf(),
    ensures
        r.0@ == format_ymd_spec(start.year as int, start.month as int, start.day as int),
        r.1@ == format_ymd_spec(end.year as int, end.month as int, end.day as int) + " 23:59:59"@,
{
    let s = format_ymd(start);
    let mut e = format_ymd(end);
    e.append(" 23:59:59");
    (s, e)
}

/// The first whitespace-separated word of a text (the date part of a stored
/// date-time); the text itself when it has none.
pub open spec fn first_word(s: Seq<char>) -> Seq<char> {
    let a = leading_white(s);
    if a >= s.len() {
        s
    } else {
        let rest = s.skip(a);
        rest.take(word_len(rest))
    }
}

/// Number of leading whitespace characters.
pub open spec fn leading_white(s: Seq<char>) -> int
    decreases s.len(),
{
    if s.len() > 0 && is_white_space(s[0]) {
        1 + leading_white(s.drop_first())
    } else {
        0
    }
}

/// Number of leading non-whitespace characters.
pub open spec fn word_len(s: Seq<char>) -> int
    decreases s.len(),
{
    if s.len() > 0 && !is_white_space(s[0]) {
        1 + word_len(s.drop_first())
    } else {
        0
    }
}

proof fn lemma_run_len(s: Seq<char>, i: int, white: bool)
    requires
        0 <= i <= s.len(),
        forall|k: int| 0 <= k < i ==> is_white_space(#[trigger] s[k]) == white,
        i == s.len() || is_white_space(s[i]) != white,
    ensures
        white ==> leading_white(s) == i,
        !white ==> word_len(s) == i,
    decreases s.len(),
{
    if i > 0 {
        assert forall|k: int| 0 <= k < i - 1 implies is_white_space(#[trigger] s.drop_first()[k]) == white by {
            assert(s.drop_first()[k] == s[k + 1]);
        }
        lemma_run_len(s.drop_first(), i - 1, white);
    }
}

fn first_word_exec(s: &str) -> (w: &str)
    ensures
        w@ == first_word(s@),
{
    let n = s.unicode_len();
    let mut a: usize = 0;
    while a < n && white_space(s.get_char(a))
        invariant
            n == s@.len(),
            a <= n,
            forall|k: int| 0 <= k < a ==> is_white_space(#[trigger] s@[k]),
        decreases n - a,
    {
        a = a + 1;
    }
    proof {
        lemma_run_len(s@, a as int, true);
    }
    if a >= n {
        return s;
    }
    let mut b: usize = a;
    while b < n && !white_space(s.get_char(b))
        invariant
            n == s@.len(),
            a <= b <= n,
            forall|k: int| a <= k < b ==> !is_white_space(#[trigger] s@[k]),
        decreases n - b,
    {
        b = b + 1;
    }
    proof {
        let rest = s@.skip(a as int);
        assert forall|k: int| 0 <= k < b - a implies is_white_space(#[trigger] rest[k]) == false by {
            assert(rest[k] == s@[k + a]);
        }
        if b < n {
            assert(rest[b - a] == s@[b as int]);
        }
        lemma_run_len(rest, b - a, false);
        assert(rest.take(b - a) =~= s@.subrange(a as int, b as int));
    }
    s.substring_char(a, b)
}

/// The date of a stored transaction: its first word read as `YYYY-MM-DD`,
/// or `fallback` when that does not parse.
pub open spec fn txn_date_spec(s: Seq<char>, fallback: Date) -> Date {
    match parse_ymd_spec(first_word(s)) {
        Some((y, m, d)) => Date { year: y as i32, month: m as u32, day: d as u32 },
        None => fallback,
    }
}

/// The date of a stored transaction (see `txn_date_spec`).
pub fn txn_date(s: &str, fallback: Date) -> (d: Date)
    ensures
        d == txn_date_spec(s@, fallback),
{
    match parse_ymd(first_word_exec(s)) {
        Some(d) => d,
        None => fallback,
    }
}

/// Days a lot bought on `buy` was held when sold on `sell`, and whether the
/// gain is short-term (held under 365 days).
pub fn holding_period(buy: Date, sell: Date) -> (r: (i64, bool))
    requires
        buy.wf(),
        sell.wf(),
    ensures
        r.0 == days_between(sell, buy),
        r.1 == (days_between(sell, buy) < 365),
{
    let days = days_from(sell, buy);
    (days, days < 365)
}

/// The label of a gain: `STCG` for short-term, `LTCG` for long-term.
pub fn gain_type(short_term: bool) -> (s: &'static str)
    ensures
        s@ == (if short_term {
            "STCG"@
        } else {
            "LTCG"@
        }),
{
    if short_term {
        "STCG"
    } else {
        "LTCG"
    }
}

} // verus!
