//! Merge clocks: the hybrid logical clock (`sync_hlc`, text of the form
//! `"{physical_ms:013}:{logical:09}:{device_id}"`), the legacy wall-clock
//! timestamp (`"YYYY-MM-DD HH:MM:SS"`), and the rule that decides which of
//! two sides of a merge comparison wins.

use vstd::prelude::*;
use vstd::string::*;
use crate::numeric::{all_digits, digits_in_range, digits_value, is_digit, parse_int_spec, parse_i64};
use crate::text::{find_char_from, index_of, lemma_index_of};

verus! {

/// Rust's ordering of strings (byte-wise lexicographic on UTF-8, which is the
/// same as lexicographic on code points): `a` sorts strictly before `b`.
pub open spec fn text_lt(a: Seq<char>, b: Seq<char>) -> bool
    decreases a.len(),
{
    if a.len() == 0 {
        b.len() > 0
    } else if b.len() == 0 {
        false
    } else if a[0] < b[0] {
        true
    } else if a[0] > b[0] {
        false
    } else {
        text_lt(a.drop_first(), b.drop_first())
    }
}

/// `text_lt` is irreflexive.
pub proof fn lemma_text_lt_irreflexive(a: Seq<char>)
    ensures
        !text_lt(a, a),
    decreases a.len(),
{
    if a.len() > 0 {
        lemma_text_lt_irreflexive(a.drop_first());
    }
}

/// `text_lt` is total: of two different texts one sorts before the other,
/// and never both.
pub proof fn lemma_text_lt_trichotomy(a: Seq<char>, b: Seq<char>)
    ensures
        a == b || text_lt(a, b) || text_lt(b, a),
        !(text_lt(a, b) && text_lt(b, a)),
    decreases a.len(),
{
    if a.len() > 0 && b.len() > 0 {
        lemma_text_lt_trichotomy(a.drop_first(), b.drop_first());
        if a[0] == b[0] && a.drop_first() == b.drop_first() {
            assert(a =~= seq![a[0]] + a.drop_first());
            assert(b =~= seq![b[0]] + b.drop_first());
        }
    } else if a.len() == 0 && b.len() == 0 {
        assert(a =~= b);
    }
}

/// `text_lt` is transitive.
pub proof fn lemma_text_lt_transitive(a: Seq<char>, b: Seq<char>, c: Seq<char>)
    requires
        text_lt(a, b),
        text_lt(b, c),
    ensures
        text_lt(a, c),
    decreases a.len(),
{
    if a.len() > 0 && b.len() > 0 && c.len() > 0 {
        if a[0] == b[0] && b[0] == c[0] {
            lemma_text_lt_transitive(a.drop_first(), b.drop_first(), c.drop_first());
        }
    }
}

/// Whether `a` sorts strictly before `b`, as Rust's `<` on strings.
pub fn text_less(a: &str, b: &str) -> (r: bool)
    ensures
        r == text_lt(a@, b@),
{
    let na = a.unicode_len();
    let nb = b.unicode_len();
    let mut i: usize = 0;
    assert(a@.subrange(0, na as int) =~= a@);
    assert(b@.subrange(0, nb as int) =~= b@);
    while i < na && i < nb
        invariant
            na == a@.len(),
            nb == b@.len(),
            i <= na,
            i <= nb,
            text_lt(a@, b@) == text_lt(a@.subrange(i as int, na as int), b@.subrange(i as int, nb as int)),
        decreases na - i,
    {
        let ca = a.get_char(i);
        let cb = b.get_char(i);
        let ghost sa = a@.subrange(i as int, na as int);
        let ghost sb = b@.subrange(i as int, nb as int);
        assert(sa[0] == ca);
        assert(sb[0] == cb);
        if ca < cb {
            return true;
        }
        if ca > cb {
            return false;
        }
        assert(sa.drop_first() =~= a@.subrange(i + 1, na as int));
        assert(sb.drop_first() =~= b@.subrange(i + 1, nb as int));
        i = i + 1;
    }
    i == na && i < nb
}

/// An optional clock text as plain characters.
pub open spec fn opt_view(o: Option<&str>) -> Option<Seq<char>> {
    match o {
        Some(s) => Some(s@),
        None => None,
    }
}

/// The merge comparison: whether side `a` wins over side `b`. When both sides
/// carry a non-empty hybrid logical clock the clocks are compared; otherwise
/// the legacy timestamps are. `or_equal` makes a tie count as a win (used
/// where a delete is compared with a row); without it only a strictly newer
/// side wins (row against row).
pub open spec fn a_wins_spec(
    a_hlc: Option<Seq<char>>,
    a_ts: Seq<char>,
    b_hlc: Option<Seq<char>>,
    b_ts: Seq<char>,
    or_equal: bool,
) -> bool {
    let (x, y) = if a_hlc is Some && b_hlc is Some && a_hlc->0.len() > 0 && b_hlc->0.len() > 0 {
        (a_hlc->0, b_hlc->0)
    } else {
        (a_ts, b_ts)
    };
    if or_equal {
        !text_lt(x, y)
    } else {
        text_lt(y, x)
    }
}

/// Whether side `a` wins over side `b` in a merge comparison.
pub fn a_wins(a_hlc: Option<&str>, a_ts: &str, b_hlc: Option<&str>, b_ts: &str, or_equal: bool) -> (r: bool)
    ensures
        r == a_wins_spec(opt_view(a_hlc), a_ts@, opt_view(b_hlc), b_ts@, or_equal),
{
    let (x, y) = match (a_hlc, b_hlc) {
        (Some(ah), Some(bh)) => if ah.unicode_len() > 0 && bh.unicode_len() > 0 {
            (ah, bh)
        } else {
            (a_ts, b_ts)
        },
        _ => (a_ts, b_ts),
    };
    if or_equal {
        !text_less(x, y)
    } else {
        text_less(y, x)
    }
}

/// The strict comparison is the negation of the non-strict one with the sides
/// swapped: a row update wins exactly when the other side would not win a tie.
pub proof fn law_strict_is_dual_of_or_equal(
    a_hlc: Option<Seq<char>>,
    a_ts: Seq<char>,
    b_hlc: Option<Seq<char>>,
    b_ts: Seq<char>,
)
    ensures
        a_wins_spec(a_hlc, a_ts, b_hlc, b_ts, false) == !a_wins_spec(b_hlc, b_ts, a_hlc, a_ts, true),
{
}

/// Of two sides, at least one wins the non-strict comparison; and both win
/// it only when they compare equal, in which case neither wins strictly.
pub proof fn law_or_equal_is_total(
    a_hlc: Option<Seq<char>>,
    a_ts: Seq<char>,
    b_hlc: Option<Seq<char>>,
    b_ts: Seq<char>,
)
    ensures
        a_wins_spec(a_hlc, a_ts, b_hlc, b_ts, true) || a_wins_spec(b_hlc, b_ts, a_hlc, a_ts, true),
        !(a_wins_spec(a_hlc, a_ts, b_hlc, b_ts, false) && a_wins_spec(b_hlc, b_ts, a_hlc, a_ts, false)),
{
    lemma_text_lt_trichotomy(a_ts, b_ts);
    if a_hlc is Some && b_hlc is Some {
        lemma_text_lt_trichotomy(a_hlc->0, b_hlc->0);
    }
}

/// Two versions of a row whose compared clocks differ have exactly one
/// winner, whichever side compares first: syncing two devices both ways
/// leaves both holding the same version.
pub proof fn law_distinct_clocks_have_one_winner(
    a_hlc: Option<Seq<char>>,
    a_ts: Seq<char>,
    b_hlc: Option<Seq<char>>,
    b_ts: Seq<char>,
)
    requires
        if a_hlc is Some && b_hlc is Some && a_hlc->0.len() > 0 && b_hlc->0.len() > 0 {
            a_hlc->0 != b_hlc->0
        } else {
            a_ts != b_ts
        },
    ensures
        a_wins_spec(a_hlc, a_ts, b_hlc, b_ts, false) != a_wins_spec(b_hlc, b_ts, a_hlc, a_ts, false),
{
    lemma_text_lt_trichotomy(a_ts, b_ts);
    if a_hlc is Some && b_hlc is Some {
        lemma_text_lt_trichotomy(a_hlc->0, b_hlc->0);
    }
}

/// A side never wins strictly against an identical side; it always wins a tie.
pub proof fn law_identical_sides(hlc: Option<Seq<char>>, ts: Seq<char>)
    ensures
        !a_wins_spec(hlc, ts, hlc, ts, false),
        a_wins_spec(hlc, ts, hlc, ts, true),
{
    lemma_text_lt_irreflexive(ts);
    if hlc is Some {
        lemma_text_lt_irreflexive(hlc->0);
    }
}

// ── Hybrid logical clock text ──────────────────────────────────────────

/// Most a peer's clock may run ahead of this device's: one day, in ms.
pub const MAX_CLOCK_SKEW_MS: i64 = 86_400_000;

/// Whether a character is an ASCII hex digit.
pub open spec fn is_hex_digit(c: char) -> bool {
    ('0' <= c && c <= '9') || ('a' <= c && c <= 'f') || ('A' <= c && c <= 'F')
}

/// The shape of a hybrid logical clock text: 13 digits, `:`, 9 digits, `:`,
/// 32 hex digits (splitting on `:` gives exactly these three parts).
pub open spec fn hlc_well_formed(s: Seq<char>) -> bool {
    &&& s.len() == 56
    &&& s[13] == ':'
    &&& s[23] == ':'
    &&& all_digits(s.subrange(0, 13))
    &&& all_digits(s.subrange(14, 23))
    &&& forall|i: int| 24 <= i < 56 ==> #[trigger] is_hex_digit(s[i])
}

/// The physical milliseconds of a well-formed clock text.
pub open spec fn hlc_physical(s: Seq<char>) -> int {
    digits_value(s.subrange(0, 13))
}

/// The logical counter of a well-formed clock text.
pub open spec fn hlc_logical(s: Seq<char>) -> int {
    digits_value(s.subrange(14, 23))
}

proof fn lemma_text_lt_common_prefix(p: Seq<char>, u: Seq<char>, v: Seq<char>)
    ensures
        text_lt(p + u, p + v) == text_lt(u, v),
    decreases p.len(),
{
    if p.len() > 0 {
        assert((p + u).drop_first() =~= p.drop_first() + u);
        assert((p + v).drop_first() =~= p.drop_first() + v);
        assert((p + u)[0] == p[0] && (p + v)[0] == p[0]);
        lemma_text_lt_common_prefix(p.drop_first(), u, v);
    } else {
        assert(p + u =~= u);
        assert(p + v =~= v);
    }
}

proof fn lemma_text_lt_extend(x: Seq<char>, y: Seq<char>, u: Seq<char>, v: Seq<char>)
    requires
        x.len() == y.len(),
        text_lt(x, y),
    ensures
        text_lt(x + u, y + v),
    decreases x.len(),
{
    assert((x + u)[0] == x[0]);
    assert((y + v)[0] == y[0]);
    if x[0] == y[0] {
        assert((x + u).drop_first() =~= x.drop_first() + u);
        assert((y + v).drop_first() =~= y.drop_first() + v);
        lemma_text_lt_extend(x.drop_first(), y.drop_first(), u, v);
    }
}

proof fn lemma_digits_injective(x: Seq<char>, y: Seq<char>)
    requires
        all_digits(x),
        all_digits(y),
        x.len() == y.len(),
        digits_value(x) == digits_value(y),
    ensures
        x == y,
    decreases x.len(),
{
    if x.len() > 0 {
        assert(is_digit(x[x.len() - 1]) && is_digit(y[y.len() - 1]));
        assert(all_digits(x.drop_last())) by {
            assert forall|i: int| 0 <= i < x.drop_last().len() implies #[trigger] is_digit(x.drop_last()[i]) by {
                assert(is_digit(x[i]));
            }
        }
        assert(all_digits(y.drop_last())) by {
            assert forall|i: int| 0 <= i < y.drop_last().len() implies #[trigger] is_digit(y.drop_last()[i]) by {
                assert(is_digit(y[i]));
            }
        }
        lemma_digits_injective(x.drop_last(), y.drop_last());
        assert(x =~= x.drop_last().push(x.last()));
        assert(y =~= y.drop_last().push(y.last()));
    } else {
        assert(x =~= y);
    }
}

proof fn lemma_digits_lt_text(x: Seq<char>, y: Seq<char>)
    requires
        all_digits(x),
        all_digits(y),
        x.len() == y.len(),
        digits_value(x) < digits_value(y),
    ensures
        text_lt(x, y),
    decreases x.len(),
{
    if x.len() > 0 {
        let xs = x.drop_last();
        let ys = y.drop_last();
        assert(is_digit(x[x.len() - 1]) && is_digit(y[y.len() - 1]));
        assert(all_digits(xs)) by {
            assert forall|i: int| 0 <= i < xs.len() implies #[trigger] is_digit(xs[i]) by {
                assert(is_digit(x[i]));
            }
        }
        assert(all_digits(ys)) by {
            assert forall|i: int| 0 <= i < ys.len() implies #[trigger] is_digit(ys[i]) by {
                assert(is_digit(y[i]));
            }
        }
        assert(x =~= xs + seq![x.last()]);
        assert(y =~= ys + seq![y.last()]);
        if digits_value(xs) < digits_value(ys) {
            lemma_digits_lt_text(xs, ys);
            lemma_text_lt_extend(xs, ys, seq![x.last()], seq![y.last()]);
        } else {
            lemma_digits_injective(xs, ys);
            lemma_text_lt_common_prefix(xs, seq![x.last()], seq![y.last()]);
            assert(seq![x.last()].drop_first() =~= Seq::<char>::empty());
        }
    }
}

/// Clock texts sort as their clocks: a text whose (physical, logical) pair
/// is smaller sorts before the other, so comparing the texts compares the
/// clocks (the device id only breaks ties between equal pairs).
pub proof fn law_hlc_text_order(a: Seq<char>, b: Seq<char>)
    requires
        hlc_well_formed(a),
        hlc_well_formed(b),
        hlc_physical(a) < hlc_physical(b) || (hlc_physical(a) == hlc_physical(b) && hlc_logical(a) < hlc_logical(b)),
    ensures
        text_lt(a, b),
{
    let pa = a.subrange(0, 13);
    let pb = b.subrange(0, 13);
    assert(a =~= pa + a.subrange(13, 56));
    assert(b =~= pb + b.subrange(13, 56));
    if hlc_physical(a) < hlc_physical(b) {
        lemma_digits_lt_text(pa, pb);
        lemma_text_lt_extend(pa, pb, a.subrange(13, 56), b.subrange(13, 56));
    } else {
        lemma_digits_injective(pa, pb);
        let la = a.subrange(14, 23);
        let lb = b.subrange(14, 23);
        lemma_digits_lt_text(la, lb);
        lemma_text_lt_extend(la, lb, a.subrange(23, 56), b.subrange(23, 56));
        let pre = a.subrange(0, 14);
        assert(pre =~= b.subrange(0, 14)) by {
            assert forall|i: int| 0 <= i < 14 implies pre[i] == b.subrange(0, 14)[i] by {
                if i < 13 {
                    assert(pa[i] == pb[i]);
                }
            }
        }
        assert(a =~= pre + (la + a.subrange(23, 56)));
        assert(b =~= pre + (lb + b.subrange(23, 56)));
        lemma_text_lt_common_prefix(pre, la + a.subrange(23, 56), lb + b.subrange(23, 56));
    }
}

/// The clock text kept after the plausibility check at time `now_ms`: a
/// well-formed clock no more than a day ahead of `now_ms`, or nothing.
pub open spec fn sanitize_hlc_spec(hlc: Option<Seq<char>>, now_ms: int) -> Option<Seq<char>> {
    match hlc {
        Some(s) => if hlc_well_formed(s) && hlc_physical(s) <= now_ms + MAX_CLOCK_SKEW_MS {
            Some(s)
        } else {
            None
        },
        None => None,
    }
}

/// Whether `s[start..end]` are all hex digits.
fn all_hex_in(s: &str, start: usize, end: usize) -> (r: bool)
    requires
        start <= end <= s@.len(),
    ensures
        r == forall|i: int| start <= i < end ==> #[trigger] is_hex_digit(s@[i]),
{
    let mut i = start;
    while i < end
        invariant
            start <= i <= end <= s@.len(),
            forall|k: int| start <= k < i ==> #[trigger] is_hex_digit(s@[k]),
        decreases end - i,
    {
        let c = s.get_char(i);
        if !(('0' <= c && c <= '9') || ('a' <= c && c <= 'f') || ('A' <= c && c <= 'F')) {
            assert(!is_hex_digit(s@[i as int]));
            return false;
        }
        i = i + 1;
    }
    true
}

/// Whether `s[start..end]` are all decimal digits.
fn all_digits_at(s: &str, start: usize, end: usize) -> (r: bool)
    requires
        start <= end <= s@.len(),
    ensures
        r == all_digits(s@.subrange(start as int, end as int)),
{
    let mut i = start;
    while i < end
        invariant
            start <= i <= end <= s@.len(),
            forall|k: int| start <= k < i ==> #[trigger] is_digit(s@[k]),
        decreases end - i,
    {
        let c = s.get_char(i);
        if !('0' <= c && c <= '9') {
            assert(!is_digit(s@.subrange(start as int, end as int)[i - start]));
            return false;
        }
        i = i + 1;
    }
    assert forall|k: int| 0 <= k < end - start implies #[trigger] is_digit(
        s@.subrange(start as int, end as int)[k],
    ) by {
        assert(is_digit(s@[start + k]));
    }
    true
}

/// Format and plausibility check of a clock text from an untrusted payload,
/// at time `now_ms`: a malformed clock, or one more than a day ahead of this
/// device, is treated as absent.
pub fn sanitize_hlc_at(hlc: Option<String>, now_ms: i64) -> (r: Option<String>)
    requires
        now_ms <= i64::MAX - MAX_CLOCK_SKEW_MS,
    ensures
        match r {
            Some(s) => sanitize_hlc_spec(
                match hlc {
                    Some(h) => Some(h@),
                    None => None,
                },
                now_ms as int,
            ) == Some(s@),
            None => sanitize_hlc_spec(
                match hlc {
                    Some(h) => Some(h@),
                    None => None,
                },
                now_ms as int,
            ) is None,
        },
{
    let h = match hlc {
        Some(h) => h,
        None => {
            return None;
        },
    };
    let s = h.as_str();
    if s.unicode_len() != 56 || s.get_char(13) != ':' || s.get_char(23) != ':' {
        return None;
    }
    if !all_digits_at(s, 0, 13) || !all_digits_at(s, 14, 23) || !all_hex_in(s, 24, 56) {
        return None;
    }
    assert(s@.subrange(0, 13) =~= s@.subrange(0, 13));
    let bound = now_ms + MAX_CLOCK_SKEW_MS;
    if bound < 0 {
        proof {
            crate::numeric::lemma_digits_value_nonneg(s@.subrange(0, 13));
        }
        return None;
    }
    match digits_in_range(s, 0, 13, bound as u64) {
        Some(_) => Some(h),
        None => None,
    }
}

/// Calls `chrono::Utc::now().timestamp_millis()`. Depends on the clock: only
/// that it is not before the Unix epoch (`Utc::now` panics on a system time
/// before it) and leaves room for the one-day skew allowance is stated
/// (every instant chrono represents is far from `i64::MAX` milliseconds).
#[verifier::external_body]
pub(crate) fn now_millis() -> (ms: i64)
    ensures
        0 <= ms <= i64::MAX - MAX_CLOCK_SKEW_MS,
{
    chrono::Utc::now().timestamp_millis()
}

/// `sanitize_hlc_at` at the current time: a kept clock is the well-formed
/// input itself; absent or malformed input is dropped whatever the time. The
/// time read is never before the Unix epoch, so a well-formed clock at most
/// one day past the epoch is kept whatever the time.
pub fn sanitize_hlc(hlc: Option<String>) -> (r: Option<String>)
    ensures
        exists|now_ms: int|
            0 <= now_ms <= i64::MAX - MAX_CLOCK_SKEW_MS && #[trigger] sanitize_hlc_spec(
                crate::models::opt_view(hlc),
                now_ms,
            ) == crate::models::opt_view(r),
        match hlc {
            Some(h) => hlc_well_formed(h@) && hlc_physical(h@) <= MAX_CLOCK_SKEW_MS ==> (r matches Some(s)
                && s@ == h@),
            None => true,
        },
        match r {
            Some(s) => hlc matches Some(h) && s@ == h@ && hlc_well_formed(h@),
            None => true,
        },
        match hlc {
            Some(h) => !hlc_well_formed(h@) ==> r is None,
            None => r is None,
        },
{
    let ghost hv = crate::models::opt_view(hlc);
    let now = now_millis();
    let r = sanitize_hlc_at(hlc, now);
    assert(sanitize_hlc_spec(hv, now as int) == crate::models::opt_view(r));
    r
}

// ── Local clock state ──────────────────────────────────────────────────

/// This device's clock state (`sync_hlc_state`): the last physical
/// milliseconds it stamped and the logical counter within that millisecond.
#[derive(Clone, Copy, Debug, PartialEq, Eq)]
pub struct HlcState {
    pub last_physical_ms: i64,
    pub last_logical: i64,
}

/// The receive rule: after observing a peer's clock `(phys, logical)`, this
/// device's state moves forward to at least it, never backward.
pub open spec fn hlc_receive_spec(st: HlcState, phys: i64, logical: i64) -> HlcState {
    HlcState {
        last_logical: if phys > st.last_physical_ms {
            logical
        } else if phys == st.last_physical_ms {
            if st.last_logical >= logical {
                st.last_logical
            } else {
                logical
            }
        } else {
            st.last_logical
        },
        last_physical_ms: if st.last_physical_ms >= phys {
            st.last_physical_ms
        } else {
            phys
        },
    }
}

/// Applies the receive rule to a clock state.
pub fn hlc_receive(st: HlcState, phys: i64, logical: i64) -> (r: HlcState)
    ensures
        r == hlc_receive_spec(st, phys, logical),
{
    let last_logical = if phys > st.last_physical_ms {
        logical
    } else if phys == st.last_physical_ms {
        if st.last_logical >= logical {
            st.last_logical
        } else {
            logical
        }
    } else {
        st.last_logical
    };
    let last_physical_ms = if st.last_physical_ms >= phys {
        st.last_physical_ms
    } else {
        phys
    };
    HlcState { last_physical_ms, last_logical }
}

/// After receiving, the state is at least the received clock and at least the
/// old state, in (physical, logical) order.
pub proof fn law_receive_moves_forward(st: HlcState, phys: i64, logical: i64)
    ensures
        ({
            let r = hlc_receive_spec(st, phys, logical);
            &&& r.last_physical_ms >= phys
            &&& r.last_physical_ms >= st.last_physical_ms
            &&& r.last_physical_ms == phys ==> r.last_logical >= logical
            &&& r.last_physical_ms == st.last_physical_ms ==> r.last_logical >= st.last_logical
        }),
{
}

/// The leading clock fields of a clock text, split as `splitn(3, ':')` does
/// and parsed as `i64`s; `None` when there is no second field or either field
/// does not parse.
pub open spec fn hlc_fields_spec(s: Seq<char>) -> Option<(int, int)> {
    let i = index_of(s, ':');
    if i < s.len() {
        let rest = s.subrange(i + 1, s.len() as int);
        let second = rest.subrange(0, index_of(rest, ':'));
        match (
            parse_int_spec(s.subrange(0, i), true, i64::MIN as int, i64::MAX as int),
            parse_int_spec(second, true, i64::MIN as int, i64::MAX as int),
        ) {
            (Some(p), Some(l)) => Some((p, l)),
            _ => None,
        }
    } else {
        None
    }
}


/// Reads the physical and logical fields of a clock text for the receive rule.
pub fn hlc_fields(s: &str) -> (r: Option<(i64, i64)>)
    ensures
        match r {
            Some((p, l)) => hlc_fields_spec(s@) == Some((p as int, l as int)),
            None => hlc_fields_spec(s@) is None,
        },
{
    let n = s.unicode_len();
    let first = find_char_from(s, ':', 0);
    assert(s@.subrange(0, n as int) =~= s@);
    if first == n {
        return None;
    }
    let second_end = find_char_from(s, ':', first + 1);
    let p_text = s.substring_char(0, first);
    let l_text = s.substring_char(first + 1, second_end);
    let ghost rest = s@.subrange(first + 1, n as int);
    assert(rest.subrange(0, index_of(rest, ':')) =~= l_text@);
    let p = parse_i64(p_text);
    let l = parse_i64(l_text);
    match (p, l) {
        (Some(p), Some(l)) => Some((p, l)),
        _ => None,
    }
}

/// Ten to the power `n`.
pub open spec fn pow10(n: nat) -> int
    decreases n,
{
    if n == 0 {
        1
    } else {
        10 * pow10((n - 1) as nat)
    }
}

proof fn lemma_digits_value_below(s: Seq<char>)
    requires
        all_digits(s),
    ensures
        0 <= digits_value(s) < pow10(s.len()),
    decreases s.len(),
{
    if s.len() > 0 {
        assert(is_digit(s[s.len() - 1]));
        assert(all_digits(s.drop_last())) by {
            assert forall|i: int| 0 <= i < s.drop_last().len() implies #[trigger] is_digit(s.drop_last()[i]) by {
                assert(is_digit(s[i]));
            }
        }
        lemma_digits_value_below(s.drop_last());
    }
}

proof fn lemma_digit_field(s: Seq<char>, start: int, end: int)
    requires
        0 <= start < end <= s.len(),
        end - start <= 13,
        all_digits(s.subrange(start, end)),
    ensures
        parse_int_spec(s.subrange(start, end), true, i64::MIN as int, i64::MAX as int) == Some(
            digits_value(s.subrange(start, end)),
        ),
{
    let d = s.subrange(start, end);
    assert(is_digit(d[0]));
    lemma_digits_value_below(d);
    reveal_with_fuel(pow10, 14);
    if d.len() < 13 {
        lemma_pow10_monotone(d.len(), 13);
    }
}

proof fn lemma_pow10_monotone(a: nat, b: nat)
    requires
        a <= b,
    ensures
        pow10(a) <= pow10(b),
    decreases b,
{
    if a < b {
        lemma_pow10_monotone(a, (b - 1) as nat);
        lemma_pow10_positive((b - 1) as nat);
    }
}

proof fn lemma_pow10_positive(n: nat)
    ensures
        pow10(n) >= 1,
    decreases n,
{
    if n > 0 {
        lemma_pow10_positive((n - 1) as nat);
    }
}

/// A clock that passed the plausibility check is read as its own physical
/// and logical fields, at most a day ahead of now; receiving it moves this
/// device's clock no further than that. A forged far-future clock can
/// neither win on its physical time nor drag the local clock along.
pub proof fn law_sanitized_clock_cannot_poison(st: HlcState, hlc: Option<Seq<char>>, now_ms: int, s: Seq<char>)
    requires
        sanitize_hlc_spec(hlc, now_ms) == Some(s),
    ensures
        hlc_fields_spec(s) == Some((hlc_physical(s), hlc_logical(s))),
        hlc_physical(s) <= now_ms + MAX_CLOCK_SKEW_MS,
        hlc_receive_spec(st, hlc_physical(s) as i64, hlc_logical(s) as i64).last_physical_ms <= (
        if st.last_physical_ms >= now_ms + MAX_CLOCK_SKEW_MS {
            st.last_physical_ms as int
        } else {
            now_ms + MAX_CLOCK_SKEW_MS
        }),
{
    assert forall|k: int| 0 <= k < 13 implies s[k] != ':' by {
        assert(is_digit(s.subrange(0, 13)[k]));
    }
    lemma_index_of(s, ':', 13);
    let rest = s.subrange(14, s.len() as int);
    assert forall|k: int| 0 <= k < 9 implies rest[k] != ':' by {
        assert(is_digit(s.subrange(14, 23)[k]));
    }
    assert(rest[9] == s[23]);
    lemma_index_of(rest, ':', 9);
    assert(rest.subrange(0, 9) =~= s.subrange(14, 23));
    lemma_digit_field(s, 0, 13);
    lemma_digit_field(s, 14, 23);
    lemma_digits_value_below(s.subrange(0, 13));
    lemma_digits_value_below(s.subrange(14, 23));
    reveal_with_fuel(pow10, 14);
}

} // verus!
