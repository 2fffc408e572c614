//! The decisions of the background reminder check: which bills, maturities
//! and nudges are due for a notification, the keys under which a sent
//! notification is remembered so it is not sent twice, and the bounded list
//! of those keys. Showing the notifications and storing the list are the
//! application's.

use vstd::prelude::*;
use vstd::string::*;
use crate::numeric::{int_text, push_int, push_zero_padded, zero_padded};
use crate::text::str_eq;

verus! {

/// Most remembered notification keys; the oldest are forgotten first.
pub const DEDUP_CAP: usize = 500;

/// Days ahead a bill is notified.
pub const BILL_LOOKAHEAD_DAYS: i64 = 1;

/// Days ahead a maturity is notified.
pub const MATURITY_LOOKAHEAD_DAYS: i64 = 7;

/// Most nudges notified per check; the in-app feed carries the rest.
pub const NUDGE_PUSH_CAP: usize = 2;

/// The key of a bill, loan or card reminder.
pub open spec fn reminder_key_spec(source: Seq<char>, id: int, due: Seq<char>) -> Seq<char> {
    "reminder:"@ + source + ":"@ + int_text(id) + ":"@ + due
}

/// The key of a maturity reminder.
pub open spec fn maturity_key_spec(source: Seq<char>, id: int, date: Seq<char>) -> Seq<char> {
    "maturity:"@ + source + ":"@ + int_text(id) + ":"@ + date
}

/// The key of a nudge in an ISO week (`{year}W{week:02}`): an unresolved
/// problem is notified again the next week.
pub open spec fn nudge_key_spec(id: Seq<char>, iso_year: int, week: nat) -> Seq<char> {
    "nudge:"@ + id + ":"@ + int_text(iso_year) + "W"@ + zero_padded(week, 2)
}

/// The key of a bill, loan or card reminder.
pub fn reminder_key(source: &str, id: i64, due: &str) -> (k: String)
    ensures
        k@ == reminder_key_spec(source@, id as int, due@),
{
    let mut k = String::from_str("reminder:");
    k.append(source);
    k.append(":");
    push_int(&mut k, id);
    k.append(":");
    k.append(due);
    k
}

/// The key of a maturity reminder.
pub fn maturity_key(source: &str, id: i64, date: &str) -> (k: String)
    ensures
        k@ == maturity_key_spec(source@, id as int, date@),
{
    let mut k = String::from_str("maturity:");
    k.append(source);
    k.append(":");
    push_int(&mut k, id);
    k.append(":");
    k.append(date);
    k
}

/// The key of a nudge in an ISO week.
pub fn nudge_key(id: &str, iso_year: i32, week: u32) -> (k: String)
    ensures
        k@ == nudge_key_spec(id@, iso_year as int, week as nat),
{
    let mut k = String::from_str("nudge:");
    k.append(id);
    k.append(":");
    push_int(&mut k, iso_year as i64);
    k.append("W");
    push_zero_padded(&mut k, week as u64, 2);
    k
}

/// Whether a reminder `days` away is within `lookahead` days (past ones
/// included).
pub fn within_lookahead(days: i64, lookahead: i64) -> (r: bool)
    ensures
        r == (days <= lookahead),
{
    days <= lookahead
}

/// Plain-value view of a list of texts.
pub open spec fn texts_view(v: Seq<String>) -> Seq<Seq<char>> {
    v.map_values(|s: String| s@)
}

/// Whether a key was already notified.
pub fn already_notified(notified: &Vec<String>, key: &str) -> (r: bool)
    ensures
        r == texts_view(notified@).contains(key@),
{
    let ghost v = texts_view(notified@);
    let n = notified.len();
    let mut i: usize = 0;
    while i < n
        invariant
            n == notified@.len(),
            v == texts_view(notified@),
            i <= n,
            forall|j: int| 0 <= j < i ==> v[j] != key@,
        decreases n - i,
    {
        if str_eq(notified[i].as_str(), key) {
            assert(v[i as int] == key@);
            return true;
        }
        i = i + 1;
    }
    false
}

/// Whether a nudge of this severity is urgent enough to notify.
pub open spec fn urgent(severity: Seq<char>) -> bool {
    severity == "critical"@ || severity == "warning"@
}

/// The positions, from `start` on, of the nudges to notify: urgent ones
/// whose key was not notified yet, in order, until `room` are chosen.
pub open spec fn nudges_to_push_from(
    severities: Seq<Seq<char>>,
    keys: Seq<Seq<char>>,
    notified: Seq<Seq<char>>,
    start: int,
    room: int,
) -> Seq<int>
    decreases severities.len() - start,
{
    if room <= 0 || start >= severities.len() || start < 0 {
        Seq::empty()
    } else if urgent(severities[start]) && !notified.contains(keys[start]) {
        seq![start] + nudges_to_push_from(severities, keys, notified, start + 1, room - 1)
    } else {
        nudges_to_push_from(severities, keys, notified, start + 1, room)
    }
}

/// The positions of the nudges to notify in this check: in feed order, the
/// first `NUDGE_PUSH_CAP` urgent ones not notified yet this week (`keys`
/// are their week keys).
pub fn nudges_to_push(severities: &Vec<String>, keys: &Vec<String>, notified: &Vec<String>) -> (r: Vec<usize>)
    requires
        keys@.len() == severities@.len(),
    ensures
        r@.map_values(|i: usize| i as int) == nudges_to_push_from(
            texts_view(severities@),
            texts_view(keys@),
            texts_view(notified@),
            0,
            NUDGE_PUSH_CAP as int,
        ),
{
    let ghost sv = texts_view(severities@);
    let ghost kv = texts_view(keys@);
    let ghost nv = texts_view(notified@);
    let n = severities.len();
    let mut out: Vec<usize> = Vec::new();
    let mut i: usize = 0;
    while i < n && out.len() < NUDGE_PUSH_CAP
        invariant
            n == severities@.len(),
            keys@.len() == n,
            sv == texts_view(severities@),
            kv == texts_view(keys@),
            nv == texts_view(notified@),
            i <= n,
            out@.len() <= NUDGE_PUSH_CAP,
            nudges_to_push_from(sv, kv, nv, 0, NUDGE_PUSH_CAP as int) == out@.map_values(|j: usize| j as int)
                + nudges_to_push_from(sv, kv, nv, i as int, NUDGE_PUSH_CAP - out@.len()),
        decreases n - i,
    {
        let s = severities[i].as_str();
        let is_urgent = str_eq(s, "critical") || str_eq(s, "warning");
        if is_urgent && !already_notified(notified, keys[i].as_str()) {
            let ghost before = out@;
            out.push(i);
            assert(out@.map_values(|j: usize| j as int) =~= before.map_values(|j: usize| j as int).push(i as int));
            assert(seq![i as int] + nudges_to_push_from(sv, kv, nv, i + 1, NUDGE_PUSH_CAP - out@.len())
                =~= nudges_to_push_from(sv, kv, nv, i as int, NUDGE_PUSH_CAP - before.len()));
            assert(before.map_values(|j: usize| j as int).push(i as int) + nudges_to_push_from(
                sv,
                kv,
                nv,
                i + 1,
                NUDGE_PUSH_CAP - out@.len(),
            ) =~= before.map_values(|j: usize| j as int) + (seq![i as int] + nudges_to_push_from(
                sv,
                kv,
                nv,
                i + 1,
                NUDGE_PUSH_CAP - out@.len(),
            )));
        }
        i = i + 1;
    }
    assert(nudges_to_push_from(sv, kv, nv, i as int, NUDGE_PUSH_CAP - out@.len()) =~= Seq::<int>::empty());
    assert(out@.map_values(|j: usize| j as int) + Seq::<int>::empty() =~= out@.map_values(|j: usize| j as int));
    out
}

/// Whether the nudge at `i` may be notified: its severity is "critical" or
/// "warning" and its week key was not notified yet.
pub open spec fn pushable(severities: Seq<Seq<char>>, keys: Seq<Seq<char>>, notified: Seq<Seq<char>>, i: int) -> bool {
    (severities[i] == "critical"@ || severities[i] == "warning"@) && !notified.contains(keys[i])
}

/// What is chosen from `start` on, with room for `room` more.
proof fn lemma_push_from(
    sv: Seq<Seq<char>>,
    kv: Seq<Seq<char>>,
    nv: Seq<Seq<char>>,
    start: int,
    room: int,
)
    requires
        0 <= start <= sv.len(),
        kv.len() == sv.len(),
        room >= 0,
    ensures
        nudges_to_push_from(sv, kv, nv, start, room).len() <= room,
        forall|j: int|
            0 <= j < nudges_to_push_from(sv, kv, nv, start, room).len() ==> start <= #[trigger] nudges_to_push_from(
                sv,
                kv,
                nv,
                start,
                room,
            )[j] < sv.len() && pushable(sv, kv, nv, nudges_to_push_from(sv, kv, nv, start, room)[j]),
        forall|a: int, b: int|
            0 <= a < b < nudges_to_push_from(sv, kv, nv, start, room).len() ==> #[trigger] nudges_to_push_from(
                sv,
                kv,
                nv,
                start,
                room,
            )[a] < #[trigger] nudges_to_push_from(sv, kv, nv, start, room)[b],
        forall|i: int|
            start <= i < sv.len() && pushable(sv, kv, nv, i) && nudges_to_push_from(sv, kv, nv, start, room).len()
                < room ==> #[trigger] nudges_to_push_from(sv, kv, nv, start, room).contains(i),
        forall|i: int, j: int|
            start <= i < sv.len() && #[trigger] pushable(sv, kv, nv, i) && 0 <= j < nudges_to_push_from(
                sv,
                kv,
                nv,
                start,
                room,
            ).len() && i < #[trigger] nudges_to_push_from(sv, kv, nv, start, room)[j] ==> nudges_to_push_from(
                sv,
                kv,
                nv,
                start,
                room,
            ).contains(i),
    decreases sv.len() - start,
{
    let r = nudges_to_push_from(sv, kv, nv, start, room);
    if room <= 0 || start >= sv.len() {
    } else {
        lemma_push_from(sv, kv, nv, start + 1, room - 1);
        lemma_push_from(sv, kv, nv, start + 1, room);
        if urgent(sv[start]) && !nv.contains(kv[start]) {
            let rest = nudges_to_push_from(sv, kv, nv, start + 1, room - 1);
            assert(r == seq![start] + rest);
            assert forall|i: int|
                start <= i < sv.len() && pushable(sv, kv, nv, i) && r.len() < room implies #[trigger] r.contains(i) by {
                if i == start {
                    assert(r[0] == i);
                } else {
                    assert(rest.contains(i));
                    let x = choose|x: int| 0 <= x < rest.len() && rest[x] == i;
                    assert(r[x + 1] == i);
                }
            }
            assert forall|i: int, j: int|
                start <= i < sv.len() && #[trigger] pushable(sv, kv, nv, i) && 0 <= j < r.len() && i < #[trigger] r[j] implies r.contains(
                i,
            ) by {
                if i == start {
                    assert(r[0] == i);
                } else {
                    assert(j > 0 && rest[j - 1] == r[j]);
                    assert(rest.contains(i));
                    let x = choose|x: int| 0 <= x < rest.len() && rest[x] == i;
                    assert(r[x + 1] == i);
                }
            }
            assert forall|j: int| 0 <= j < r.len() implies start <= #[trigger] r[j] < sv.len() && pushable(
                sv,
                kv,
                nv,
                r[j],
            ) by {
                if j > 0 {
                    assert(r[j] == rest[j - 1]);
                }
            }
            assert forall|a: int, b: int| 0 <= a < b < r.len() implies #[trigger] r[a] < #[trigger] r[b] by {
                assert(r[b] == rest[b - 1]);
                if a > 0 {
                    assert(r[a] == rest[a - 1]);
                }
            }
        } else {
            assert forall|i: int|
                start <= i < sv.len() && pushable(sv, kv, nv, i) && r.len() < room implies #[trigger] r.contains(i) by {
                assert(i != start);
            }
            assert forall|i: int, j: int|
                start <= i < sv.len() && #[trigger] pushable(sv, kv, nv, i) && 0 <= j < r.len() && i < #[trigger] r[j] implies r.contains(
                i,
            ) by {
                assert(i != start);
            }
        }
    }
}

/// The nudges a check notifies are, in feed order, exactly the ones of
/// severity "critical" or "warning" whose week key was not notified yet, up
/// to `NUDGE_PUSH_CAP` of them: each chosen one is such a nudge, and such a
/// nudge is left out only when the cap was reached by earlier ones.
pub proof fn law_urgent_nudges_are_pushed(sv: Seq<Seq<char>>, kv: Seq<Seq<char>>, nv: Seq<Seq<char>>)
    requires
        kv.len() == sv.len(),
    ensures
        ({
            let r = nudges_to_push_from(sv, kv, nv, 0, NUDGE_PUSH_CAP as int);
            &&& r.len() <= NUDGE_PUSH_CAP
            &&& forall|j: int| 0 <= j < r.len() ==> 0 <= #[trigger] r[j] < sv.len() && pushable(sv, kv, nv, r[j])
            &&& forall|a: int, b: int| 0 <= a < b < r.len() ==> #[trigger] r[a] < #[trigger] r[b]
            &&& forall|i: int|
                0 <= i < sv.len() && pushable(sv, kv, nv, i) && !r.contains(i) ==> r.len() == NUDGE_PUSH_CAP
                    && forall|j: int| 0 <= j < r.len() ==> #[trigger] r[j] < i
        }),
{
    lemma_push_from(sv, kv, nv, 0, NUDGE_PUSH_CAP as int);
    let r = nudges_to_push_from(sv, kv, nv, 0, NUDGE_PUSH_CAP as int);
    assert forall|i: int| 0 <= i < sv.len() && pushable(sv, kv, nv, i) && !r.contains(i) implies r.len()
        == NUDGE_PUSH_CAP && forall|j: int| 0 <= j < r.len() ==> #[trigger] r[j] < i by {
        assert forall|j: int| 0 <= j < r.len() implies #[trigger] r[j] < i by {
            if !(r[j] < i) {
                assert(r[j] != i);
            }
        }
    }
}

/// The remembered keys after a check: unchanged when nothing new was sent;
/// otherwise the new keys appended and only the newest `DEDUP_CAP` kept.
pub open spec fn remember_spec(notified: Seq<Seq<char>>, newly: Seq<Seq<char>>) -> Seq<Seq<char>> {
    if newly.len() == 0 {
        notified
    } else {
        let all = notified + newly;
        if all.len() > DEDUP_CAP {
            all.skip(all.len() - DEDUP_CAP)
        } else {
            all
        }
    }
}

/// The remembered keys after a check (see `remember_spec`).
pub fn remember(notified: Vec<String>, newly: Vec<String>) -> (r: Vec<String>)
    requires
        notified@.len() + newly@.len() <= usize::MAX,
    ensures
        texts_view(r@) == remember_spec(texts_view(notified@), texts_view(newly@)),
{
    if newly.len() == 0 {
        return notified;
    }
    let ghost all = texts_view(notified@) + texts_view(newly@);
    let mut v = notified;
    let mut newly = newly;
    let ghost nv = texts_view(newly@);
    let ghost v0 = texts_view(v@);
    v.append(&mut newly);
    assert(texts_view(v@) =~= all);
    let total = v.len();
    if total > DEDUP_CAP {
        let excess = total - DEDUP_CAP;
        let mut kept: Vec<String> = Vec::new();
        let mut i: usize = excess;
        while i < total
            invariant
                total == v@.len(),
                texts_view(v@) == all,
                excess <= i <= total,
                texts_view(kept@) == all.subrange(excess as int, i as int),
            decreases total - i,
        {
            let ghost before = kept@;
            let c = v[i].clone();
            assert(c@ == v@[i as int]@);
            assert(texts_view(v@)[i as int] == v@[i as int]@);
            kept.push(c);
            assert(texts_view(kept@) =~= texts_view(before).push(all[i as int]));
            assert(texts_view(kept@) =~= all.subrange(excess as int, i + 1));
            i = i + 1;
        }
        assert(all.skip(all.len() - DEDUP_CAP) =~= all.subrange(excess as int, total as int));
        kept
    } else {
        v
    }
}

/// The key of a nudge in the current ISO week.
pub fn nudge_key_this_week(id: &str) -> (k: String)
    ensures
        exists|y: int, w: nat| 1 <= w <= 53 && k@ == nudge_key_spec(id@, y, w),
{
    let (y, w) = crate::calendar::current_iso_week();
    let k = nudge_key(id, y, w);
    assert(1 <= (w as nat) <= 53 && k@ == nudge_key_spec(id@, y as int, w as nat));
    k
}

/// After a check that sent something, the remembered keys are the newest
/// ones, never more than `DEDUP_CAP`, and every key just sent is among them
/// when fewer than `DEDUP_CAP` were sent.
pub proof fn law_remember_keeps_newest(notified: Seq<Seq<char>>, newly: Seq<Seq<char>>)
    requires
        newly.len() > 0,
    ensures
        ({
            let r = remember_spec(notified, newly);
            let all = notified + newly;
            &&& r.len() <= DEDUP_CAP
            &&& r.len() == (if all.len() > DEDUP_CAP {
                DEDUP_CAP as int
            } else {
                all.len() as int
            })
            &&& r =~= all.subrange(all.len() - r.len(), all.len() as int)
            &&& newly.len() <= DEDUP_CAP ==> forall|k: int| 0 <= k < newly.len() ==> r.contains(#[trigger] newly[k])
        }),
{
    let r = remember_spec(notified, newly);
    let all = notified + newly;
    if newly.len() <= DEDUP_CAP {
        assert forall|k: int| 0 <= k < newly.len() implies r.contains(#[trigger] newly[k]) by {
            let pos = notified.len() + k - (all.len() - r.len());
            assert(r[pos] == all[notified.len() + k]);
        }
    }
}

} // verus!
