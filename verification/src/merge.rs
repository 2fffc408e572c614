//! The per-row decisions of a backup-payload merge (format v2 and later):
//! which local rows an incoming tombstone deletes, whether an incoming row
//! updates, inserts or is dropped, how its foreign keys are rewritten into
//! this device's ids, and which settings travel between devices.
//!
//! The caller reads the local state the decisions need, and performs what
//! they decide, in one database transaction.

use vstd::prelude::*;
use vstd::string::*;
use chrono::{Datelike, Timelike};
use crate::clocks::{a_wins, a_wins_spec, opt_view, sanitize_hlc_at, sanitize_hlc_spec, text_less, text_lt};
use crate::rows::{
    cell_as_int, cell_as_text, lemma_row_set_get, map_get, row_get, row_set, Cell, CellView, IdMaps, IdMapsView, Row,
    RowView,
};
use crate::sync_tables::{
    class_table, fk_columns, fk_columns_spec, holding_table_for_asset_class, holding_table_spec,
    law_holding_table_is_the_class_table,
};
use crate::text::str_eq;
use crate::calendar::{next_date, next_day, Date};

verus! {

// ── Legacy wall-clock timestamps ───────────────────────────────────────

/// A date and time of day as chrono's `NaiveDateTime` holds it (a leap
/// second shows as second 59 with a nanosecond of at least 10^9).
#[derive(Clone, Copy, Debug)]
pub struct DateTimeParts {
    pub year: i32,
    pub month: u32,
    pub day: u32,
    pub hour: u32,
    pub minute: u32,
    pub second: u32,
    pub nanosecond: u32,
}

/// Chronological order of two date-times (field by field, as chrono orders them).
pub open spec fn datetime_after(a: DateTimeParts, b: DateTimeParts) -> bool {
    if a.year != b.year {
        a.year > b.year
    } else if a.month != b.month {
        a.month > b.month
    } else if a.day != b.day {
        a.day > b.day
    } else if a.hour != b.hour {
        a.hour > b.hour
    } else if a.minute != b.minute {
        a.minute > b.minute
    } else if a.second != b.second {
        a.second > b.second
    } else {
        a.nanosecond > b.nanosecond
    }
}

/// Whether `a` is strictly later than `b`.
pub fn is_after(a: DateTimeParts, b: DateTimeParts) -> (r: bool)
    ensures
        r == datetime_after(a, b),
{
    if a.year != b.year {
        a.year > b.year
    } else if a.month != b.month {
        a.month > b.month
    } else if a.day != b.day {
        a.day > b.day
    } else if a.hour != b.hour {
        a.hour > b.hour
    } else if a.minute != b.minute {
        a.minute > b.minute
    } else if a.second != b.second {
        a.second > b.second
    } else {
        a.nanosecond > b.nanosecond
    }
}

/// What `chrono::NaiveDateTime::parse_from_str(text, "%Y-%m-%d %H:%M:%S")`
/// gives for a text, as date-time parts.
pub uninterp spec fn parse_legacy_timestamp_spec(text: Seq<char>) -> Option<DateTimeParts>;

/// Calls `chrono::NaiveDateTime::parse_from_str` with the legacy
/// `"%Y-%m-%d %H:%M:%S"` format and reads the parsed value's fields.
#[verifier::external_body]
pub(crate) fn parse_legacy_timestamp(text: &str) -> (r: Option<DateTimeParts>)
    ensures
        r == parse_legacy_timestamp_spec(text@),
{
    match chrono::NaiveDateTime::parse_from_str(text, "%Y-%m-%d %H:%M:%S") {
        Ok(t) => Some(DateTimeParts {
            year: t.year(),
            month: t.month(),
            day: t.day(),
            hour: t.hour(),
            minute: t.minute(),
            second: t.second(),
            nanosecond: t.nanosecond(),
        }),
        Err(_) => None,
    }
}

/// The Unix epoch: 1970-01-01 00:00:00.
pub open spec fn unix_epoch() -> DateTimeParts {
    DateTimeParts { year: 1970, month: 1, day: 1, hour: 0, minute: 0, second: 0, nanosecond: 0 }
}

/// One day after the Unix epoch: 1970-01-02 00:00:00.
pub open spec fn epoch_plus_skew() -> DateTimeParts {
    DateTimeParts { year: 1970, month: 1, day: 2, hour: 0, minute: 0, second: 0, nanosecond: 0 }
}

/// The date part of date-time parts.
pub open spec fn date_of(t: DateTimeParts) -> Date {
    Date { year: t.year, month: t.month, day: t.day }
}

/// Whether date-time parts are a time of day, outside a leap second, on a
/// date that chrono represents.
pub open spec fn plain_datetime(t: DateTimeParts) -> bool {
    &&& date_of(t).wf()
    &&& t.hour < 24
    &&& t.minute < 60
    &&& t.second < 60
    &&& t.nanosecond < 1_000_000_000
}

/// The same time of day on the next calendar day: `t` plus
/// `MAX_CLOCK_SKEW_MS`, which is exactly one day.
pub open spec fn one_day_later(t: DateTimeParts) -> DateTimeParts {
    let d = next_day(date_of(t));
    DateTimeParts { year: d.year, month: d.month, day: d.day, ..t }
}

/// Neither of two date-times being later than the next, the first is not
/// later than the last.
proof fn lemma_not_after_transitive(a: DateTimeParts, b: DateTimeParts, c: DateTimeParts)
    requires
        !datetime_after(a, b),
        !datetime_after(b, c),
    ensures
        !datetime_after(a, c),
{
}

/// A day after an instant no earlier than the epoch is no earlier than a day
/// after the epoch.
proof fn lemma_limit_after_epoch(now: DateTimeParts)
    requires
        plain_datetime(now),
        !datetime_after(unix_epoch(), now),
    ensures
        !datetime_after(epoch_plus_skew(), one_day_later(now)),
{
    crate::calendar::lemma_next_day_later(date_of(now));
}

/// Calls `chrono::Utc::now().naive_utc()` and reads the fields: the current
/// UTC date and time. Depends on the clock; only what holds of every reading
/// is stated: it is a plain date-time that chrono represents (`Utc::now`
/// builds it with `DateTime::from_timestamp` from whole seconds and
/// `subsec_nanos`, so no leap second) and not before the Unix epoch
/// (`Utc::now` panics on a system time before it).
#[verifier::external_body]
pub(crate) fn utc_now() -> (t: DateTimeParts)
    ensures
        plain_datetime(t),
        !datetime_after(unix_epoch(), t),
{
    let t = chrono::Utc::now().naive_utc();
    DateTimeParts {
        year: t.year(),
        month: t.month(),
        day: t.day(),
        hour: t.hour(),
        minute: t.minute(),
        second: t.second(),
        nanosecond: t.nanosecond(),
    }
}

/// The latest legacy timestamp accepted from a peer at time `now`: `now`
/// plus the skew allowance `MAX_CLOCK_SKEW_MS`, one day, so the same time of
/// day on the next calendar day.
pub fn legacy_timestamp_limit(now: DateTimeParts) -> (limit: DateTimeParts)
    requires
        plain_datetime(now),
    ensures
        limit == one_day_later(now),
{
    assert(crate::clocks::MAX_CLOCK_SKEW_MS == 24 * 60 * 60 * 1000);
    let d = next_date(Date { year: now.year, month: now.month, day: now.day });
    DateTimeParts { year: d.year, month: d.month, day: d.day, ..now }
}

/// The legacy timestamp kept from an untrusted payload, given the latest
/// acceptable instant: unparseable or later timestamps become the empty text
/// (which never wins a comparison against a real timestamp).
pub open spec fn sanitize_legacy_ts_spec(ts: Seq<char>, limit: DateTimeParts) -> Seq<char> {
    match parse_legacy_timestamp_spec(ts) {
        Some(p) => if datetime_after(p, limit) {
            Seq::empty()
        } else {
            ts
        },
        None => Seq::empty(),
    }
}

/// Keeps a legacy timestamp from an untrusted payload only when it parses and
/// is no later than `limit`.
pub fn sanitize_legacy_ts_at(ts: String, limit: DateTimeParts) -> (r: String)
    ensures
        r@ == sanitize_legacy_ts_spec(ts@, limit),
{
    match parse_legacy_timestamp(ts.as_str()) {
        Some(p) => if is_after(p, limit) {
            String::new()
        } else {
            ts
        },
        None => String::new(),
    }
}

/// `sanitize_legacy_ts_at` at the current time plus one day of skew. The
/// time read is never before the Unix epoch, so a timestamp that parses and
/// is no later than one day past the epoch is kept whatever the time.
pub fn sanitize_legacy_ts(ts: String) -> (r: String)
    ensures
        exists|now: DateTimeParts|
            plain_datetime(now) && !datetime_after(unix_epoch(), now) && r@ == #[trigger] sanitize_legacy_ts_spec(
                ts@,
                one_day_later(now),
            ),
        r@ == ts@ || r@.len() == 0,
        parse_legacy_timestamp_spec(ts@) is None ==> r@.len() == 0,
        parse_legacy_timestamp_spec(ts@) matches Some(p) && !datetime_after(p, epoch_plus_skew()) ==> r@
            == ts@,
{
    let ghost tv = ts@;
    let now = utc_now();
    let limit = legacy_timestamp_limit(now);
    let r = sanitize_legacy_ts_at(ts, limit);
    proof {
        lemma_limit_after_epoch(now);
        if let Some(p) = parse_legacy_timestamp_spec(tv) {
            if !datetime_after(p, epoch_plus_skew()) {
                lemma_not_after_transitive(p, epoch_plus_skew(), limit);
            }
        }
        assert(r@ == sanitize_legacy_ts_spec(tv, one_day_later(now)));
    }
    r
}

// ── Tombstones ─────────────────────────────────────────────────────────

/// The merge clocks of a local row or tombstone: a legacy timestamp and an
/// optional hybrid logical clock.
pub struct Clock {
    pub ts: String,
    pub hlc: Option<String>,
}

/// Plain-value view of a clock.
pub open spec fn clock_view(c: Clock) -> (Seq<char>, Option<Seq<char>>) {
    (
        c.ts@,
        match c.hlc {
            Some(h) => Some(h@),
            None => None,
        },
    )
}

/// What the merge does with one incoming tombstone.
pub struct TombstoneDecision {
    /// Delete the local row with this id.
    pub delete_local: Option<i64>,
    /// Record the incoming tombstone (insert, or overwrite the local one).
    pub record: bool,
}

/// The borrowed form of an optional clock text.
pub fn opt_str(o: &Option<String>) -> (r: Option<&str>)
    ensures
        opt_view(r) == match o {
            Some(h) => Some(h@),
            None => None::<Seq<char>>,
        },
{
    match o {
        Some(h) => Some(h.as_str()),
        None => None,
    }
}

/// Decides an incoming tombstone, whose clocks are already sanitized, against
/// the live local row with the same sync id (`local`: its id and clocks) and
/// the local tombstone for the same row, if any. A delete at least as recent
/// as the local row deletes it; the incoming tombstone is recorded unless a
/// strictly newer local tombstone exists.
pub fn decide_tombstone(t: &Clock, local: &Option<(i64, Clock)>, existing: &Option<Clock>) -> (d: TombstoneDecision)
    ensures
        d.delete_local == match *local {
            Some((id, c)) => if a_wins_spec(
                clock_view(*t).1,
                clock_view(*t).0,
                clock_view(c).1,
                clock_view(c).0,
                true,
            ) {
                Some(id)
            } else {
                None
            },
            None => None::<i64>,
        },
        d.record == match *existing {
            Some(e) => a_wins_spec(clock_view(*t).1, clock_view(*t).0, clock_view(e).1, clock_view(e).0, true),
            None => true,
        },
{
    let delete_local = match local {
        Some((id, c)) => if a_wins(opt_str(&t.hlc), t.ts.as_str(), opt_str(&c.hlc), c.ts.as_str(), true) {
            Some(*id)
        } else {
            None
        },
        None => None,
    };
    let record = match existing {
        Some(e) => a_wins(opt_str(&t.hlc), t.ts.as_str(), opt_str(&e.hlc), e.ts.as_str(), true),
        None => true,
    };
    TombstoneDecision { delete_local, record }
}

// ── Foreign-key rewriting ──────────────────────────────────────────────

/// Rewrites the listed foreign-key columns of `row` into this device's ids:
/// a column holding an integer whose parent was merged gets the local id; a
/// required one whose parent is missing drops the row (`None`); an optional
/// one is set to null. Columns without an integer are left alone.
pub open spec fn remap_fk_list(fks: Seq<(Seq<char>, Seq<char>, bool)>, row: RowView, maps: IdMapsView) -> Option<RowView>
    decreases fks.len(),
{
    if fks.len() == 0 {
        Some(row)
    } else {
        let (col, rt, required) = fks[0];
        match (match row_get(row, col) {
            Some(c) => cell_as_int(c),
            None => None,
        }) {
            None => remap_fk_list(fks.drop_first(), row, maps),
            Some(remote) => match map_get(maps, rt, remote) {
                Some(local) => remap_fk_list(fks.drop_first(), row_set(row, col, CellView::Int(local)), maps),
                None => if required {
                    None
                } else {
                    remap_fk_list(fks.drop_first(), row_set(row, col, CellView::Null), maps)
                },
            },
        }
    }
}

/// Rewrites `transactions.holding_id` by the row's asset class: the local id
/// when the holding was merged, null otherwise (also when the asset class
/// names no holding table).
pub open spec fn remap_holding(row: RowView, maps: IdMapsView) -> RowView {
    match (match row_get(row, "holding_id"@) {
        Some(c) => cell_as_int(c),
        None => None,
    }) {
        None => row,
        Some(remote) => {
            let asset_class = match row_get(row, "asset_class"@) {
                Some(c) => match cell_as_text(c) {
                    Some(t) => t,
                    None => Seq::empty(),
                },
                None => Seq::empty(),
            };
            let mapped = match holding_table_spec(asset_class) {
                Some(t) => map_get(maps, t, remote),
                None => None,
            };
            row_set(
                row,
                "holding_id"@,
                match mapped {
                    Some(l) => CellView::Int(l),
                    None => CellView::Null,
                },
            )
        },
    }
}

/// An incoming row of `table` with its foreign keys in this device's ids, or
/// `None` when a required parent is missing here.
pub open spec fn remap_row_spec(table: Seq<char>, row: RowView, maps: IdMapsView) -> Option<RowView> {
    match remap_fk_list(fk_columns_spec(table), row, maps) {
        Some(r) => if table == "transactions"@ {
            Some(remap_holding(r, maps))
        } else {
            Some(r)
        },
        None => None,
    }
}

/// The integer in column `key` of `row`, if it holds one.
pub fn int_column(row: &Row, key: &str) -> (r: Option<i64>)
    ensures
        match r {
            Some(i) => (match row_get(row@, key@) {
                Some(c) => cell_as_int(c),
                None => None,
            }) == Some(i as int),
            None => (match row_get(row@, key@) {
                Some(c) => cell_as_int(c),
                None => None,
            }) is None,
        },
{
    match row.get(key) {
        Some(c) => c.as_i64(),
        None => None,
    }
}

/// Rewrites an incoming row's foreign keys into this device's ids.
#[verifier::loop_isolation(false)]
pub fn remap_row_fks(table: &str, row: Row, maps: &IdMaps) -> (r: Option<Row>)
    ensures
        match r {
            Some(out) => remap_row_spec(table@, row@, maps@) == Some(out@),
            None => remap_row_spec(table@, row@, maps@) is None,
        },
{
    let fks = fk_columns(table);
    let ghost fk_spec = fk_columns_spec(table@);
    let ghost orig = row@;
    let mut row = row;
    let n = fks.len();
    let mut i: usize = 0;
    assert(fk_spec.subrange(0, n as int) =~= fk_spec);
    while i < n
        invariant
            n == fks@.len(),
            fk_spec == fk_columns_spec(table@),
            fks@.map_values(|f: crate::sync_tables::FkColumn| crate::sync_tables::fk_view(f)) == fk_spec,
            i <= n,
            remap_fk_list(fk_spec, orig, maps@) == remap_fk_list(fk_spec.subrange(i as int, n as int), row@, maps@),
        decreases n - i,
    {
        let f = &fks[i];
        let ghost rest = fk_spec.subrange(i as int, n as int);
        assert(rest[0] == crate::sync_tables::fk_view(fks@[i as int]));
        assert(rest.drop_first() =~= fk_spec.subrange(i + 1, n as int));
        match int_column(&row, f.column) {
            None => {},
            Some(remote) => match maps.get(f.references, remote) {
                Some(local) => {
                    row.set(f.column, Cell::Int(local));
                },
                None => {
                    if f.required {
                        assert(remap_fk_list(rest, row@, maps@) is None);
                        assert(remap_row_spec(table@, orig, maps@) is None);
                        return None;
                    }
                    row.set(f.column, Cell::Null);
                },
            },
        }
        i = i + 1;
    }
    assert(fk_spec.subrange(n as int, n as int).len() == 0);
    assert(remap_fk_list(fk_spec, orig, maps@) == Some(row@));
    let ghost after_fks = row@;
    if str_eq(table, "transactions") {
        match int_column(&row, "holding_id") {
            None => {},
            Some(remote) => {
                proof {
                    reveal_strlit("");
                    assert(""@ =~= Seq::<char>::empty());
                }
                let asset_class: &str = match row.get("asset_class") {
                    Some(c) => match c.as_text() {
                        Some(t) => t,
                        None => "",
                    },
                    None => "",
                };
                let mapped = match holding_table_for_asset_class(asset_class) {
                    Some(t) => maps.get(t, remote),
                    None => None,
                };
                let v = match mapped {
                    Some(l) => Cell::Int(l),
                    None => Cell::Null,
                };
                row.set("holding_id", v);
                assert(row@ == remap_holding(after_fks, maps@));
            },
        }
        assert(row@ == remap_holding(after_fks, maps@));
    }
    assert(remap_row_spec(table@, orig, maps@) == Some(row@));
    Some(row)
}

// ── Incoming rows ──────────────────────────────────────────────────────

/// The sync id of an incoming row: its `sync_id` text, or `fresh` (a newly
/// minted random id) when it has none.
pub open spec fn remote_sync_id_spec(row: RowView, fresh: Seq<char>) -> Seq<char> {
    match row_get(row, "sync_id"@) {
        Some(c) => match cell_as_text(c) {
            Some(t) => t,
            None => fresh,
        },
        None => fresh,
    }
}

/// The sync id of an incoming row, or `fresh` when it has none.
pub fn remote_sync_id(row: &Row, fresh: String) -> (r: String)
    ensures
        r@ == remote_sync_id_spec(row@, fresh@),
{
    match row.get("sync_id") {
        Some(c) => match c.as_text() {
            Some(t) => String::from_str(t),
            None => fresh,
        },
        None => fresh,
    }
}

/// The time a merge runs at: the current time in milliseconds and the
/// latest legacy timestamp accepted from a peer (one day ahead).
pub struct MergeTime {
    pub now_ms: i64,
    pub limit: DateTimeParts,
}

/// Reads the clock for a merge (twice: in milliseconds, then as a
/// date-time). Only what holds at every time is promised: `now_ms` is not
/// before the Unix epoch and leaves room for the one-day skew allowance, and
/// the limit is one day after a date-time not before the epoch.
pub fn merge_time() -> (t: MergeTime)
    ensures
        0 <= t.now_ms <= i64::MAX - crate::clocks::MAX_CLOCK_SKEW_MS,
        exists|now: DateTimeParts|
            plain_datetime(now) && !datetime_after(unix_epoch(), now) && t.limit == #[trigger] one_day_later(now),
        !datetime_after(epoch_plus_skew(), t.limit),
{
    let now_ms = crate::clocks::now_millis();
    let now = utc_now();
    let limit = legacy_timestamp_limit(now);
    proof {
        lemma_limit_after_epoch(now);
    }
    MergeTime { now_ms, limit }
}

/// A fresh sync id: 16 random bytes as 32 lowercase hex digits.
pub fn random_sync_id() -> (s: String)
    ensures
        exists|b: Seq<u8>| b.len() == 16 && s@ == crate::codec::hex_encode_spec(b),
{
    let b = crate::crypto::random_bytes(16);
    let s = crate::codec::hex_encode(b.as_slice());
    assert(b@.len() == 16 && s@ == crate::codec::hex_encode_spec(b@));
    s
}

/// The sync id an incoming row is merged under: its own when it carries one
/// as text, a fresh one otherwise.
pub fn incoming_sync_id(row: &Row) -> (r: String)
    ensures
        match row_get(row@, "sync_id"@) {
            Some(c) => match cell_as_text(c) {
                Some(t) => r@ == t,
                None => exists|b: Seq<u8>| b.len() == 16 && r@ == crate::codec::hex_encode_spec(b),
            },
            None => exists|b: Seq<u8>| b.len() == 16 && r@ == crate::codec::hex_encode_spec(b),
        },
{
    match row.get("sync_id") {
        Some(c) => match c.as_text() {
            Some(t) => String::from_str(t),
            None => random_sync_id(),
        },
        None => random_sync_id(),
    }
}

/// What the merge does with one incoming row.
pub enum RowAction {
    /// Nothing to write.
    Keep,
    /// Overwrite the local row with this id by the (rewritten) incoming row.
    Update(i64, Row),
    /// Insert the (rewritten) incoming row as a new local row; when the insert
    /// succeeds, map the incoming id to the new local id.
    Insert(Row),
}

/// The plan for one incoming row.
pub struct RowPlan {
    /// The incoming row's own id, when it has one; rows without are skipped.
    pub remote_id: Option<i64>,
    /// A mapping `remote id -> local id` to record now (matched by sync id).
    pub map_to: Option<i64>,
    /// The incoming row's sanitized clock, to be observed by the receive rule.
    pub observed_hlc: Option<String>,
    pub action: RowAction,
}

/// The incoming row's legacy timestamp text (empty when absent or not text).
pub open spec fn remote_ts_text(row: RowView) -> Seq<char> {
    match row_get(row, "sync_updated_at"@) {
        Some(c) => match cell_as_text(c) {
            Some(t) => t,
            None => Seq::empty(),
        },
        None => Seq::empty(),
    }
}

/// The incoming row's clock text, when present as text.
pub open spec fn remote_hlc_text(row: RowView) -> Option<Seq<char>> {
    match row_get(row, "sync_hlc"@) {
        Some(c) => cell_as_text(c),
        None => None,
    }
}

/// The text in column `key`, or empty.
fn text_column(row: &Row, key: &str) -> (r: String)
    ensures
        r@ == match row_get(row@, key@) {
            Some(c) => match cell_as_text(c) {
                Some(t) => t,
                None => Seq::empty(),
            },
            None => Seq::empty(),
        },
{
    match row.get(key) {
        Some(c) => match c.as_text() {
            Some(t) => String::from_str(t),
            None => String::new(),
        },
        None => String::new(),
    }
}

/// The text in column `key`, when it holds text.
fn opt_text_column(row: &Row, key: &str) -> (r: Option<String>)
    ensures
        match r {
            Some(t) => (match row_get(row@, key@) {
                Some(c) => cell_as_text(c),
                None => None,
            }) == Some(t@),
            None => (match row_get(row@, key@) {
                Some(c) => cell_as_text(c),
                None => None,
            }) is None,
        },
{
    match row.get(key) {
        Some(c) => match c.as_text() {
            Some(t) => Some(String::from_str(t)),
            None => None,
        },
        None => None,
    }
}

/// Plans one incoming row of `table` at time `now_ms` (with `limit` the
/// latest acceptable legacy timestamp). `sync_id` is `remote_sync_id` of the
/// row; `local` is the live local row with that sync id (its id and clocks);
/// `tombstone` is the local tombstone for that sync id. The incoming clocks
/// are sanitized first. Rows without an integer id, and rows whose required
/// parent is missing here, are kept out. A row matched by sync id records the
/// id mapping and overwrites the local row only when strictly newer; an
/// unmatched row is inserted unless a local delete at least as recent exists.
pub fn plan_remote_row(
    table: &str,
    row: Row,
    sync_id: &str,
    local: &Option<(i64, Clock)>,
    tombstone: &Option<Clock>,
    maps: &IdMaps,
    now_ms: i64,
    limit: DateTimeParts,
) -> (p: RowPlan)
    requires
        now_ms <= i64::MAX - crate::clocks::MAX_CLOCK_SKEW_MS,
    ensures
        ({
            let remote_id = match row_get(row@, "id"@) {
                Some(c) => cell_as_int(c),
                None => None,
            };
            let r_ts = sanitize_legacy_ts_spec(remote_ts_text(row@), limit);
            let r_hlc = sanitize_hlc_spec(remote_hlc_text(row@), now_ms as int);
            match remote_id {
                None => p.remote_id is None && p.map_to is None && p.action is Keep,
                Some(rid) => {
                    &&& p.remote_id == Some(rid as i64)
                    &&& match p.observed_hlc {
                        Some(h) => r_hlc == Some(h@),
                        None => r_hlc is None,
                    }
                    &&& match remap_row_spec(table@, row@, maps@) {
                        None => p.map_to is None && p.action is Keep,
                        Some(remapped) => {
                            let out = row_set(remapped, "sync_id"@, CellView::Text(sync_id@));
                            match *local {
                                Some((lid, lc)) => {
                                    &&& p.map_to == Some(lid)
                                    &&& if a_wins_spec(r_hlc, r_ts, clock_view(lc).1, clock_view(lc).0, false) {
                                        p.action matches RowAction::Update(id, r) && id == lid && r@ == out
                                    } else {
                                        p.action is Keep
                                    }
                                },
                                None => {
                                    &&& p.map_to is None
                                    &&& match *tombstone {
                                        Some(tc) => if a_wins_spec(
                                            clock_view(tc).1,
                                            clock_view(tc).0,
                                            r_hlc,
                                            r_ts,
                                            true,
                                        ) {
                                            p.action is Keep
                                        } else {
                                            p.action matches RowAction::Insert(r) && r@ == out
                                        },
                                        None => p.action matches RowAction::Insert(r) && r@ == out,
                                    }
                                },
                            }
                        },
                    }
                },
            }
        }),
{
    let remote_id = match int_column(&row, "id") {
        Some(id) => id,
        None => {
            return RowPlan { remote_id: None, map_to: None, observed_hlc: None, action: RowAction::Keep };
        },
    };
    let remote_ts = sanitize_legacy_ts_at(text_column(&row, "sync_updated_at"), limit);
    let remote_hlc = sanitize_hlc_at(opt_text_column(&row, "sync_hlc"), now_ms);
    let observed_hlc = match &remote_hlc {
        Some(h) => Some(h.clone()),
        None => None,
    };
    let mut out = match remap_row_fks(table, row, maps) {
        Some(r) => r,
        None => {
            return RowPlan { remote_id: Some(remote_id), map_to: None, observed_hlc, action: RowAction::Keep };
        },
    };
    out.set("sync_id", Cell::Text(String::from_str(sync_id)));
    match local {
        Some((lid, lc)) => {
            let action = if a_wins(opt_str(&remote_hlc), remote_ts.as_str(), opt_str(&lc.hlc), lc.ts.as_str(), false) {
                RowAction::Update(*lid, out)
            } else {
                RowAction::Keep
            };
            RowPlan { remote_id: Some(remote_id), map_to: Some(*lid), observed_hlc, action }
        },
        None => {
            let action = match tombstone {
                Some(tc) => if a_wins(opt_str(&tc.hlc), tc.ts.as_str(), opt_str(&remote_hlc), remote_ts.as_str(), true) {
                    RowAction::Keep
                } else {
                    RowAction::Insert(out)
                },
                None => RowAction::Insert(out),
            };
            RowPlan { remote_id: Some(remote_id), map_to: None, observed_hlc, action }
        },
    }
}

/// The newest clock seen so far: `candidate` replaces `current` when there is
/// no current one or it sorts strictly after it (fixed-width clock texts sort
/// chronologically).
pub fn newer_clock(current: Option<String>, candidate: &Option<String>) -> (r: Option<String>)
    ensures
        match candidate {
            Some(c) => match current {
                Some(m) => if text_lt(m@, c@) {
                    r matches Some(x) && x@ == c@
                } else {
                    r matches Some(x) && x@ == m@
                },
                None => r matches Some(x) && x@ == c@,
            },
            None => match current {
                Some(m) => r matches Some(x) && x@ == m@,
                None => r is None,
            },
        },
{
    match candidate {
        Some(c) => match current {
            Some(m) => if text_less(m.as_str(), c.as_str()) {
                Some(c.clone())
            } else {
                Some(m)
            },
            None => Some(c.clone()),
        },
        None => current,
    }
}

/// Whether a payload of this format version is merged row by row (v2 and
/// later) rather than replacing the synced tables wholesale (v1).
pub fn merges_by_row(version: u8) -> (r: bool)
    ensures
        r == (version >= 2),
{
    version >= 2
}

// ── Settings that travel ───────────────────────────────────────────────

/// The settings carried in a backup payload. Authentication material, session
/// tokens and this device's own identity never travel.
pub open spec fn synced_settings_spec() -> Seq<Seq<char>> {
    seq![
        "currency"@,
        "auto_lock_minutes"@,
        "theme"@,
        "zerodha_api_key"@,
        "zerodha_api_secret"@,
        "upstox_api_key"@,
        "upstox_api_secret"@,
        "angel_api_key"@,
        "angel_client_id"@
    ]
}

/// The setting keys exported with, and imported from, a backup payload.
pub fn synced_settings() -> (v: Vec<&'static str>)
    ensures
        v@.len() == synced_settings_spec().len(),
        forall|i: int| 0 <= i < v@.len() ==> #[trigger] v@[i]@ == synced_settings_spec()[i],
{
    vec![
        "currency",
        "auto_lock_minutes",
        "theme",
        "zerodha_api_key",
        "zerodha_api_secret",
        "upstox_api_key",
        "upstox_api_secret",
        "angel_api_key",
        "angel_client_id",
    ]
}

/// Whether a setting key travels with a backup payload.
pub fn is_synced_setting(key: &str) -> (r: bool)
    ensures
        r == synced_settings_spec().contains(key@),
{
    let keys = synced_settings();
    let n = keys.len();
    let mut i: usize = 0;
    while i < n
        invariant
            n == keys@.len(),
            keys@.len() == synced_settings_spec().len(),
            forall|k: int| 0 <= k < keys@.len() ==> #[trigger] keys@[k]@ == synced_settings_spec()[k],
            i <= n,
            forall|k: int| 0 <= k < i ==> synced_settings_spec()[k] != key@,
        decreases n - i,
    {
        if str_eq(keys[i], key) {
            assert(synced_settings_spec()[i as int] == key@);
            return true;
        }
        i = i + 1;
    }
    assert forall|k: int| 0 <= k < synced_settings_spec().len() implies synced_settings_spec()[k] != key@ by {}
    false
}

/// A transaction whose holding was merged keeps its link: its `holding_id`
/// becomes the merged holding's local id in the table of the transaction's
/// asset class, never null.
pub proof fn law_merged_holding_stays_linked(
    row: RowView,
    maps: IdMapsView,
    c: Seq<char>,
    t: Seq<char>,
    h: int,
    l: int,
)
    requires
        row_get(row, "asset_class"@) == Some(CellView::Text(c)),
        row_get(row, "holding_id"@) == Some(CellView::Int(h)),
        class_table(c, t),
        map_get(maps, t, h) == Some(l),
    ensures
        remap_row_spec("transactions"@, row, maps) matches Some(r) && row_get(r, "holding_id"@) == Some(
            CellView::Int(l),
        ),
{
    reveal_strlit("transactions");
    reveal_strlit("equity_holdings");
    reveal_strlit("mf_holdings");
    reveal_strlit("sip_schedules");
    reveal_strlit("fd_holdings");
    reveal_strlit("gold_holdings");
    reveal_strlit("crypto_holdings");
    reveal_strlit("bond_holdings");
    reveal_strlit("account_id");
    reveal_strlit("holding_id");
    reveal_strlit("asset_class");
    assert("transactions"@.len() == 12 && "equity_holdings"@.len() == 15 && "mf_holdings"@.len() == 11
        && "sip_schedules"@.len() == 13 && "fd_holdings"@.len() == 11 && "gold_holdings"@.len() == 13
        && "crypto_holdings"@.len() == 15 && "bond_holdings"@.len() == 13);
    assert("transactions"@[0] == 't' && "sip_schedules"@[0] == 's' && "gold_holdings"@[0] == 'g'
        && "bond_holdings"@[0] == 'b');
    assert("account_id"@.len() == 10 && "holding_id"@.len() == 10 && "asset_class"@.len() == 11);
    assert("account_id"@[0] == 'a' && "holding_id"@[0] == 'h');
    let fks = fk_columns_spec("transactions"@);
    assert(fks == seq![("account_id"@, "accounts"@, false)]);
    law_holding_table_is_the_class_table(c, t);
    let r1 = match row_get(row, "account_id"@) {
        Some(x) => match cell_as_int(x) {
            Some(remote) => match map_get(maps, "accounts"@, remote) {
                Some(local) => row_set(row, "account_id"@, CellView::Int(local)),
                None => row_set(row, "account_id"@, CellView::Null),
            },
            None => row,
        },
        None => row,
    };
    assert(fks.drop_first().len() == 0);
    reveal_with_fuel(remap_fk_list, 2);
    assert(remap_fk_list(fks, row, maps) == Some(r1));
    lemma_row_set_get(row, "account_id"@, CellView::Int(0), "holding_id"@);
    lemma_row_set_get(row, "account_id"@, CellView::Null, "holding_id"@);
    lemma_row_set_get(row, "account_id"@, CellView::Int(0), "asset_class"@);
    lemma_row_set_get(row, "account_id"@, CellView::Null, "asset_class"@);
    if let Some(x) = row_get(row, "account_id"@) {
        if let Some(remote) = cell_as_int(x) {
            if let Some(local) = map_get(maps, "accounts"@, remote) {
                lemma_row_set_get(row, "account_id"@, CellView::Int(local), "holding_id"@);
                lemma_row_set_get(row, "account_id"@, CellView::Int(local), "asset_class"@);
            }
        }
    }
    assert(row_get(r1, "holding_id"@) == Some(CellView::Int(h)));
    assert(row_get(r1, "asset_class"@) == Some(CellView::Text(c)));
    lemma_row_set_get(r1, "holding_id"@, CellView::Int(l), "holding_id"@);
}

/// The device identity, the password hash and salt, and the sync password
/// never travel with a backup payload.
pub proof fn law_private_settings_never_travel()
    ensures
        !synced_settings_spec().contains("device_id"@),
        !synced_settings_spec().contains("password_hash"@),
        !synced_settings_spec().contains("password_salt"@),
        !synced_settings_spec().contains("sync_password_encrypted"@),
        !synced_settings_spec().contains("zerodha_access_token"@),
{
    reveal_strlit("device_id");
    reveal_strlit("password_hash");
    reveal_strlit("password_salt");
    reveal_strlit("sync_password_encrypted");
    reveal_strlit("zerodha_access_token");
    reveal_strlit("currency");
    reveal_strlit("auto_lock_minutes");
    reveal_strlit("theme");
    reveal_strlit("zerodha_api_key");
    reveal_strlit("zerodha_api_secret");
    reveal_strlit("upstox_api_key");
    reveal_strlit("upstox_api_secret");
    reveal_strlit("angel_api_key");
    reveal_strlit("angel_client_id");
    let s = synced_settings_spec();
    assert forall|i: int| 0 <= i < s.len() implies s[i].len() != 9 && s[i].len() != 23 && s[i].len() != 20
        && !(s[i].len() == 13 && s[i][0] == 'p') by {
        if i == 0 {
        } else if i == 1 {
        } else if i == 2 {
        } else if i == 3 {
        } else if i == 4 {
        } else if i == 5 {
        } else if i == 6 {
        } else if i == 7 {
        } else {
        }
    }
}

/// Importing the same payload twice changes nothing the second time: a row
/// written by the first import carries the incoming row's own clocks, and an
/// incoming row's sanitized clocks never beat the clocks it carries (they
/// are the same, or blanked by the plausibility checks), so `plan_remote_row`
/// keeps the local copy.
pub proof fn law_replayed_row_is_kept(ts: Seq<char>, hlc: Option<Seq<char>>, now_ms: int, limit: DateTimeParts)
    ensures
        !a_wins_spec(
            crate::clocks::sanitize_hlc_spec(hlc, now_ms),
            sanitize_legacy_ts_spec(ts, limit),
            hlc,
            ts,
            false,
        ),
{
    crate::clocks::lemma_text_lt_irreflexive(ts);
    if hlc is Some {
        crate::clocks::lemma_text_lt_irreflexive(hlc->0);
    }
}

} // verus!
