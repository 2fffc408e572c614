//! Planning the one-time cleanup of duplicate rows: rows of one table whose
//! content (every column but `id`, `sync_id`, `sync_updated_at` and
//! `sync_hlc`) is identical are collapsed onto one survivor, chosen by the
//! smallest sync id so that independent runs on two devices keep the same
//! row. Foreign keys pointing at parents that were collapsed in an earlier
//! table are rewritten first.

use vstd::prelude::*;
use vstd::string::*;
use crate::clocks::{text_less, text_lt, lemma_text_lt_trichotomy, lemma_text_lt_transitive};
use crate::rows::{cell_as_int, cell_as_text, lemma_row_set_get, map_get, row_get, row_set, Cell, CellView, IdMaps, IdMapsView, Row, RowView};
use crate::sync_tables::{fk_columns, fk_columns_spec, holding_table_for_asset_class, holding_table_spec};
use crate::text::str_eq;

verus! {

/// Columns that may legitimately differ between two copies of the same row.
pub open spec fn excluded_column(k: Seq<char>) -> bool {
    k == "id"@ || k == "sync_id"@ || k == "sync_updated_at"@ || k == "sync_hlc"@
}

/// Whether two rows have the same content: every column but the excluded
/// ones has the same value (or is absent) in both.
pub open spec fn same_content(a: RowView, b: RowView) -> bool {
    forall|k: Seq<char>| !excluded_column(k) ==> #[trigger] row_get(a, k) == row_get(b, k)
}

fn is_excluded(k: &str) -> (r: bool)
    ensures
        r == excluded_column(k@),
{
    str_eq(k, "id") || str_eq(k, "sync_id") || str_eq(k, "sync_updated_at") || str_eq(k, "sync_hlc")
}

proof fn lemma_row_get_some(row: RowView, i: int)
    requires
        0 <= i < row.len(),
    ensures
        row_get(row, row[i].0) is Some,
    decreases row.len(),
{
    if i > 0 && row[0].0 != row[i].0 {
        lemma_row_get_some(row.drop_first(), i - 1);
        assert(row.drop_first()[i - 1] == row[i]);
    }
}

proof fn lemma_row_get_none(row: RowView, k: Seq<char>)
    requires
        forall|i: int| 0 <= i < row.len() ==> row[i].0 != k,
    ensures
        row_get(row, k) is None,
    decreases row.len(),
{
    if row.len() > 0 {
        assert forall|i: int| 0 <= i < row.drop_first().len() implies row.drop_first()[i].0 != k by {
            assert(row[i + 1].0 != k);
        }
        lemma_row_get_none(row.drop_first(), k);
    }
}

/// Whether every non-excluded column of `a` has the same value in `b`.
fn covered_by(a: &Row, b: &Row) -> (r: bool)
    ensures
        r == forall|i: int| 0 <= i < a@.len() && !excluded_column(a@[i].0) ==> row_get(a@, #[trigger] a@[i].0)
            == row_get(b@, a@[i].0),
{
    let n = a.cells.len();
    let mut i: usize = 0;
    while i < n
        invariant
            n == a@.len(),
            i <= n,
            forall|j: int| 0 <= j < i && !excluded_column(a@[j].0) ==> row_get(a@, #[trigger] a@[j].0) == row_get(
                b@,
                a@[j].0,
            ),
        decreases n - i,
    {
        let key = a.cells[i].0.as_str();
        assert(key@ == a@[i as int].0);
        if !is_excluded(key) {
            let ga = a.get(key);
            let gb = b.get(key);
            let same = match ga {
                Some(x) => match gb {
                    Some(y) => x.same_as(y),
                    None => false,
                },
                None => gb.is_none(),
            };
            if !same {
                assert(row_get(a@, a@[i as int].0) != row_get(b@, a@[i as int].0));
                return false;
            }
        }
        i = i + 1;
    }
    true
}

/// Whether two rows have the same content.
pub fn same_content_exec(a: &Row, b: &Row) -> (r: bool)
    ensures
        r == same_content(a@, b@),
{
    let r = covered_by(a, b) && covered_by(b, a);
    proof {
        if r {
            assert forall|k: Seq<char>| !excluded_column(k) implies #[trigger] row_get(a@, k) == row_get(b@, k) by {
                if exists|i: int| 0 <= i < a@.len() && a@[i].0 == k {
                    let i = choose|i: int| 0 <= i < a@.len() && a@[i].0 == k;
                    assert(row_get(a@, a@[i].0) == row_get(b@, a@[i].0));
                } else if exists|i: int| 0 <= i < b@.len() && b@[i].0 == k {
                    let i = choose|i: int| 0 <= i < b@.len() && b@[i].0 == k;
                    assert(row_get(b@, b@[i].0) == row_get(a@, b@[i].0));
                } else {
                    lemma_row_get_none(a@, k);
                    lemma_row_get_none(b@, k);
                }
            }
        } else {
            if !covered_by_spec(a@, b@) {
                let i = choose|i: int| 0 <= i < a@.len() && !excluded_column(a@[i].0) && row_get(a@, a@[i].0) != row_get(b@, a@[i].0);
                assert(row_get(a@, a@[i].0) != row_get(b@, a@[i].0));
            } else {
                let i = choose|i: int| 0 <= i < b@.len() && !excluded_column(b@[i].0) && row_get(b@, b@[i].0) != row_get(a@, b@[i].0);
                assert(row_get(b@, b@[i].0) != row_get(a@, b@[i].0));
            }
        }
    }
    r
}

spec fn covered_by_spec(a: RowView, b: RowView) -> bool {
    forall|i: int| 0 <= i < a.len() && !excluded_column(a[i].0) ==> row_get(a, #[trigger] a[i].0) == row_get(b, a[i].0)
}

/// `same_content` is an equivalence.
pub proof fn lemma_same_content_equivalence(a: RowView, b: RowView, c: RowView)
    ensures
        same_content(a, a),
        same_content(a, b) ==> same_content(b, a),
        same_content(a, b) && same_content(b, c) ==> same_content(a, c),
{
    if same_content(a, b) && same_content(b, c) {
        assert forall|k: Seq<char>| !excluded_column(k) implies #[trigger] row_get(a, k) == row_get(c, k) by {
            assert(row_get(a, k) == row_get(b, k));
            assert(row_get(b, k) == row_get(c, k));
        }
    }
    if same_content(a, b) {
        assert forall|k: Seq<char>| !excluded_column(k) implies #[trigger] row_get(b, k) == row_get(a, k) by {
            assert(row_get(a, k) == row_get(b, k));
        }
    }
}

// ── Foreign keys of collapsed parents ──────────────────────────────────

/// Rewrites the listed foreign-key columns that point at a collapsed parent
/// (one present in `maps`) to the survivor; other columns are left alone.
/// The flag says whether any column was rewritten.
pub open spec fn redirect_fk_list(fks: Seq<(Seq<char>, Seq<char>, bool)>, row: RowView, maps: IdMapsView) -> (RowView, bool)
    decreases fks.len(),
{
    if fks.len() == 0 {
        (row, false)
    } else {
        let (col, rt, _req) = fks[0];
        let step = match (match row_get(row, col) {
            Some(c) => cell_as_int(c),
            None => None,
        }) {
            Some(id) => match map_get(maps, rt, id) {
                Some(new_id) => Some(row_set(row, col, CellView::Int(new_id))),
                None => None,
            },
            None => None,
        };
        match step {
            Some(r) => (redirect_fk_list(fks.drop_first(), r, maps).0, true),
            None => redirect_fk_list(fks.drop_first(), row, maps),
        }
    }
}

/// The row of `table` with every foreign key to a collapsed parent
/// redirected to the survivor (including `transactions.holding_id`, by asset
/// class), and whether anything was rewritten.
pub open spec fn redirect_row_spec(table: Seq<char>, row: RowView, maps: IdMapsView) -> (RowView, bool) {
    let (r, changed) = redirect_fk_list(fk_columns_spec(table), row, maps);
    if table == "transactions"@ {
        match (match row_get(r, "holding_id"@) {
            Some(c) => cell_as_int(c),
            None => None,
        }) {
            Some(id) => {
                let asset_class = match row_get(r, "asset_class"@) {
                    Some(c) => match cell_as_text(c) {
                        Some(t) => t,
                        None => Seq::empty(),
                    },
                    None => Seq::empty(),
                };
                match (match holding_table_spec(asset_class) {
                    Some(t) => map_get(maps, t, id),
                    None => None,
                }) {
                    Some(new_id) => (row_set(r, "holding_id"@, CellView::Int(new_id)), true),
                    None => (r, changed),
                }
            },
            None => (r, changed),
        }
    } else {
        (r, changed)
    }
}

fn int_col(row: &Row, key: &str) -> (r: Option<i64>)
    ensures
        match r {
            Some(i) => (match row_get(row@, key@) {
                Some(c) => cell_as_int(c),
                None => None,
            }) == Some(i as int),
            None => (match row_get(row@, key@) {
                Some(c) => cell_as_int(c),
                None => None,
            }) is None,
        },
{
    match row.get(key) {
        Some(c) => c.as_i64(),
        None => None,
    }
}

/// Redirects a row's foreign keys to collapsed parents' survivors; returns
/// whether anything was rewritten.
#[verifier::loop_isolation(false)]
pub fn remap_fk_if_deduped(table: &str, row: &mut Row, maps: &IdMaps) -> (changed: bool)
    ensures
        (final(row)@, changed) == redirect_row_spec(table@, old(row)@, maps@),
{
    let fks = fk_columns(table);
    let ghost fk_spec = fk_columns_spec(table@);
    let ghost orig = row@;
    let n = fks.len();
    let mut i: usize = 0;
    let mut changed = false;
    assert(fk_spec.subrange(0, n as int) =~= fk_spec);
    while i < n
        invariant
            n == fks@.len(),
            fks@.map_values(|f: crate::sync_tables::FkColumn| crate::sync_tables::fk_view(f)) == fk_spec,
            i <= n,
            ({
                let (r, c) = redirect_fk_list(fk_spec.subrange(i as int, n as int), row@, maps@);
                redirect_fk_list(fk_spec, orig, maps@) == (r, c || changed)
            }),
        decreases n - i,
    {
        let f = &fks[i];
        let ghost rest = fk_spec.subrange(i as int, n as int);
        assert(rest[0] == crate::sync_tables::fk_view(fks@[i as int]));
        assert(rest.drop_first() =~= fk_spec.subrange(i + 1, n as int));
        match int_col(row, f.column) {
            Some(id) => match maps.get(f.references, id) {
                Some(new_id) => {
                    row.set(f.column, Cell::Int(new_id));
                    changed = true;
                },
                None => {},
            },
            None => {},
        }
        i = i + 1;
    }
    assert(fk_spec.subrange(n as int, n as int).len() == 0);
    if str_eq(table, "transactions") {
        match int_col(row, "holding_id") {
            Some(id) => {
                proof {
                    reveal_strlit("");
                    assert(""@ =~= Seq::<char>::empty());
                }
                let asset_class: &str = match row.get("asset_class") {
                    Some(c) => match c.as_text() {
                        Some(t) => t,
                        None => "",
                    },
                    None => "",
                };
                let mapped = match holding_table_for_asset_class(asset_class) {
                    Some(t) => maps.get(t, id),
                    None => None,
                };
                match mapped {
                    Some(new_id) => {
                        row.set("holding_id", Cell::Int(new_id));
                        changed = true;
                    },
                    None => {},
                }
            },
            None => {},
        }
    }
    changed
}

// ── Choosing survivors ─────────────────────────────────────────────────

/// The sync id used to order duplicates (empty when the row has none as text).
pub open spec fn dedupe_key(row: RowView) -> Seq<char> {
    match row_get(row, "sync_id"@) {
        Some(c) => match cell_as_text(c) {
            Some(t) => t,
            None => Seq::empty(),
        },
        None => Seq::empty(),
    }
}

/// Whether row `j` ranks before row `k` as a survivor: smaller sync id, and
/// among equal sync ids the earlier row.
pub open spec fn ranks_before(rows: Seq<RowView>, j: int, k: int) -> bool {
    text_lt(dedupe_key(rows[j]), dedupe_key(rows[k])) || (dedupe_key(rows[j]) == dedupe_key(rows[k]) && j < k)
}

/// Whether row `k` is the survivor of row `i`'s duplicate group: it has the
/// same content and ranks before every other row with that content.
#[verifier::opaque]
pub open spec fn is_survivor_of(rows: Seq<RowView>, i: int, k: int) -> bool {
    &&& 0 <= k < rows.len()
    &&& same_content(rows[k], rows[i])
    &&& forall|j: int| 0 <= j < rows.len() && j != k && same_content(rows[j], rows[i]) ==> ranks_before(rows, k, j)
}

fn sync_key(row: &Row) -> (r: String)
    ensures
        r@ == dedupe_key(row@),
{
    match row.get("sync_id") {
        Some(c) => match c.as_text() {
            Some(t) => String::from_str(t),
            None => String::new(),
        },
        None => String::new(),
    }
}

/// The index of the survivor of row `i`'s duplicate group.
fn survivor_of(rows: &Vec<Row>, keys: &Vec<String>, i: usize) -> (k: usize)
    requires
        i < rows@.len(),
        keys@.len() == rows@.len(),
        forall|j: int| 0 <= j < rows@.len() ==> #[trigger] keys@[j]@ == dedupe_key(rows@[j]@),
    ensures
        is_survivor_of(rows@.map_values(|r: Row| r@), i as int, k as int),
{
    let ghost rv = rows@.map_values(|r: Row| r@);
    proof {
        reveal(is_survivor_of);
    }
    let n = rows.len();
    let mut best: usize = i;
    let mut j: usize = 0;
    proof {
        lemma_same_content_equivalence(rv[i as int], rv[i as int], rv[i as int]);
    }
    while j < n
        invariant
            n == rows@.len(),
            rv == rows@.map_values(|r: Row| r@),
            keys@.len() == rows@.len(),
            forall|q: int| 0 <= q < rows@.len() ==> #[trigger] keys@[q]@ == dedupe_key(rows@[q]@),
            i < n,
            j <= n,
            best < n,
            same_content(rv[best as int], rv[i as int]),
            best == i || best < j,
            forall|q: int| 0 <= q < j && q != best && same_content(rv[q], rv[i as int]) ==> ranks_before(rv, best as int, q),
            best != i ==> ranks_before(rv, best as int, i as int),
        decreases n - j,
    {
        if j != best && same_content_exec(&rows[j], &rows[i]) {
            let kj = keys[j].as_str();
            let kb = keys[best].as_str();
            let better = text_less(kj, kb) || (str_eq(kj, kb) && j < best);
            if better {
                proof {
                    let old_best = best as int;
                    assert(ranks_before(rv, j as int, old_best));
                    assert forall|q: int| 0 <= q < j + 1 && q != j && same_content(rv[q], rv[i as int]) implies ranks_before(rv, j as int, q) by {
                        if q != old_best {
                            assert(ranks_before(rv, old_best, q));
                            lemma_ranks_transitive(rv, j as int, old_best, q);
                        }
                    }
                    if old_best != i as int {
                        lemma_ranks_transitive(rv, j as int, old_best, i as int);
                    }
                }
                best = j;
            } else {
                proof {
                    lemma_text_lt_trichotomy(dedupe_key(rv[j as int]), dedupe_key(rv[best as int]));
                }
            }
        }
        j = j + 1;
    }
    best
}

proof fn lemma_ranks_transitive(rows: Seq<RowView>, a: int, b: int, c: int)
    requires
        ranks_before(rows, a, b),
        ranks_before(rows, b, c),
    ensures
        ranks_before(rows, a, c),
{
    if text_lt(dedupe_key(rows[a]), dedupe_key(rows[b])) && text_lt(dedupe_key(rows[b]), dedupe_key(rows[c])) {
        lemma_text_lt_transitive(dedupe_key(rows[a]), dedupe_key(rows[b]), dedupe_key(rows[c]));
    }
}

/// The cleanup plan for one table, row by row in the order read: the row
/// with its foreign keys redirected, whether that changed it, its id, and
/// the index of the survivor of its duplicate group. A row whose survivor is
/// another row is deleted and collapses onto the survivor's id; a row that
/// is its own survivor and changed is rewritten.
pub struct DedupePlan {
    pub rows: Vec<Row>,
    pub changed: Vec<bool>,
    pub ids: Vec<i64>,
    pub survivor: Vec<usize>,
}

/// The id column of a row.
pub open spec fn row_id(row: RowView) -> int {
    match row_get(row, "id"@) {
        Some(c) => match cell_as_int(c) {
            Some(i) => i,
            None => 0,
        },
        None => 0,
    }
}

/// Rows with their foreign keys redirected, whether each changed, and each
/// one's sync id.
fn redirect_rows(table: &str, rows: &Vec<Row>, maps: &IdMaps) -> (out: (Vec<Row>, Vec<bool>, Vec<String>))
    ensures
        out.0@.len() == rows@.len(),
        out.1@.len() == rows@.len(),
        out.2@.len() == rows@.len(),
        forall|q: int| 0 <= q < rows@.len() ==> (#[trigger] out.0@[q])@ == redirect_row_spec(table@, rows@[q]@, maps@).0,
        forall|q: int| 0 <= q < rows@.len() ==> #[trigger] out.1@[q] == redirect_row_spec(table@, rows@[q]@, maps@).1,
        forall|q: int| 0 <= q < rows@.len() ==> (#[trigger] out.2@[q])@ == dedupe_key(out.0@[q]@),
{
    let mut red: Vec<Row> = Vec::new();
    let mut changed: Vec<bool> = Vec::new();
    let mut keys: Vec<String> = Vec::new();
    let n = rows.len();
    let mut idx: usize = 0;
    while idx < n
        invariant
            n == rows@.len(),
            idx <= n,
            red@.len() == idx,
            changed@.len() == idx,
            keys@.len() == idx,
            forall|q: int| 0 <= q < idx ==> (#[trigger] red@[q])@ == redirect_row_spec(table@, rows@[q]@, maps@).0,
            forall|q: int| 0 <= q < idx ==> #[trigger] changed@[q] == redirect_row_spec(table@, rows@[q]@, maps@).1,
            forall|q: int| 0 <= q < idx ==> (#[trigger] keys@[q])@ == dedupe_key(red@[q]@),
        decreases n - idx,
    {
        let mut copy = rows[idx].copy();
        let c = remap_fk_if_deduped(table, &mut copy, maps);
        keys.push(sync_key(&copy));
        red.push(copy);
        changed.push(c);
        idx = idx + 1;
    }
    (red, changed, keys)
}

/// Plans the cleanup of one table's rows (`rows`, as read), after
/// redirecting their foreign keys to parents collapsed earlier (`maps`).
/// Rows are identified by their integer `id`, which every row of a synced
/// table has.
pub fn plan_dedupe(table: &str, rows: &Vec<Row>, maps: &IdMaps) -> (p: DedupePlan)
    requires
        forall|i: int| 0 <= i < rows@.len() ==> cell_as_int_opt(row_get(#[trigger] rows@[i]@, "id"@)) is Some,
    ensures
        p.rows@.len() == rows@.len(),
        p.changed@.len() == rows@.len(),
        p.ids@.len() == rows@.len(),
        p.survivor@.len() == rows@.len(),
        forall|i: int| 0 <= i < rows@.len() ==> (#[trigger] p.rows@[i])@ == redirect_row_spec(table@, rows@[i]@, maps@).0,
        forall|i: int| 0 <= i < rows@.len() ==> #[trigger] p.changed@[i] == redirect_row_spec(table@, rows@[i]@, maps@).1,
        forall|i: int| 0 <= i < rows@.len() ==> #[trigger] p.ids@[i] == row_id(rows@[i]@),
        forall|i: int| 0 <= i < rows@.len() ==> is_survivor_of(
            Seq::new(rows@.len(), |j: int| redirect_row_spec(table@, rows@[j]@, maps@).0),
            i,
            #[trigger] p.survivor@[i] as int,
        ),
{
    let (red, changed, keys) = redirect_rows(table, rows, maps);
    let ghost rv = red@.map_values(|r: Row| r@);
    assert(rv =~= Seq::new(rows@.len(), |j: int| redirect_row_spec(table@, rows@[j]@, maps@).0));
    let n = rows.len();
    let mut ids: Vec<i64> = Vec::new();
    let mut survivor: Vec<usize> = Vec::new();
    let mut i: usize = 0;
    while i < n
        invariant
            n == rows@.len(),
            red@.len() == n,
            keys@.len() == n,
            rv == red@.map_values(|r: Row| r@),
            forall|q: int| 0 <= q < n ==> (#[trigger] keys@[q])@ == dedupe_key(red@[q]@),
            i <= n,
            ids@.len() == i,
            survivor@.len() == i,
            forall|q: int| 0 <= q < i ==> #[trigger] ids@[q] == row_id(rows@[q]@),
            forall|q: int| 0 <= q < i ==> is_survivor_of(rv, q, #[trigger] survivor@[q] as int),
        decreases n - i,
    {
        ids.push(row_id_exec(&rows[i]));
        survivor.push(survivor_of(&red, &keys, i));
        i = i + 1;
    }
    DedupePlan { rows: red, changed, ids, survivor }
}

/// Whether a value is an integer that fits `i64`.
pub open spec fn cell_as_int_opt(c: Option<CellView>) -> Option<int> {
    match c {
        Some(v) => cell_as_int(v),
        None => None,
    }
}

fn row_id_exec(row: &Row) -> (r: i64)
    ensures
        r as int == row_id(row@),
{
    match row.get("id") {
        Some(c) => match c.as_i64() {
            Some(i) => i,
            None => 0,
        },
        None => 0,
    }
}

/// A duplicate group has exactly one survivor.
pub proof fn lemma_survivor_unique(rows: Seq<RowView>, i: int, k1: int, k2: int)
    requires
        is_survivor_of(rows, i, k1),
        is_survivor_of(rows, i, k2),
    ensures
        k1 == k2,
{
    reveal(is_survivor_of);
    if k1 != k2 {
        assert(ranks_before(rows, k1, k2));
        assert(ranks_before(rows, k2, k1));
        lemma_text_lt_trichotomy(dedupe_key(rows[k1]), dedupe_key(rows[k2]));
    }
}

/// Survivors are pairwise different in content.
pub proof fn law_survivors_are_distinct(rows: Seq<RowView>, a: int, b: int)
    requires
        0 <= a < rows.len(),
        0 <= b < rows.len(),
        is_survivor_of(rows, a, a),
        is_survivor_of(rows, b, b),
        a != b,
    ensures
        !same_content(rows[a], rows[b]),
{
    reveal(is_survivor_of);
    if same_content(rows[a], rows[b]) {
        lemma_same_content_equivalence(rows[a], rows[b], rows[b]);
        assert(ranks_before(rows, a, b));
        lemma_same_content_equivalence(rows[b], rows[a], rows[a]);
        assert(same_content(rows[a], rows[b]));
        assert(ranks_before(rows, b, a));
        lemma_text_lt_trichotomy(dedupe_key(rows[a]), dedupe_key(rows[b]));
    }
}

/// The survivor of a group has the least sync id in it, whatever order the
/// rows were read in: two devices holding the same duplicates with distinct
/// sync ids keep the same row.
pub proof fn law_survivor_has_least_sync_id(rows: Seq<RowView>, i: int, k: int, j: int)
    requires
        0 <= i < rows.len(),
        0 <= j < rows.len(),
        is_survivor_of(rows, i, k),
        same_content(rows[j], rows[i]),
    ensures
        dedupe_key(rows[k]) == dedupe_key(rows[j]) || text_lt(dedupe_key(rows[k]), dedupe_key(rows[j])),
{
    reveal(is_survivor_of);
    if j != k {
        assert(ranks_before(rows, k, j));
    }
}

/// The rows at the indices `ks`, in that order.
pub open spec fn picked_rows(rows: Seq<RowView>, ks: Seq<int>) -> Seq<RowView> {
    Seq::new(ks.len(), |x: int| rows[ks[x]])
}

/// A copy of a row that differs from it only in the local id, the sync id
/// or a merge clock (`id`, `sync_id`, `sync_updated_at`, `sync_hlc`) has the
/// same content as the row; a different value in any other column gives
/// different content.
pub proof fn law_identity_columns_are_not_content(row: RowView, k: Seq<char>, v: CellView)
    ensures
        k == "id"@ || k == "sync_id"@ || k == "sync_updated_at"@ || k == "sync_hlc"@ ==> same_content(
            row,
            row_set(row, k, v),
        ),
        !(k == "id"@ || k == "sync_id"@ || k == "sync_updated_at"@ || k == "sync_hlc"@) && row_get(row, k) != Some(
            v,
        ) ==> !same_content(row, row_set(row, k, v)),
{
    lemma_row_set_get(row, k, v, k);
    if k == "id"@ || k == "sync_id"@ || k == "sync_updated_at"@ || k == "sync_hlc"@ {
        assert forall|k2: Seq<char>| !excluded_column(k2) implies #[trigger] row_get(row, k2) == row_get(
            row_set(row, k, v),
            k2,
        ) by {
            lemma_row_set_get(row, k, v, k2);
        }
    } else if row_get(row, k) != Some(v) {
        assert(!excluded_column(k));
        assert(row_get(row, k) != row_get(row_set(row, k, v), k));
    }
}

/// Rows of the same content share their survivor: the row a copy collapses
/// onto is the one every other copy collapses onto.
pub proof fn law_copies_share_a_survivor(rows: Seq<RowView>, i: int, j: int, k: int)
    requires
        0 <= i < rows.len(),
        0 <= j < rows.len(),
        is_survivor_of(rows, i, k),
        same_content(rows[i], rows[j]),
    ensures
        is_survivor_of(rows, j, k),
{
    reveal(is_survivor_of);
    lemma_same_content_equivalence(rows[k], rows[i], rows[j]);
    assert forall|x: int| 0 <= x < rows.len() && x != k && same_content(rows[x], rows[j]) implies ranks_before(
        rows,
        k,
        x,
    ) by {
        lemma_same_content_equivalence(rows[j], rows[i], rows[i]);
        lemma_same_content_equivalence(rows[x], rows[j], rows[i]);
    }
}

/// Cleaning up the rows a cleanup kept changes nothing: among the
/// survivors (any selection of them, in any order), every row is its own
/// survivor, so nothing is deleted or collapsed a second time.
pub proof fn law_cleanup_is_idempotent(rows: Seq<RowView>, ks: Seq<int>)
    requires
        forall|x: int| 0 <= x < ks.len() ==> 0 <= #[trigger] ks[x] < rows.len() && is_survivor_of(rows, ks[x], ks[x]),
        forall|x: int, y: int| 0 <= x < y < ks.len() ==> #[trigger] ks[x] != #[trigger] ks[y],
    ensures
        forall|a: int| 0 <= a < ks.len() ==> #[trigger] is_survivor_of(picked_rows(rows, ks), a, a),
{
    let kept = picked_rows(rows, ks);
    assert forall|a: int| 0 <= a < ks.len() implies is_survivor_of(kept, a, a) by {
        reveal(is_survivor_of);
        lemma_same_content_equivalence(kept[a], kept[a], kept[a]);
        assert forall|j: int| 0 <= j < kept.len() && j != a && same_content(kept[j], kept[a]) implies ranks_before(kept, a, j) by {
            law_survivors_are_distinct(rows, ks[j], ks[a]);
        }
    }
}

/// Every group of duplicates has a survivor, and its survivor is its own
/// survivor: the survivor is chosen by content and sync id alone.
pub proof fn law_every_group_has_a_survivor(rows: Seq<RowView>, i: int)
    requires
        0 <= i < rows.len(),
    ensures
        exists|k: int| is_survivor_of(rows, i, k),
        forall|k: int| is_survivor_of(rows, i, k) ==> is_survivor_of(rows, k, k),
    decreases rows.len(),
{
    reveal(is_survivor_of);
    let k = best_in_group(rows, i, rows.len() as int);
    assert(is_survivor_of(rows, i, k));
    assert forall|k2: int| is_survivor_of(rows, i, k2) implies is_survivor_of(rows, k2, k2) by {
        assert forall|j: int| 0 <= j < rows.len() && j != k2 && same_content(rows[j], rows[k2]) implies ranks_before(rows, k2, j) by {
            lemma_same_content_equivalence(rows[j], rows[k2], rows[i]);
        }
        lemma_same_content_equivalence(rows[k2], rows[k2], rows[k2]);
    }
}

/// The best-ranked row among the first `n` rows that share row `i`'s content
/// (row `i` itself when `n` does not reach it).
spec fn best_prefix(rows: Seq<RowView>, i: int, n: int) -> int
    decreases n,
{
    if n <= 0 {
        i
    } else {
        let b = best_prefix(rows, i, n - 1);
        let j = n - 1;
        if j != b && same_content(rows[j], rows[i]) && ranks_before(rows, j, b) {
            j
        } else {
            b
        }
    }
}

proof fn best_in_group(rows: Seq<RowView>, i: int, n: int) -> (k: int)
    requires
        0 <= i < rows.len(),
        0 <= n <= rows.len(),
    ensures
        k == best_prefix(rows, i, n),
        0 <= k < rows.len(),
        same_content(rows[k], rows[i]),
        k == i || k < n,
        k != i ==> ranks_before(rows, k, i),
        forall|j: int| 0 <= j < n && j != k && same_content(rows[j], rows[i]) ==> ranks_before(rows, k, j),
        n == rows.len() ==> is_survivor_of(rows, i, k),
    decreases n,
{
    reveal(is_survivor_of);
    lemma_same_content_equivalence(rows[i], rows[i], rows[i]);
    if n == 0 {
        i
    } else {
        let b = best_in_group(rows, i, n - 1);
        let j = n - 1;
        if j != b && same_content(rows[j], rows[i]) && ranks_before(rows, j, b) {
            assert forall|q: int| 0 <= q < n && q != j && same_content(rows[q], rows[i]) implies ranks_before(rows, j, q) by {
                if q != b {
                    lemma_ranks_transitive(rows, j, b, q);
                }
            }
            if b != i {
                lemma_ranks_transitive(rows, j, b, i);
            }
            j
        } else {
            if j != b && same_content(rows[j], rows[i]) {
                lemma_text_lt_trichotomy(dedupe_key(rows[j]), dedupe_key(rows[b]));
            }
            if j == i && b != i {
            }
            b
        }
    }
}

} // verus!
