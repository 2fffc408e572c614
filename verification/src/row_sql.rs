//! The statements that write a merged row: every column but `id` is bound,
//! in the row's order, as `?1`, `?2`, ...; an update then binds the local id
//! last. Table and column names are written as quoted identifiers.

use vstd::prelude::*;
use vstd::string::*;
use crate::numeric::{decimal_digits, push_decimal};
use crate::rows::{json_to_sql_value, sql_value_spec, sql_value_view, Row, RowView, SqlValue, SqlValueView};
use crate::text::str_eq;

verus! {

/// The entries of a row that a write binds: all but those for `id`, in
/// order.
pub open spec fn bound_entries(row: RowView) -> RowView
    decreases row.len(),
{
    if row.len() == 0 {
        Seq::empty()
    } else if row.last().0 == "id"@ {
        bound_entries(row.drop_last())
    } else {
        bound_entries(row.drop_last()).push(row.last())
    }
}

/// Plain-value view of a list of names.
pub open spec fn names_of(v: Seq<String>) -> Seq<Seq<char>> {
    v.map_values(|s: String| s@)
}

/// Plain-value view of a list of bound values.
pub open spec fn values_of(v: Seq<SqlValue>) -> Seq<SqlValueView> {
    v.map_values(|x: SqlValue| sql_value_view(x))
}

/// The columns and values a write of `row` binds (see `bound_entries`).
pub fn bound_columns(row: &Row) -> (r: (Vec<String>, Vec<SqlValue>))
    ensures
        names_of(r.0@) == bound_entries(row@).map_values(|e: (Seq<char>, crate::rows::CellView)| e.0),
        values_of(r.1@) == bound_entries(row@).map_values(|e: (Seq<char>, crate::rows::CellView)| sql_value_spec(e.1)),
{
    let n = row.cells.len();
    let mut cols: Vec<String> = Vec::new();
    let mut vals: Vec<SqlValue> = Vec::new();
    let mut i: usize = 0;
    assert(row@.take(0) =~= Seq::<(Seq<char>, crate::rows::CellView)>::empty());
    assert(names_of(cols@) =~= Seq::<Seq<char>>::empty());
    assert(values_of(vals@) =~= Seq::<SqlValueView>::empty());
    while i < n
        invariant
            n == row.cells@.len(),
            n == row@.len(),
            i <= n,
            names_of(cols@) == bound_entries(row@.take(i as int)).map_values(
                |e: (Seq<char>, crate::rows::CellView)| e.0,
            ),
            values_of(vals@) == bound_entries(row@.take(i as int)).map_values(
                |e: (Seq<char>, crate::rows::CellView)| sql_value_spec(e.1),
            ),
        decreases n - i,
    {
        let ghost pre = row@.take(i as int);
        assert(row@.take(i + 1).drop_last() =~= pre);
        assert(row@.take(i + 1).last() == row@[i as int]);
        let (k, c) = (&row.cells[i].0, &row.cells[i].1);
        if !str_eq(k.as_str(), "id") {
            let ghost before_c = cols@;
            let ghost before_v = vals@;
            cols.push(k.clone());
            vals.push(json_to_sql_value(c));
            assert(names_of(cols@) =~= names_of(before_c).push(k@));
            assert(values_of(vals@) =~= values_of(before_v).push(sql_value_spec(c@)));
            assert(bound_entries(row@.take(i + 1)) == bound_entries(pre).push(row@[i as int]));
            assert(bound_entries(row@.take(i + 1)).map_values(|e: (Seq<char>, crate::rows::CellView)| e.0)
                =~= bound_entries(pre).map_values(|e: (Seq<char>, crate::rows::CellView)| e.0).push(k@));
            assert(bound_entries(row@.take(i + 1)).map_values(
                |e: (Seq<char>, crate::rows::CellView)| sql_value_spec(e.1),
            ) =~= bound_entries(pre).map_values(|e: (Seq<char>, crate::rows::CellView)| sql_value_spec(e.1)).push(
                sql_value_spec(c@),
            ));
        }
        i = i + 1;
    }
    assert(row@.take(n as int) =~= row@);
    (cols, vals)
}

// ── Statement text ─────────────────────────────────────────────────────

/// A name as a quoted SQL identifier.
pub open spec fn quoted(name: Seq<char>) -> Seq<char> {
    "\""@ + name + "\""@
}

/// The placeholder for the `k`-th bound value (counting from 1).
pub open spec fn placeholder(k: nat) -> Seq<char> {
    "?"@ + decimal_digits(k)
}

/// `"c1" = ?1, "c2" = ?2, ...` for the columns.
pub open spec fn set_clause(cols: Seq<Seq<char>>) -> Seq<char>
    decreases cols.len(),
{
    if cols.len() == 0 {
        Seq::empty()
    } else if cols.len() == 1 {
        quoted(cols[0]) + " = "@ + placeholder(1)
    } else {
        set_clause(cols.drop_last()) + ", "@ + quoted(cols.last()) + " = "@ + placeholder(cols.len())
    }
}

/// `"c1", "c2", ...` for the columns.
pub open spec fn column_list(cols: Seq<Seq<char>>) -> Seq<char>
    decreases cols.len(),
{
    if cols.len() == 0 {
        Seq::empty()
    } else if cols.len() == 1 {
        quoted(cols[0])
    } else {
        column_list(cols.drop_last()) + ", "@ + quoted(cols.last())
    }
}

/// `?1, ?2, ..., ?n`.
pub open spec fn placeholder_list(n: nat) -> Seq<char>
    decreases n,
{
    if n == 0 {
        Seq::empty()
    } else if n == 1 {
        placeholder(1)
    } else {
        placeholder_list((n - 1) as nat) + ", "@ + placeholder(n)
    }
}

/// The update of the row with the id bound last.
pub open spec fn update_sql_spec(table: Seq<char>, cols: Seq<Seq<char>>) -> Seq<char> {
    "UPDATE "@ + quoted(table) + " SET "@ + set_clause(cols) + " WHERE id = "@ + placeholder(cols.len() + 1)
}

/// An insert statement beginning with `verb` (`INSERT INTO` or `INSERT OR
/// REPLACE INTO`).
pub open spec fn insert_like_spec(verb: Seq<char>, table: Seq<char>, cols: Seq<Seq<char>>) -> Seq<char> {
    verb + " "@ + quoted(table) + " ("@ + column_list(cols) + ") VALUES ("@ + placeholder_list(cols.len()) + ")"@
}

/// The insert of a new row.
pub open spec fn insert_sql_spec(table: Seq<char>, cols: Seq<Seq<char>>) -> Seq<char> {
    insert_like_spec("INSERT INTO"@, table, cols)
}

/// The restore of a row as it was exported, id included, replacing any row
/// with the same id.
pub open spec fn restore_sql_spec(table: Seq<char>, cols: Seq<Seq<char>>) -> Seq<char> {
    insert_like_spec("INSERT OR REPLACE INTO"@, table, cols)
}

fn push_quoted_name(out: &mut String, name: &str)
    ensures
        final(out)@ == old(out)@ + quoted(name@),
{
    let ghost start = out@;
    out.append("\"");
    out.append(name);
    out.append("\"");
    assert(out@ =~= start + quoted(name@));
}

fn push_placeholder(out: &mut String, k: u64)
    ensures
        final(out)@ == old(out)@ + placeholder(k as nat),
{
    let ghost start = out@;
    out.append("?");
    push_decimal(out, k);
    assert(out@ =~= start + placeholder(k as nat));
}

/// The update statement for a table and its bound columns: `UPDATE "t" SET
/// "c1" = ?1, ... WHERE id = ?n+1`.
pub fn update_sql(table: &str, cols: &Vec<String>) -> (r: String)
    requires
        cols@.len() < u64::MAX,
    ensures
        r@ == update_sql_spec(table@, names_of(cols@)),
{
    let ghost cv = names_of(cols@);
    let mut out = String::from_str("UPDATE ");
    push_quoted_name(&mut out, table);
    out.append(" SET ");
    let ghost head = out@;
    let n = cols.len();
    let mut i: usize = 0;
    assert(cv.take(0) =~= Seq::<Seq<char>>::empty());
    assert(out@ =~= head + set_clause(cv.take(0)));
    while i < n
        invariant
            n == cols@.len(),
            n < u64::MAX,
            cv == names_of(cols@),
            i <= n,
            out@ == head + set_clause(cv.take(i as int)),
        decreases n - i,
    {
        let ghost pre = cv.take(i as int);
        assert(cv.take(i + 1).drop_last() =~= pre);
        assert(cv.take(i + 1).last() == cols@[i as int]@);
        let ghost before = out@;
        if i > 0 {
            out.append(", ");
        }
        push_quoted_name(&mut out, cols[i].as_str());
        out.append(" = ");
        push_placeholder(&mut out, i as u64 + 1);
        if i == 0 {
            assert(cv.take(1)[0] == cols@[0]@);
            assert(out@ =~= head + set_clause(cv.take(i + 1)));
        } else {
            assert(out@ =~= head + set_clause(cv.take(i + 1)));
        }
        i = i + 1;
    }
    assert(cv.take(n as int) =~= cv);
    out.append(" WHERE id = ");
    push_placeholder(&mut out, n as u64 + 1);
    assert(out@ =~= update_sql_spec(table@, cv));
    out
}

fn insert_like(verb: &str, table: &str, cols: &Vec<String>) -> (r: String)
    requires
        cols@.len() < u64::MAX,
    ensures
        r@ == insert_like_spec(verb@, table@, names_of(cols@)),
{
    let ghost cv = names_of(cols@);
    let mut out = String::from_str(verb);
    out.append(" ");
    push_quoted_name(&mut out, table);
    out.append(" (");
    let ghost head = out@;
    let n = cols.len();
    let mut i: usize = 0;
    assert(cv.take(0) =~= Seq::<Seq<char>>::empty());
    assert(out@ =~= head + column_list(cv.take(0)));
    while i < n
        invariant
            n == cols@.len(),
            cv == names_of(cols@),
            i <= n,
            out@ == head + column_list(cv.take(i as int)),
        decreases n - i,
    {
        let ghost pre = cv.take(i as int);
        assert(cv.take(i + 1).drop_last() =~= pre);
        assert(cv.take(i + 1).last() == cols@[i as int]@);
        if i > 0 {
            out.append(", ");
        }
        push_quoted_name(&mut out, cols[i].as_str());
        if i == 0 {
            assert(cv.take(1)[0] == cols@[0]@);
        }
        assert(out@ =~= head + column_list(cv.take(i + 1)));
        i = i + 1;
    }
    assert(cv.take(n as int) =~= cv);
    out.append(") VALUES (");
    let ghost mid = out@;
    let mut k: usize = 0;
    assert(out@ =~= mid + placeholder_list(0));
    while k < n
        invariant
            n == cols@.len(),
            n < u64::MAX,
            k <= n,
            out@ == mid + placeholder_list(k as nat),
        decreases n - k,
    {
        if k > 0 {
            out.append(", ");
        }
        push_placeholder(&mut out, k as u64 + 1);
        assert(out@ =~= mid + placeholder_list((k + 1) as nat));
        k = k + 1;
    }
    out.append(")");
    assert(out@ =~= insert_like_spec(verb@, table@, cv));
    out
}

/// The insert statement for a table and its bound columns: `INSERT INTO "t"
/// ("c1", ...) VALUES (?1, ...)`.
pub fn insert_sql(table: &str, cols: &Vec<String>) -> (r: String)
    requires
        cols@.len() < u64::MAX,
    ensures
        r@ == insert_sql_spec(table@, names_of(cols@)),
{
    insert_like("INSERT INTO", table, cols)
}

/// The statement that restores an exported row, id included: `INSERT OR
/// REPLACE INTO "t" ("c1", ...) VALUES (?1, ...)`.
pub fn restore_sql(table: &str, cols: &Vec<String>) -> (r: String)
    requires
        cols@.len() < u64::MAX,
    ensures
        r@ == restore_sql_spec(table@, names_of(cols@)),
{
    insert_like("INSERT OR REPLACE INTO", table, cols)
}

/// Every column of a row and its value, in order (a restore binds them
/// all).
pub fn all_columns(row: &Row) -> (r: (Vec<String>, Vec<SqlValue>))
    ensures
        names_of(r.0@) == row@.map_values(|e: (Seq<char>, crate::rows::CellView)| e.0),
        values_of(r.1@) == row@.map_values(|e: (Seq<char>, crate::rows::CellView)| sql_value_spec(e.1)),
{
    let n = row.cells.len();
    let mut cols: Vec<String> = Vec::new();
    let mut vals: Vec<SqlValue> = Vec::new();
    let mut i: usize = 0;
    while i < n
        invariant
            n == row.cells@.len(),
            n == row@.len(),
            i <= n,
            cols@.len() == i,
            vals@.len() == i,
            forall|k: int| 0 <= k < i ==> #[trigger] cols@[k]@ == row@[k].0,
            forall|k: int| 0 <= k < i ==> sql_value_view(#[trigger] vals@[k]) == sql_value_spec(row@[k].1),
        decreases n - i,
    {
        cols.push(row.cells[i].0.clone());
        vals.push(json_to_sql_value(&row.cells[i].1));
        i = i + 1;
    }
    assert(names_of(cols@) =~= row@.map_values(|e: (Seq<char>, crate::rows::CellView)| e.0));
    assert(values_of(vals@) =~= row@.map_values(|e: (Seq<char>, crate::rows::CellView)| sql_value_spec(e.1)));
    (cols, vals)
}

} // verus!
