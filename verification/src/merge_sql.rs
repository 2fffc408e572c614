//! The statements a merge changes the database with. Each names the table it
//! changes: a synced table (checked against the list before its name is put
//! into SQL), or one of the sync bookkeeping tables and the settings.

use vstd::prelude::*;
use vstd::string::*;
use crate::row_sql::{insert_sql, insert_sql_spec, names_of, quoted, update_sql, update_sql_spec};
use crate::sync_tables::{is_valid_sync_table, sync_tables_spec};

verus! {

/// The tables a merge may change: the synced tables, the tombstones, the
/// clock state and the settings.
pub open spec fn merge_writable(t: Seq<char>) -> bool {
    ||| sync_tables_spec().contains(t)
    ||| t == "sync_tombstones"@
    ||| t == "sync_hlc_state"@
    ||| t == "app_settings"@
}

/// The verbs of the statements that change a table.
pub open spec fn write_verb(v: Seq<char>) -> bool {
    v == "UPDATE"@ || v == "INSERT INTO"@ || v == "DELETE FROM"@
}

/// A statement `verb "table" rest`.
pub open spec fn statement(verb: Seq<char>, table: Seq<char>, rest: Seq<char>) -> Seq<char> {
    verb + " "@ + quoted(table) + " "@ + rest
}

/// Whether a statement changes a table that a merge may change, and only
/// that table: it opens with a write verb and that table's quoted name.
pub open spec fn names_merge_table(sql: Seq<char>) -> bool {
    exists|verb: Seq<char>, t: Seq<char>, rest: Seq<char>|
        write_verb(verb) && merge_writable(t) && sql == #[trigger] statement(verb, t, rest)
}

fn write_statement(verb: &str, table: &str, rest: &str) -> (r: String)
    ensures
        r@ == statement(verb@, table@, rest@),
{
    let mut out = String::from_str(verb);
    out.append(" \"");
    out.append(table);
    out.append("\" ");
    out.append(rest);
    proof {
        reveal_strlit(" \"");
        reveal_strlit("\" ");
        reveal_strlit(" ");
        reveal_strlit("\"");
    }
    assert(out@ =~= statement(verb@, table@, rest@));
    out
}

/// The rest of the statement that deletes a row by id.
pub open spec fn delete_by_id_rest() -> Seq<char> {
    "WHERE id = ?1"@
}

/// The statement that deletes the row with the id bound first from a synced
/// table, `DELETE FROM "t" WHERE id = ?1`; `None` for any other table.
pub fn delete_row_sql(table: &str) -> (r: Option<String>)
    ensures
        match r {
            Some(s) => sync_tables_spec().contains(table@) && s@ == statement("DELETE FROM"@, table@, delete_by_id_rest())
                && names_merge_table(s@),
            None => !sync_tables_spec().contains(table@),
        },
{
    if !is_valid_sync_table(table) {
        return None;
    }
    let s = write_statement("DELETE FROM", table, "WHERE id = ?1");
    assert(write_verb("DELETE FROM"@) && merge_writable(table@));
    Some(s)
}

/// The update of a row of a synced table by id (`update_sql`); `None` for
/// any other table.
pub fn merge_update_sql(table: &str, cols: &Vec<String>) -> (r: Option<String>)
    requires
        cols@.len() < u64::MAX,
    ensures
        match r {
            Some(s) => sync_tables_spec().contains(table@) && s@ == update_sql_spec(table@, names_of(cols@))
                && names_merge_table(s@),
            None => !sync_tables_spec().contains(table@),
        },
{
    if !is_valid_sync_table(table) {
        return None;
    }
    let s = update_sql(table, cols);
    proof {
        reveal_strlit("UPDATE ");
        reveal_strlit("UPDATE");
        reveal_strlit(" ");
        reveal_strlit(" SET ");
        reveal_strlit("SET ");
        let rest = "SET "@ + crate::row_sql::set_clause(names_of(cols@)) + " WHERE id = "@
            + crate::row_sql::placeholder(names_of(cols@).len() + 1);
        assert(s@ =~= statement("UPDATE"@, table@, rest));
        assert(write_verb("UPDATE"@) && merge_writable(table@));
    }
    Some(s)
}

/// The insert of a new row into a synced table (`insert_sql`); `None` for
/// any other table.
pub fn merge_insert_sql(table: &str, cols: &Vec<String>) -> (r: Option<String>)
    requires
        cols@.len() < u64::MAX,
    ensures
        match r {
            Some(s) => sync_tables_spec().contains(table@) && s@ == insert_sql_spec(table@, names_of(cols@))
                && names_merge_table(s@),
            None => !sync_tables_spec().contains(table@),
        },
{
    if !is_valid_sync_table(table) {
        return None;
    }
    let s = insert_sql(table, cols);
    proof {
        reveal_strlit(" ");
        reveal_strlit(" (");
        reveal_strlit("(");
        let rest = "("@ + crate::row_sql::column_list(names_of(cols@)) + ") VALUES ("@
            + crate::row_sql::placeholder_list(names_of(cols@).len()) + ")"@;
        assert(s@ =~= statement("INSERT INTO"@, table@, rest));
        assert(write_verb("INSERT INTO"@) && merge_writable(table@));
    }
    Some(s)
}

/// The read of a local row's id and clocks by sync id from a synced table,
/// `SELECT id, sync_updated_at, sync_hlc FROM "t" WHERE sync_id = ?1`;
/// `None` for any other table.
pub fn local_clock_sql(table: &str) -> (r: Option<String>)
    ensures
        match r {
            Some(s) => sync_tables_spec().contains(table@) && s@ == statement(
                "SELECT id, sync_updated_at, sync_hlc FROM"@,
                table@,
                "WHERE sync_id = ?1"@,
            ),
            None => !sync_tables_spec().contains(table@),
        },
{
    if !is_valid_sync_table(table) {
        return None;
    }
    Some(write_statement("SELECT id, sync_updated_at, sync_hlc FROM", table, "WHERE sync_id = ?1"))
}

/// The rest of the tombstone upsert.
pub open spec fn tombstone_upsert_rest() -> Seq<char> {
    "(table_name, sync_id, deleted_at, hlc) VALUES (?1, ?2, ?3, ?4) ON CONFLICT(table_name, sync_id) DO UPDATE SET deleted_at = excluded.deleted_at, hlc = excluded.hlc"@
}

/// Records a tombstone (table, sync id, deletion time, clock), replacing the
/// one recorded for the same row.
pub fn tombstone_upsert_sql() -> (r: String)
    ensures
        r@ == statement("INSERT INTO"@, "sync_tombstones"@, tombstone_upsert_rest()),
        names_merge_table(r@),
{
    let s = write_statement(
        "INSERT INTO",
        "sync_tombstones",
        "(table_name, sync_id, deleted_at, hlc) VALUES (?1, ?2, ?3, ?4) ON CONFLICT(table_name, sync_id) DO UPDATE SET deleted_at = excluded.deleted_at, hlc = excluded.hlc",
    );
    assert(write_verb("INSERT INTO"@) && merge_writable("sync_tombstones"@));
    s
}

/// The rest of the clock-state update.
pub open spec fn hlc_state_update_rest() -> Seq<char> {
    "SET last_physical_ms = ?1, last_logical = ?2 WHERE id = 1"@
}

/// Stores this device's clock state (physical milliseconds, logical counter).
pub fn hlc_state_update_sql() -> (r: String)
    ensures
        r@ == statement("UPDATE"@, "sync_hlc_state"@, hlc_state_update_rest()),
        names_merge_table(r@),
{
    let s = write_statement("UPDATE", "sync_hlc_state", "SET last_physical_ms = ?1, last_logical = ?2 WHERE id = 1");
    assert(write_verb("UPDATE"@) && merge_writable("sync_hlc_state"@));
    s
}

/// The rest of the setting upsert.
pub open spec fn setting_upsert_rest() -> Seq<char> {
    "(key, value) VALUES (?1, ?2) ON CONFLICT(key) DO UPDATE SET value = excluded.value"@
}

/// Sets a setting (key, value), replacing its earlier value.
pub fn setting_upsert_sql() -> (r: String)
    ensures
        r@ == statement("INSERT INTO"@, "app_settings"@, setting_upsert_rest()),
        names_merge_table(r@),
{
    let s = write_statement(
        "INSERT INTO",
        "app_settings",
        "(key, value) VALUES (?1, ?2) ON CONFLICT(key) DO UPDATE SET value = excluded.value",
    );
    assert(write_verb("INSERT INTO"@) && merge_writable("app_settings"@));
    s
}

} // verus!
