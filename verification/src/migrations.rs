//! The SQL scripts of the schema migrations that give every synced table its
//! sync bookkeeping: the `sync_id` / `sync_updated_at` columns, the tombstone
//! table and the triggers that maintain them, and the hybrid-logical-clock
//! column and state. Each script is one block of statements per synced
//! table, in `sync_tables_spec` order.

use vstd::prelude::*;
use vstd::string::*;
use crate::sync_tables::{sync_tables, sync_tables_spec};
use crate::text::str_eq;

verus! {

/// The concatenation of `f(t)` over the tables `ts`, in order.
pub open spec fn per_table(ts: Seq<Seq<char>>, f: spec_fn(Seq<char>) -> Seq<char>) -> Seq<char>
    decreases ts.len(),
{
    if ts.len() == 0 {
        Seq::empty()
    } else {
        per_table(ts.drop_last(), f) + f(ts.last())
    }
}

proof fn lemma_per_table_step(ts: Seq<Seq<char>>, f: spec_fn(Seq<char>) -> Seq<char>, i: int)
    requires
        0 <= i < ts.len(),
    ensures
        per_table(ts.take(i + 1), f) == per_table(ts.take(i), f) + f(ts[i]),
{
    assert(ts.take(i + 1).drop_last() =~= ts.take(i));
}

// ── Migration 018: sync columns ────────────────────────────────────────

/// The statements adding the sync columns to one table.
pub open spec fn sync_columns_sql(t: Seq<char>) -> Seq<char> {
    "ALTER TABLE "@ + t + " ADD COLUMN sync_id TEXT;\n"@ + "ALTER TABLE "@ + t
        + " ADD COLUMN sync_updated_at TEXT;\n"@
}

/// Adds `sync_id` (a row identity shared across devices) and
/// `sync_updated_at` (the merge clock) to every synced table.
pub fn migration_018_add_sync_columns() -> (sql: String)
    ensures
        sql@ == per_table(sync_tables_spec(), |t: Seq<char>| sync_columns_sql(t)),
{
    let tables = sync_tables();
    let ghost f = |t: Seq<char>| sync_columns_sql(t);
    let ghost ts = sync_tables_spec();
    let mut sql = String::new();
    let n = tables.len();
    let mut i: usize = 0;
    while i < n
        invariant
            n == ts.len(),
            tables@.len() == ts.len(),
            forall|j: int| 0 <= j < tables@.len() ==> #[trigger] tables@[j]@ == ts[j],
            f == (|t: Seq<char>| sync_columns_sql(t)),
            i <= n,
            sql@ == per_table(ts.take(i as int), f),
        decreases n - i,
    {
        let t = tables[i];
        proof {
            lemma_per_table_step(ts, f, i as int);
        }
        sql.append("ALTER TABLE ");
        sql.append(t);
        sql.append(" ADD COLUMN sync_id TEXT;\n");
        sql.append("ALTER TABLE ");
        sql.append(t);
        sql.append(" ADD COLUMN sync_updated_at TEXT;\n");
        i = i + 1;
    }
    assert(ts.take(n as int) =~= ts);
    sql
}

// ── Migration 019: tombstones and sync triggers ────────────────────────

/// The existing timestamp that seeds `sync_updated_at` at backfill, per
/// table (tables differ in which of `updated_at` / `created_at` they have).
pub open spec fn backfill_source_spec(t: Seq<char>) -> Seq<char> {
    if t == "sip_schedules"@ || t == "budgets"@ || t == "net_worth_snapshots"@ {
        "datetime('now')"@
    } else if t == "fd_holdings"@ || t == "real_estate_holdings"@ || t == "gold_holdings"@ || t
        == "crypto_holdings"@ || t == "insurance_holdings"@ || t == "milestones"@ {
        "COALESCE(created_at, datetime('now'))"@
    } else if t == "import_log"@ {
        "COALESCE(imported_at, datetime('now'))"@
    } else {
        "COALESCE(updated_at, datetime('now'))"@
    }
}

/// The SQL expression that seeds a table's `sync_updated_at` at backfill.
pub fn sync_backfill_source_expr(table: &str) -> (e: &'static str)
    ensures
        e@ == backfill_source_spec(table@),
{
    if str_eq(table, "sip_schedules") || str_eq(table, "budgets") || str_eq(table, "net_worth_snapshots") {
        "datetime('now')"
    } else if str_eq(table, "fd_holdings") || str_eq(table, "real_estate_holdings") || str_eq(
        table,
        "gold_holdings",
    ) || str_eq(table, "crypto_holdings") || str_eq(table, "insurance_holdings") || str_eq(
        table,
        "milestones",
    ) {
        "COALESCE(created_at, datetime('now'))"
    } else if str_eq(table, "import_log") {
        "COALESCE(imported_at, datetime('now'))"
    } else {
        "COALESCE(updated_at, datetime('now'))"
    }
}

/// The tombstone table that records every deletion from a synced table.
pub open spec fn tombstone_table_sql() -> Seq<char> {
    "
CREATE TABLE IF NOT EXISTS sync_tombstones (
    table_name TEXT NOT NULL,
    sync_id    TEXT NOT NULL,
    deleted_at TEXT NOT NULL,
    PRIMARY KEY (table_name, sync_id)
);
"@
}

/// One table's backfill and its insert / update / delete triggers.
pub open spec fn sync_infra_sql(t: Seq<char>) -> Seq<char> {
    "UPDATE "@ + t + " SET sync_id = lower(hex(randomblob(16))) WHERE sync_id IS NULL;\n"@
    + "UPDATE "@ + t + " SET sync_updated_at = "@ + backfill_source_spec(t)
        + " WHERE sync_updated_at IS NULL;\n"@
    + "CREATE TRIGGER IF NOT EXISTS trg_"@ + t + "_sync_insert AFTER INSERT ON "@ + t + " BEGIN UPDATE "@ + t
        + " SET sync_id = COALESCE(NEW.sync_id, lower(hex(randomblob(16)))), sync_updated_at = COALESCE(NEW.sync_updated_at, datetime('now')) WHERE rowid = NEW.rowid; END;\n"@
    + "CREATE TRIGGER IF NOT EXISTS trg_"@ + t + "_sync_update AFTER UPDATE ON "@ + t
        + " WHEN NEW.sync_updated_at IS OLD.sync_updated_at BEGIN UPDATE "@ + t
        + " SET sync_updated_at = datetime('now') WHERE rowid = NEW.rowid; END;\n"@
    + "CREATE TRIGGER IF NOT EXISTS trg_"@ + t + "_tombstone AFTER DELETE ON "@ + t
        + " BEGIN INSERT INTO sync_tombstones (table_name, sync_id, deleted_at) VALUES ('"@ + t
        + "', OLD.sync_id, datetime('now')) ON CONFLICT(table_name, sync_id) DO UPDATE SET deleted_at = excluded.deleted_at; END;\n"@
}

fn append_sync_infra(sql: &mut String, t: &str)
    ensures
        final(sql)@ == old(sql)@ + sync_infra_sql(t@),
{
    let expr = sync_backfill_source_expr(t);
    sql.append("UPDATE ");
    sql.append(t);
    sql.append(" SET sync_id = lower(hex(randomblob(16))) WHERE sync_id IS NULL;\n");
    sql.append("UPDATE ");
    sql.append(t);
    sql.append(" SET sync_updated_at = ");
    sql.append(expr);
    sql.append(" WHERE sync_updated_at IS NULL;\n");
    sql.append("CREATE TRIGGER IF NOT EXISTS trg_");
    sql.append(t);
    sql.append("_sync_insert AFTER INSERT ON ");
    sql.append(t);
    sql.append(" BEGIN UPDATE ");
    sql.append(t);
    sql.append(
        " SET sync_id = COALESCE(NEW.sync_id, lower(hex(randomblob(16)))), sync_updated_at = COALESCE(NEW.sync_updated_at, datetime('now')) WHERE rowid = NEW.rowid; END;\n",
    );
    sql.append("CREATE TRIGGER IF NOT EXISTS trg_");
    sql.append(t);
    sql.append("_sync_update AFTER UPDATE ON ");
    sql.append(t);
    sql.append(" WHEN NEW.sync_updated_at IS OLD.sync_updated_at BEGIN UPDATE ");
    sql.append(t);
    sql.append(" SET sync_updated_at = datetime('now') WHERE rowid = NEW.rowid; END;\n");
    sql.append("CREATE TRIGGER IF NOT EXISTS trg_");
    sql.append(t);
    sql.append("_tombstone AFTER DELETE ON ");
    sql.append(t);
    sql.append(" BEGIN INSERT INTO sync_tombstones (table_name, sync_id, deleted_at) VALUES ('");
    sql.append(t);
    sql.append(
        "', OLD.sync_id, datetime('now')) ON CONFLICT(table_name, sync_id) DO UPDATE SET deleted_at = excluded.deleted_at; END;\n",
    );
}

/// Creates the tombstone table, backfills `sync_id` / `sync_updated_at` on
/// existing rows, and installs the triggers that stamp them on insert and
/// update and record a tombstone on delete. Every statement is guarded
/// (`IF NOT EXISTS`, `WHERE ... IS NULL`), so the script can run again.
pub fn migration_019_sync_infra() -> (sql: String)
    ensures
        sql@ == tombstone_table_sql() + per_table(sync_tables_spec(), |t: Seq<char>| sync_infra_sql(t)),
{
    let tables = sync_tables();
    let ghost f = |t: Seq<char>| sync_infra_sql(t);
    let ghost ts = sync_tables_spec();
    let mut sql = String::from_str(
        "
CREATE TABLE IF NOT EXISTS sync_tombstones (
    table_name TEXT NOT NULL,
    sync_id    TEXT NOT NULL,
    deleted_at TEXT NOT NULL,
    PRIMARY KEY (table_name, sync_id)
);
",
    );
    let n = tables.len();
    let mut i: usize = 0;
    while i < n
        invariant
            n == ts.len(),
            tables@.len() == ts.len(),
            forall|j: int| 0 <= j < tables@.len() ==> #[trigger] tables@[j]@ == ts[j],
            f == (|t: Seq<char>| sync_infra_sql(t)),
            i <= n,
            sql@ == tombstone_table_sql() + per_table(ts.take(i as int), f),
        decreases n - i,
    {
        proof {
            lemma_per_table_step(ts, f, i as int);
        }
        append_sync_infra(&mut sql, tables[i]);
        i = i + 1;
    }
    assert(ts.take(n as int) =~= ts);
    sql
}

// ── Migration 020: hybrid-logical-clock columns ────────────────────────

/// The statement adding the clock column to one table.
pub open spec fn hlc_column_sql(t: Seq<char>) -> Seq<char> {
    "ALTER TABLE "@ + t + " ADD COLUMN sync_hlc TEXT;\n"@
}

/// Adds the nullable `sync_hlc` column to every synced table and `hlc` to the
/// tombstone table; rows without one fall back to `sync_updated_at`.
pub fn migration_020_add_hlc_columns() -> (sql: String)
    ensures
        sql@ == per_table(sync_tables_spec(), |t: Seq<char>| hlc_column_sql(t))
            + "ALTER TABLE sync_tombstones ADD COLUMN hlc TEXT;\n"@,
{
    let tables = sync_tables();
    let ghost f = |t: Seq<char>| hlc_column_sql(t);
    let ghost ts = sync_tables_spec();
    let mut sql = String::new();
    let n = tables.len();
    let mut i: usize = 0;
    while i < n
        invariant
            n == ts.len(),
            tables@.len() == ts.len(),
            forall|j: int| 0 <= j < tables@.len() ==> #[trigger] tables@[j]@ == ts[j],
            f == (|t: Seq<char>| hlc_column_sql(t)),
            i <= n,
            sql@ == per_table(ts.take(i as int), f),
        decreases n - i,
    {
        proof {
            lemma_per_table_step(ts, f, i as int);
        }
        sql.append("ALTER TABLE ");
        sql.append(tables[i]);
        sql.append(" ADD COLUMN sync_hlc TEXT;\n");
        i = i + 1;
    }
    assert(ts.take(n as int) =~= ts);
    sql.append("ALTER TABLE sync_tombstones ADD COLUMN hlc TEXT;\n");
    sql
}

// ── Migration 021: clock state and clock-stamping triggers ─────────────

/// SQLite's epoch-milliseconds expression.
pub const NOW_MS_EXPR: &'static str = "(CAST((julianday('now') - 2440587.5) * 86400000 AS INTEGER))";

/// The SQL expression that reads the clock state just bumped and this
/// device's id into one `sync_hlc` value, zero-padded so that text order is
/// clock order.
pub open spec fn hlc_expr_spec() -> Seq<char> {
    "(SELECT printf('%013d:%09d:%s', last_physical_ms, last_logical, (SELECT value FROM app_settings WHERE key = 'device_id')) FROM sync_hlc_state WHERE id = 1)"@
}

/// The SQL expression for the next `sync_hlc` value (see `hlc_expr_spec`).
pub fn hlc_expr() -> (e: String)
    ensures
        e@ == hlc_expr_spec(),
{
    String::from_str(
        "(SELECT printf('%013d:%09d:%s', last_physical_ms, last_logical, (SELECT value FROM app_settings WHERE key = 'device_id')) FROM sync_hlc_state WHERE id = 1)",
    )
}

/// The statement that advances the clock state: the logical counter counts
/// up while the wall clock has not moved past the last physical time, and
/// resets when it has.
pub open spec fn clock_bump_sql() -> Seq<char> {
    "UPDATE sync_hlc_state SET last_logical = CASE WHEN "@ + NOW_MS_EXPR@
        + " <= last_physical_ms THEN last_logical + 1 ELSE 0 END, last_physical_ms = MAX("@ + NOW_MS_EXPR@
        + ", last_physical_ms) WHERE id = 1; "@
}

/// The clock state table and its single row.
pub open spec fn hlc_state_sql() -> Seq<char> {
    "
CREATE TABLE IF NOT EXISTS sync_hlc_state (
    id               INTEGER PRIMARY KEY CHECK(id = 1),
    last_physical_ms INTEGER NOT NULL DEFAULT 0,
    last_logical     INTEGER NOT NULL DEFAULT 0
);
INSERT OR IGNORE INTO sync_hlc_state (id, last_physical_ms, last_logical) VALUES (1, 0, 0);
"@
}

/// One table's insert trigger, replaced by one that also bumps the clock and
/// stamps `sync_hlc`.
pub open spec fn hlc_insert_trigger_sql(t: Seq<char>) -> Seq<char> {
    "DROP TRIGGER IF EXISTS trg_"@ + t + "_sync_insert;\n"@
    + "CREATE TRIGGER trg_"@ + t + "_sync_insert AFTER INSERT ON "@ + t + " BEGIN "@ + clock_bump_sql()
        + "UPDATE "@ + t
        + " SET sync_id = COALESCE(NEW.sync_id, lower(hex(randomblob(16)))), sync_updated_at = COALESCE(NEW.sync_updated_at, datetime('now')), sync_hlc = COALESCE(NEW.sync_hlc, "@
        + hlc_expr_spec() + ") WHERE rowid = NEW.rowid; END;\n"@
}

/// One table's update trigger, replaced by one that also bumps the clock and
/// stamps `sync_hlc`.
pub open spec fn hlc_update_trigger_sql(t: Seq<char>) -> Seq<char> {
    "DROP TRIGGER IF EXISTS trg_"@ + t + "_sync_update;\n"@
    + "CREATE TRIGGER trg_"@ + t + "_sync_update AFTER UPDATE ON "@ + t
        + " WHEN NEW.sync_updated_at IS OLD.sync_updated_at BEGIN "@ + clock_bump_sql() + "UPDATE "@ + t
        + " SET sync_updated_at = datetime('now'), sync_hlc = "@ + hlc_expr_spec()
        + " WHERE rowid = NEW.rowid; END;\n"@
}

/// One table's delete trigger, replaced by one that also bumps the clock and
/// stamps the tombstone's `hlc`.
pub open spec fn hlc_tombstone_trigger_sql(t: Seq<char>) -> Seq<char> {
    "DROP TRIGGER IF EXISTS trg_"@ + t + "_tombstone;\n"@
    + "CREATE TRIGGER trg_"@ + t + "_tombstone AFTER DELETE ON "@ + t + " BEGIN "@ + clock_bump_sql()
        + "INSERT INTO sync_tombstones (table_name, sync_id, deleted_at, hlc) VALUES ('"@ + t
        + "', OLD.sync_id, datetime('now'), "@ + hlc_expr_spec()
        + ") ON CONFLICT(table_name, sync_id) DO UPDATE SET deleted_at = excluded.deleted_at, hlc = excluded.hlc; END;\n"@
}

/// One table's three triggers, as migration 021 replaces them.
pub open spec fn hlc_triggers_sql(t: Seq<char>) -> Seq<char> {
    hlc_insert_trigger_sql(t) + hlc_update_trigger_sql(t) + hlc_tombstone_trigger_sql(t)
}

fn clock_bump() -> (s: String)
    ensures
        s@ == clock_bump_sql(),
{
    let mut s = String::from_str("UPDATE sync_hlc_state SET last_logical = CASE WHEN ");
    s.append(NOW_MS_EXPR);
    s.append(" <= last_physical_ms THEN last_logical + 1 ELSE 0 END, last_physical_ms = MAX(");
    s.append(NOW_MS_EXPR);
    s.append(", last_physical_ms) WHERE id = 1; ");
    s
}

fn append_hlc_insert_trigger(sql: &mut String, t: &str, bump: &str, hlc: &str)
    requires
        bump@ == clock_bump_sql(),
        hlc@ == hlc_expr_spec(),
    ensures
        final(sql)@ == old(sql)@ + hlc_insert_trigger_sql(t@),
{
    sql.append("DROP TRIGGER IF EXISTS trg_");
    sql.append(t);
    sql.append("_sync_insert;\n");
    sql.append("CREATE TRIGGER trg_");
    sql.append(t);
    sql.append("_sync_insert AFTER INSERT ON ");
    sql.append(t);
    sql.append(" BEGIN ");
    sql.append(bump);
    sql.append("UPDATE ");
    sql.append(t);
    sql.append(
        " SET sync_id = COALESCE(NEW.sync_id, lower(hex(randomblob(16)))), sync_updated_at = COALESCE(NEW.sync_updated_at, datetime('now')), sync_hlc = COALESCE(NEW.sync_hlc, ",
    );
    sql.append(hlc);
    sql.append(") WHERE rowid = NEW.rowid; END;\n");
}

fn append_hlc_update_trigger(sql: &mut String, t: &str, bump: &str, hlc: &str)
    requires
        bump@ == clock_bump_sql(),
        hlc@ == hlc_expr_spec(),
    ensures
        final(sql)@ == old(sql)@ + hlc_update_trigger_sql(t@),
{
    sql.append("DROP TRIGGER IF EXISTS trg_");
    sql.append(t);
    sql.append("_sync_update;\n");
    sql.append("CREATE TRIGGER trg_");
    sql.append(t);
    sql.append("_sync_update AFTER UPDATE ON ");
    sql.append(t);
    sql.append(" WHEN NEW.sync_updated_at IS OLD.sync_updated_at BEGIN ");
    sql.append(bump);
    sql.append("UPDATE ");
    sql.append(t);
    sql.append(" SET sync_updated_at = datetime('now'), sync_hlc = ");
    sql.append(hlc);
    sql.append(" WHERE rowid = NEW.rowid; END;\n");
}

fn append_hlc_tombstone_trigger(sql: &mut String, t: &str, bump: &str, hlc: &str)
    requires
        bump@ == clock_bump_sql(),
        hlc@ == hlc_expr_spec(),
    ensures
        final(sql)@ == old(sql)@ + hlc_tombstone_trigger_sql(t@),
{
    sql.append("DROP TRIGGER IF EXISTS trg_");
    sql.append(t);
    sql.append("_tombstone;\n");
    sql.append("CREATE TRIGGER trg_");
    sql.append(t);
    sql.append("_tombstone AFTER DELETE ON ");
    sql.append(t);
    sql.append(" BEGIN ");
    sql.append(bump);
    sql.append("INSERT INTO sync_tombstones (table_name, sync_id, deleted_at, hlc) VALUES ('");
    sql.append(t);
    sql.append("', OLD.sync_id, datetime('now'), ");
    sql.append(hlc);
    sql.append(
        ") ON CONFLICT(table_name, sync_id) DO UPDATE SET deleted_at = excluded.deleted_at, hlc = excluded.hlc; END;\n",
    );
}

fn append_hlc_triggers(sql: &mut String, t: &str, bump: &str, hlc: &str)
    requires
        bump@ == clock_bump_sql(),
        hlc@ == hlc_expr_spec(),
    ensures
        final(sql)@ == old(sql)@ + hlc_triggers_sql(t@),
{
    let ghost s0 = sql@;
    append_hlc_insert_trigger(sql, t, bump, hlc);
    append_hlc_update_trigger(sql, t, bump, hlc);
    append_hlc_tombstone_trigger(sql, t, bump, hlc);
    assert(sql@ =~= s0 + hlc_triggers_sql(t@));
}

/// Creates the single-row clock state and replaces every synced table's
/// triggers with versions that advance the clock and stamp `sync_hlc`
/// (`DROP TRIGGER IF EXISTS` first, so the script can run again).
pub fn migration_021_hlc_state_and_triggers() -> (sql: String)
    ensures
        sql@ == hlc_state_sql() + per_table(sync_tables_spec(), |t: Seq<char>| hlc_triggers_sql(t)),
{
    let tables = sync_tables();
    let ghost f = |t: Seq<char>| hlc_triggers_sql(t);
    let ghost ts = sync_tables_spec();
    let bump = clock_bump();
    let hlc = hlc_expr();
    let mut sql = String::from_str(
        "
CREATE TABLE IF NOT EXISTS sync_hlc_state (
    id               INTEGER PRIMARY KEY CHECK(id = 1),
    last_physical_ms INTEGER NOT NULL DEFAULT 0,
    last_logical     INTEGER NOT NULL DEFAULT 0
);
INSERT OR IGNORE INTO sync_hlc_state (id, last_physical_ms, last_logical) VALUES (1, 0, 0);
",
    );
    let n = tables.len();
    let mut i: usize = 0;
    while i < n
        invariant
            n == ts.len(),
            tables@.len() == ts.len(),
            forall|j: int| 0 <= j < tables@.len() ==> #[trigger] tables@[j]@ == ts[j],
            f == (|t: Seq<char>| hlc_triggers_sql(t)),
            bump@ == clock_bump_sql(),
            hlc@ == hlc_expr_spec(),
            i <= n,
            sql@ == hlc_state_sql() + per_table(ts.take(i as int), f),
        decreases n - i,
    {
        proof {
            lemma_per_table_step(ts, f, i as int);
        }
        append_hlc_triggers(&mut sql, tables[i], bump.as_str(), hlc.as_str());
        i = i + 1;
    }
    assert(ts.take(n as int) =~= ts);
    sql
}

// ── Wiping all data ────────────────────────────────────────────────────

/// The nine default net-worth milestones.
pub const DEFAULT_MILESTONES_SEED: &'static str = "
INSERT OR IGNORE INTO milestones (amount, label, is_custom) VALUES
    (100000,    '\u{20b9}1 Lakh',     0),
    (500000,    '\u{20b9}5 Lakh',     0),
    (1000000,   '\u{20b9}10 Lakh',    0),
    (2500000,   '\u{20b9}25 Lakh',    0),
    (5000000,   '\u{20b9}50 Lakh',    0),
    (10000000,  '\u{20b9}1 Crore',    0),
    (25000000,  '\u{20b9}2.5 Crore',  0),
    (50000000,  '\u{20b9}5 Crore',    0),
    (100000000, '\u{20b9}10 Crore',   0);
";

/// The thirteen default category names.
pub const DEFAULT_CATEGORIES_SEED: &'static str = "
INSERT OR IGNORE INTO categories (name) VALUES
    ('Food'), ('Rent'), ('EMI'), ('Travel'), ('Medical'), ('Utilities'),
    ('Entertainment'), ('Education'), ('Shopping'), ('Dividend'), ('Interest'),
    ('Salary'), ('Other');
";

/// The tables whose rows a wipe deletes outright, children before parents.
pub open spec fn data_tables_spec() -> Seq<Seq<char>> {
    seq![
        "sip_schedules"@,
        "transactions"@,
        "net_worth_snapshots"@,
        "budgets"@,
        "equity_holdings"@,
        "mf_holdings"@,
        "fd_holdings"@,
        "bond_holdings"@,
        "ppf_epf_holdings"@,
        "real_estate_holdings"@,
        "gold_holdings"@,
        "crypto_holdings"@,
        "insurance_holdings"@,
        "loans"@,
        "credit_cards"@,
        "accounts"@,
        "recurring_transactions"@,
        "bills"@,
        "goals"@,
        "import_log"@
    ]
}

fn data_tables() -> (v: Vec<&'static str>)
    ensures
        v@.len() == data_tables_spec().len(),
        forall|i: int| 0 <= i < v@.len() ==> #[trigger] v@[i]@ == data_tables_spec()[i],
{
    vec![
        "sip_schedules",
        "transactions",
        "net_worth_snapshots",
        "budgets",
        "equity_holdings",
        "mf_holdings",
        "fd_holdings",
        "bond_holdings",
        "ppf_epf_holdings",
        "real_estate_holdings",
        "gold_holdings",
        "crypto_holdings",
        "insurance_holdings",
        "loans",
        "credit_cards",
        "accounts",
        "recurring_transactions",
        "bills",
        "goals",
        "import_log",
    ]
}

/// The statements of a wipe, in order: delete every data table's rows; clear
/// the categories and milestones and put their defaults back; forget every
/// tombstone (the deletes just recorded one for every row, which would keep
/// the next import from restoring anything).
pub open spec fn wipe_statements_spec() -> Seq<Seq<char>> {
    data_tables_spec().map_values(|t: Seq<char>| "DELETE FROM "@ + t) + seq![
        "DELETE FROM categories"@,
        DEFAULT_CATEGORIES_SEED@,
        "DELETE FROM milestones"@,
        DEFAULT_MILESTONES_SEED@,
        "DELETE FROM sync_tombstones"@
    ]
}

/// The statements that wipe all data (see `wipe_statements_spec`), for the
/// application to run in order, stopping at the first failure.
pub fn wipe_all_data_impl() -> (v: Vec<String>)
    ensures
        v@.map_values(|s: String| s@) == wipe_statements_spec(),
{
    let tables = data_tables();
    let ghost ts = data_tables_spec();
    let mut v: Vec<String> = Vec::new();
    let n = tables.len();
    let mut i: usize = 0;
    while i < n
        invariant
            n == ts.len(),
            tables@.len() == ts.len(),
            forall|j: int| 0 <= j < tables@.len() ==> #[trigger] tables@[j]@ == ts[j],
            i <= n,
            v@.len() == i,
            forall|j: int| 0 <= j < i ==> (#[trigger] v@[j])@ == "DELETE FROM "@ + ts[j],
        decreases n - i,
    {
        let mut s = String::from_str("DELETE FROM ");
        s.append(tables[i]);
        v.push(s);
        i = i + 1;
    }
    v.push(String::from_str("DELETE FROM categories"));
    v.push(String::from_str(DEFAULT_CATEGORIES_SEED));
    v.push(String::from_str("DELETE FROM milestones"));
    v.push(String::from_str(DEFAULT_MILESTONES_SEED));
    v.push(String::from_str("DELETE FROM sync_tombstones"));
    assert(v@.map_values(|s: String| s@) =~= wipe_statements_spec());
    v
}

} // verus!
