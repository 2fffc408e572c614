use suvarix::auth::{hash_password, verify_password};
use suvarix::migrations::{
    hlc_expr, migration_018_add_sync_columns, migration_019_sync_infra, migration_020_add_hlc_columns,
    migration_021_hlc_state_and_triggers, sync_backfill_source_expr, wipe_all_data_impl,
};

#[test]
fn sync_columns_are_added_to_every_synced_table() {
    let sql = migration_018_add_sync_columns();
    assert!(sql.starts_with("ALTER TABLE accounts ADD COLUMN sync_id TEXT;\nALTER TABLE accounts ADD COLUMN sync_updated_at TEXT;\n"));
    assert_eq!(sql.matches("ADD COLUMN sync_id TEXT;").count(), 21);
    assert!(sql.ends_with("ALTER TABLE milestones ADD COLUMN sync_updated_at TEXT;\n"));
}

#[test]
fn backfill_source_depends_on_the_table() {
    assert_eq!(sync_backfill_source_expr("budgets"), "datetime('now')");
    assert_eq!(sync_backfill_source_expr("gold_holdings"), "COALESCE(created_at, datetime('now'))");
    assert_eq!(sync_backfill_source_expr("import_log"), "COALESCE(imported_at, datetime('now'))");
    assert_eq!(sync_backfill_source_expr("accounts"), "COALESCE(updated_at, datetime('now'))");
}

#[test]
fn sync_infra_creates_tombstones_and_triggers() {
    let sql = migration_019_sync_infra();
    assert!(sql.contains("CREATE TABLE IF NOT EXISTS sync_tombstones"));
    assert!(sql.contains("UPDATE budgets SET sync_updated_at = datetime('now') WHERE sync_updated_at IS NULL;\n"));
    assert!(sql.contains("CREATE TRIGGER IF NOT EXISTS trg_loans_tombstone AFTER DELETE ON loans BEGIN INSERT INTO sync_tombstones (table_name, sync_id, deleted_at) VALUES ('loans', OLD.sync_id, datetime('now'))"));
    assert_eq!(sql.matches("CREATE TRIGGER IF NOT EXISTS").count(), 63);
}

#[test]
fn hlc_migrations_stamp_clock_values() {
    assert_eq!(
        migration_020_add_hlc_columns().lines().last(),
        Some("ALTER TABLE sync_tombstones ADD COLUMN hlc TEXT;")
    );
    let sql = migration_021_hlc_state_and_triggers();
    assert!(sql.contains("INSERT OR IGNORE INTO sync_hlc_state (id, last_physical_ms, last_logical) VALUES (1, 0, 0);"));
    assert_eq!(sql.matches("DROP TRIGGER IF EXISTS").count(), 63);
    assert!(sql.contains(&format!("sync_hlc = COALESCE(NEW.sync_hlc, {})", hlc_expr())));
    assert!(hlc_expr().starts_with("(SELECT printf('%013d:%09d:%s'"));
}

#[test]
fn wipe_deletes_data_then_reseeds_defaults_and_forgets_tombstones() {
    let stmts = wipe_all_data_impl();
    assert_eq!(stmts.len(), 25);
    assert_eq!(stmts[0], "DELETE FROM sip_schedules");
    assert_eq!(stmts[19], "DELETE FROM import_log");
    assert_eq!(stmts[20], "DELETE FROM categories");
    assert!(stmts[21].contains("('Salary'), ('Other');"));
    assert_eq!(stmts[22], "DELETE FROM milestones");
    assert!(stmts[23].contains("'\u{20b9}10 Crore'"));
    assert_eq!(stmts[24], "DELETE FROM sync_tombstones");
}

#[test]
fn password_hash_is_deterministic_and_verifies() {
    let salt = "00112233445566778899aabbccddeeff00112233445566778899aabbccddeeff";
    let a = hash_password("hunter2", salt).unwrap();
    let b = hash_password("hunter2", salt).unwrap();
    assert_eq!(a, b);
    assert_eq!(a.len(), 64);
    assert!(verify_password("hunter2", salt, &a).unwrap());
    assert!(!verify_password("hunter3", salt, &a).unwrap());
    assert!(hash_password("hunter2", "not-hex").is_err());
}
