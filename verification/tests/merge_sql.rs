use suvarix::merge_sql::{
    delete_row_sql, hlc_state_update_sql, local_clock_sql, merge_insert_sql, merge_update_sql, setting_upsert_sql,
    tombstone_upsert_sql,
};

#[test]
fn merge_statements_only_name_synced_tables() {
    assert_eq!(delete_row_sql("accounts").unwrap(), "DELETE FROM \"accounts\" WHERE id = ?1");
    assert_eq!(delete_row_sql("not_a_real_table"), None);
    assert_eq!(delete_row_sql("accounts\" UNION SELECT 1,2,3 --"), None);
    assert_eq!(
        local_clock_sql("goals").unwrap(),
        "SELECT id, sync_updated_at, sync_hlc FROM \"goals\" WHERE sync_id = ?1"
    );
    assert_eq!(local_clock_sql("app_settings"), None);
    let cols = vec!["name".to_string(), "balance".to_string()];
    assert_eq!(
        merge_update_sql("accounts", &cols).unwrap(),
        "UPDATE \"accounts\" SET \"name\" = ?1, \"balance\" = ?2 WHERE id = ?3"
    );
    assert_eq!(
        merge_insert_sql("accounts", &cols).unwrap(),
        "INSERT INTO \"accounts\" (\"name\", \"balance\") VALUES (?1, ?2)"
    );
    assert_eq!(merge_update_sql("sqlite_master", &cols), None);
    assert_eq!(merge_insert_sql("sync_tombstones", &cols), None);
}

#[test]
fn bookkeeping_statements_name_their_tables() {
    assert!(tombstone_upsert_sql().starts_with("INSERT INTO \"sync_tombstones\" (table_name, sync_id, deleted_at, hlc)"));
    assert_eq!(
        hlc_state_update_sql(),
        "UPDATE \"sync_hlc_state\" SET last_physical_ms = ?1, last_logical = ?2 WHERE id = 1"
    );
    assert_eq!(
        setting_upsert_sql(),
        "INSERT INTO \"app_settings\" (key, value) VALUES (?1, ?2) ON CONFLICT(key) DO UPDATE SET value = excluded.value"
    );
}
