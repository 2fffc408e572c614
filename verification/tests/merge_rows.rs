use suvarix::dedupe::{plan_dedupe, remap_fk_if_deduped, same_content_exec};
use suvarix::merge::{decide_tombstone, legacy_timestamp_limit, is_synced_setting, merges_by_row, newer_clock, plan_remote_row, remap_row_fks, Clock, DateTimeParts, RowAction};
use suvarix::rows::{json_to_sql_value, Cell, IdMaps, Row, SqlValue};
use suvarix::sync_tables::{fk_columns, holding_table_for_asset_class, is_valid_sync_table, sync_tables};

fn row(cells: Vec<(&str, Cell)>) -> Row {
    Row { cells: cells.into_iter().map(|(k, v)| (k.to_string(), v)).collect() }
}

fn text(s: &str) -> Cell {
    Cell::Text(s.to_string())
}

fn far_limit() -> DateTimeParts {
    DateTimeParts { year: 2100, month: 1, day: 1, hour: 0, minute: 0, second: 0, nanosecond: 0 }
}

fn clock(ts: &str, hlc: Option<&str>) -> Clock {
    Clock { ts: ts.to_string(), hlc: hlc.map(|h| h.to_string()) }
}

#[test]
fn tombstone_table_names_are_checked_against_the_sync_list() {
    assert!(is_valid_sync_table("accounts"));
    assert!(is_valid_sync_table("milestones"));
    assert!(!is_valid_sync_table("app_settings"));
    assert!(!is_valid_sync_table("accounts; DROP TABLE accounts"));
    let tables = sync_tables();
    assert_eq!(tables.len(), 21);
    assert_eq!(tables[0], "accounts");
}

#[test]
fn foreign_keys_point_to_earlier_tables() {
    let tables = sync_tables();
    for (i, t) in tables.iter().enumerate() {
        for fk in fk_columns(t) {
            let pos = tables.iter().position(|x| *x == fk.references).unwrap();
            assert!(pos < i, "{t}.{} -> {}", fk.column, fk.references);
        }
    }
    assert_eq!(holding_table_for_asset_class("equity"), Some("equity_holdings"));
    assert_eq!(holding_table_for_asset_class("cash"), None);
}

#[test]
fn remote_row_with_missing_required_parent_is_dropped() {
    let maps = IdMaps::new();
    let r = row(vec![("id", Cell::Int(7)), ("account_id", Cell::Int(3)), ("sync_id", text("s1"))]);
    assert!(remap_row_fks("equity_holdings", r, &maps).is_none());
}

#[test]
fn remote_row_fks_are_rewritten_to_local_ids() {
    let mut maps = IdMaps::new();
    maps.put("accounts", 3, 30);
    let r = row(vec![("id", Cell::Int(7)), ("account_id", Cell::Int(3))]);
    let out = remap_row_fks("equity_holdings", r, &maps).unwrap();
    assert!(out.get("account_id").unwrap().same_as(&Cell::Int(30)));
}

#[test]
fn newer_remote_row_updates_the_local_copy() {
    let maps = IdMaps::new();
    let r = row(vec![("id", Cell::Int(5)), ("name", text("Bank B")), ("sync_updated_at", text("2026-02-01 00:00:00"))]);
    let local = Some((12i64, clock("2026-01-01 00:00:00", None)));
    let p = plan_remote_row("accounts", r, "sid", &local, &None, &maps, 1_700_000_000_000, far_limit());
    assert_eq!(p.remote_id, Some(5));
    assert_eq!(p.map_to, Some(12));
    match p.action {
        RowAction::Update(id, out) => {
            assert_eq!(id, 12);
            assert!(out.get("sync_id").unwrap().same_as(&text("sid")));
        }
        _ => panic!("expected an update"),
    }
}

#[test]
fn older_or_equal_remote_row_keeps_the_local_copy() {
    let maps = IdMaps::new();
    let r = row(vec![("id", Cell::Int(5)), ("sync_updated_at", text("2026-01-01 00:00:00"))]);
    let local = Some((12i64, clock("2026-01-01 00:00:00", None)));
    let p = plan_remote_row("accounts", r, "sid", &local, &None, &maps, 1_700_000_000_000, far_limit());
    assert!(matches!(p.action, RowAction::Keep));
}

#[test]
fn newer_tombstone_blocks_resurrection_of_a_deleted_row() {
    let maps = IdMaps::new();
    let r = row(vec![("id", Cell::Int(5)), ("sync_updated_at", text("2026-01-01 00:00:00"))]);
    let tomb = Some(clock("2026-01-02 00:00:00", None));
    let p = plan_remote_row("accounts", r, "sid", &None, &tomb, &maps, 1_700_000_000_000, far_limit());
    assert!(matches!(p.action, RowAction::Keep));
    let r = row(vec![("id", Cell::Int(5)), ("sync_updated_at", text("2026-01-03 00:00:00"))]);
    let p = plan_remote_row("accounts", r, "sid", &None, &tomb, &maps, 1_700_000_000_000, far_limit());
    assert!(matches!(p.action, RowAction::Insert(_)));
}

#[test]
fn tombstone_deletes_a_row_no_newer_than_itself() {
    let t = clock("2026-01-02 00:00:00", None);
    let d = decide_tombstone(&t, &Some((4, clock("2026-01-02 00:00:00", None))), &None);
    assert_eq!(d.delete_local, Some(4));
    assert!(d.record);
    let d = decide_tombstone(&t, &Some((4, clock("2026-01-03 00:00:00", None))), &Some(clock("2026-01-05 00:00:00", None)));
    assert_eq!(d.delete_local, None);
    assert!(!d.record);
}

#[test]
fn newest_observed_clock_is_kept() {
    let a = Some("1700000000000:000000001:aa".to_string());
    let b = Some("1700000000000:000000002:aa".to_string());
    assert_eq!(newer_clock(None, &a), a);
    assert_eq!(newer_clock(a.clone(), &b), b);
    assert_eq!(newer_clock(b.clone(), &a), b);
    assert_eq!(newer_clock(b.clone(), &None), b);
}

#[test]
fn only_v2_and_later_payloads_merge_and_private_settings_stay_home() {
    assert!(!merges_by_row(1));
    assert!(merges_by_row(2));
    assert!(merges_by_row(3));
    assert!(is_synced_setting("theme"));
    assert!(!is_synced_setting("password_hash"));
    assert!(!is_synced_setting("device_id"));
}

#[test]
fn rows_compare_by_content_ignoring_identity_and_clocks() {
    let a = row(vec![("id", Cell::Int(1)), ("sync_id", text("x")), ("name", text("Bank")), ("sync_hlc", text("h1"))]);
    let b = row(vec![("name", text("Bank")), ("id", Cell::Int(2)), ("sync_id", text("y"))]);
    let c = row(vec![("id", Cell::Int(3)), ("name", text("Other"))]);
    assert!(same_content_exec(&a, &b));
    assert!(!same_content_exec(&a, &c));
}

#[test]
fn duplicates_collapse_onto_the_smallest_sync_id() {
    let maps = IdMaps::new();
    let rows = vec![
        row(vec![("id", Cell::Int(1)), ("sync_id", text("bbb")), ("name", text("Bank"))]),
        row(vec![("id", Cell::Int(2)), ("sync_id", text("aaa")), ("name", text("Bank"))]),
        row(vec![("id", Cell::Int(3)), ("sync_id", text("ccc")), ("name", text("Other"))]),
    ];
    let p = plan_dedupe("accounts", &rows, &maps);
    assert_eq!(p.ids, vec![1, 2, 3]);
    assert_eq!(p.survivor, vec![1, 1, 2]);
    assert_eq!(p.changed, vec![false, false, false]);
}

#[test]
fn dedupe_plan_is_idempotent_on_its_survivors() {
    let maps = IdMaps::new();
    let rows = vec![
        row(vec![("id", Cell::Int(2)), ("sync_id", text("aaa")), ("name", text("Bank"))]),
        row(vec![("id", Cell::Int(3)), ("sync_id", text("ccc")), ("name", text("Other"))]),
    ];
    let p = plan_dedupe("accounts", &rows, &maps);
    assert_eq!(p.survivor, vec![0, 1]);
}

#[test]
fn child_fks_follow_collapsed_parents_before_comparing() {
    let mut maps = IdMaps::new();
    maps.put("accounts", 1, 2);
    let rows = vec![
        row(vec![("id", Cell::Int(10)), ("sync_id", text("s2")), ("account_id", Cell::Int(1)), ("symbol", text("INFY"))]),
        row(vec![("id", Cell::Int(11)), ("sync_id", text("s1")), ("account_id", Cell::Int(2)), ("symbol", text("INFY"))]),
    ];
    let p = plan_dedupe("equity_holdings", &rows, &maps);
    assert_eq!(p.survivor, vec![1, 1]);
    assert_eq!(p.changed, vec![true, false]);
    let mut r = row(vec![("account_id", Cell::Int(1))]);
    assert!(remap_fk_if_deduped("equity_holdings", &mut r, &maps));
    assert!(r.get("account_id").unwrap().same_as(&Cell::Int(2)));
    let mut r = row(vec![("account_id", Cell::Int(5))]);
    assert!(!remap_fk_if_deduped("equity_holdings", &mut r, &maps));
}

#[test]
fn transaction_holding_ids_follow_the_asset_class() {
    let mut maps = IdMaps::new();
    maps.put("mf_holdings", 4, 9);
    let mut r = row(vec![("holding_id", Cell::Int(4)), ("asset_class", text("mf"))]);
    assert!(remap_fk_if_deduped("transactions", &mut r, &maps));
    assert!(r.get("holding_id").unwrap().same_as(&Cell::Int(9)));
    let mut r = row(vec![("holding_id", Cell::Int(4)), ("asset_class", text("equity"))]);
    assert!(!remap_fk_if_deduped("transactions", &mut r, &maps));
}

#[test]
fn json_to_sql_value_maps_all_types() {

    assert!(matches!(json_to_sql_value(&Cell::Null), SqlValue::Null));
    assert!(matches!(json_to_sql_value(&Cell::Bool(true)), SqlValue::Integer(1)));
    assert!(matches!(json_to_sql_value(&Cell::Bool(false)), SqlValue::Integer(0)));
    assert!(matches!(json_to_sql_value(&Cell::Int(-5)), SqlValue::Integer(-5)));
    assert!(matches!(json_to_sql_value(&Cell::BigUInt(u64::MAX)), SqlValue::RealOfUnsigned(u64::MAX)));
    assert!(matches!(json_to_sql_value(&Cell::FloatBits(1.5f64.to_bits())), SqlValue::RealBits(b) if b == 1.5f64.to_bits()));
    match json_to_sql_value(&Cell::Composite("[1,2]".to_string())) {
        SqlValue::Text(s) => assert_eq!(s, "[1,2]"),
        _ => panic!("expected text"),
    }
}

#[test]
fn replaying_a_row_onto_its_own_copy_keeps_it() {
    let maps = IdMaps::new();
    let forged = "9999999999999:000000000:ffffffffffffffffffffffffffffffff";
    for (ts, hlc) in [
        ("2026-01-01 00:00:00", None),
        ("2026-01-01 00:00:00", Some("1700000000000:000000001:ffffffffffffffffffffffffffffffff")),
        ("2999-01-01 00:00:00", Some(forged)),
        ("garbage", None),
    ] {
        let mut cells = vec![("id", Cell::Int(5)), ("sync_updated_at", text(ts))];
        if let Some(h) = hlc {
            cells.push(("sync_hlc", text(h)));
        }
        let local = Some((12i64, clock(ts, hlc)));
        let p = plan_remote_row("accounts", row(cells), "sid", &local, &None, &maps, 1_700_000_000_000, far_limit());
        assert!(matches!(p.action, RowAction::Keep), "{ts} {hlc:?}");
    }
}

#[test]
fn legacy_limit_is_one_day_later_same_time() {
    let t = |year: i32, month: u32, day: u32| DateTimeParts { year, month, day, hour: 13, minute: 45, second: 7, nanosecond: 250 };
    let l = legacy_timestamp_limit(t(2024, 2, 28));
    assert_eq!((l.year, l.month, l.day, l.hour, l.minute, l.second, l.nanosecond), (2024, 2, 29, 13, 45, 7, 250));
    let l = legacy_timestamp_limit(t(2023, 2, 28));
    assert_eq!((l.year, l.month, l.day), (2023, 3, 1));
    let l = legacy_timestamp_limit(t(2023, 12, 31));
    assert_eq!((l.year, l.month, l.day), (2024, 1, 1));
    let l = legacy_timestamp_limit(t(2100, 2, 28));
    assert_eq!((l.year, l.month, l.day), (2100, 3, 1));
    let l = legacy_timestamp_limit(t(2000, 2, 28));
    assert_eq!((l.year, l.month, l.day), (2000, 2, 29));
}
