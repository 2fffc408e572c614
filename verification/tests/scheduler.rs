use suvarix::error::AppError;
use suvarix::sync_schedule::{
    base_interval_secs, classify_import, dedupe_already_applied, interval_minutes, should_run, sync_blocked,
    DedupeSummary, ImportSummary, SyncOutcome, DEFAULT_INTERVAL_MIN,
};

#[test]
fn classify_import_ok_with_rows_reports_imported_and_clears_block_flag() {
    let result = Ok(ImportSummary { rows_imported: 3, tables_imported: 1 });
    let c = classify_import(&result);
    assert!(c.imported);
    assert!(!c.blocked);
    assert_eq!(c.set_blocked_flag, Some(false));
}

#[test]
fn classify_import_ok_with_no_rows_reports_not_imported() {
    let result = Ok(ImportSummary { rows_imported: 0, tables_imported: 0 });
    let c = classify_import(&result);
    assert!(!c.imported);
    assert!(!c.blocked);
}

#[test]
fn classify_import_generic_error_is_swallowed_not_propagated() {
    let result: Result<ImportSummary, AppError> = Err(AppError::Validation("corrupt file".into()));
    let c = classify_import(&result);
    assert!(!c.imported);
    assert!(!c.blocked);
    assert_eq!(c.set_blocked_flag, None);
}

#[test]
fn classify_import_version_mismatch_sets_block_flag_without_erroring() {
    let result: Result<ImportSummary, AppError> = Err(AppError::UnsupportedBackupVersion(4, 3));
    let c = classify_import(&result);
    assert!(!c.imported);
    assert!(c.blocked);
    assert_eq!(c.set_blocked_flag, Some(true));
}

#[test]
fn interval_defaults_when_unset_or_garbage() {
    assert_eq!(interval_minutes(None), DEFAULT_INTERVAL_MIN);
    assert_eq!(interval_minutes(Some("not-a-number")), DEFAULT_INTERVAL_MIN);
}

#[test]
fn interval_reads_configured_value() {
    assert_eq!(interval_minutes(Some("45")), 45);
}

#[test]
fn interval_parsing_follows_unsigned_integer_syntax() {
    assert_eq!(interval_minutes(Some("+7")), 7);
    assert_eq!(interval_minutes(Some("-7")), DEFAULT_INTERVAL_MIN);
    assert_eq!(interval_minutes(Some(" 7")), DEFAULT_INTERVAL_MIN);
    assert_eq!(interval_minutes(Some("18446744073709551616")), DEFAULT_INTERVAL_MIN);
}

#[test]
fn base_interval_never_drops_below_five_minutes() {
    assert_eq!(base_interval_secs(1), 300);
    assert_eq!(base_interval_secs(30), 1800);
}

#[test]
fn tick_runs_only_when_enabled_with_folder_and_password() {
    assert!(should_run("true", "/sync", "enc"));
    assert!(!should_run("TRUE", "/sync", "enc"));
    assert!(!should_run("true", "", "enc"));
    assert!(!should_run("true", "/sync", ""));
    let o = SyncOutcome::skipped();
    assert!(!o.ran && !o.imported && o.exported_at.is_none() && !o.blocked_version_mismatch);
    let o = SyncOutcome::completed(true, false, "2026-01-01T00:00:00Z".to_string());
    assert!(o.ran && o.imported && !o.blocked_version_mismatch);
    assert_eq!(o.exported_at.as_deref(), Some("2026-01-01T00:00:00Z"));
}

#[test]
fn flags_are_set_only_by_the_exact_text_true() {
    assert!(sync_blocked(Some("true")));
    assert!(!sync_blocked(Some("false")));
    assert!(!sync_blocked(None));
    assert!(dedupe_already_applied(Some("true")));
    assert!(!dedupe_already_applied(Some("yes")));
    assert!(!dedupe_already_applied(None));
}

#[test]
fn dedupe_summary_counts_tables_with_removals() {
    let mut s = DedupeSummary::new();
    s.add_table(0);
    s.add_table(3);
    s.add_table(2);
    assert_eq!((s.tables_affected, s.rows_removed), (2, 5));
}
