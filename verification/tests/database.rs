use suvarix::database::{is_plain_sqlite_header, key_sql, new_device_id, pool_init_sql, rekey_sql, sql_quote};

#[test]
fn quotes_are_doubled() {
    assert_eq!(sql_quote("it's"), "it''s");
    assert_eq!(sql_quote("''"), "''''");
    assert_eq!(sql_quote("plain"), "plain");
}

#[test]
fn key_statements_quote_the_passphrase() {
    assert_eq!(key_sql("a'b"), "PRAGMA key = 'a''b';");
    assert_eq!(rekey_sql("x"), "PRAGMA rekey = 'x';");
    let init = pool_init_sql("pw");
    assert!(init.starts_with("PRAGMA key = 'pw';\nPRAGMA journal_mode=WAL;"));
    assert!(init.ends_with("PRAGMA temp_store=MEMORY;"));
}

#[test]
fn plain_sqlite_header_is_recognised() {
    assert!(is_plain_sqlite_header(b"SQLite format 3\0"));
    assert!(!is_plain_sqlite_header(b"SQLite format 3!"));
    assert!(!is_plain_sqlite_header(&[0u8; 16]));
    assert!(!is_plain_sqlite_header(b"SQLite"));
}

#[test]
fn device_ids_are_fresh_hex() {
    let a = new_device_id();
    let b = new_device_id();
    assert_eq!(a.len(), 32);
    assert!(a.chars().all(|c| c.is_ascii_hexdigit() && !c.is_ascii_uppercase()));
    assert_ne!(a, b);
}
