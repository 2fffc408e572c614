use suvarix::row_sql::{all_columns, bound_columns, insert_sql, restore_sql, update_sql};
use suvarix::rows::{Cell, Row, SqlValue};

fn row() -> Row {
    Row {
        cells: vec![
            ("id".to_string(), Cell::Int(7)),
            ("name".to_string(), Cell::Text("Food".to_string())),
            ("is_active".to_string(), Cell::Bool(true)),
        ],
    }
}

#[test]
fn writes_bind_every_column_but_id() {
    let (cols, vals) = bound_columns(&row());
    assert_eq!(cols, vec!["name".to_string(), "is_active".to_string()]);
    assert_eq!(vals.len(), 2);
    assert!(matches!(&vals[0], SqlValue::Text(t) if t == "Food"));
    assert!(matches!(vals[1], SqlValue::Integer(1)));
    let (all, _) = all_columns(&row());
    assert_eq!(all.len(), 3);
}

#[test]
fn statements_quote_names_and_number_placeholders() {
    let cols = vec!["name".to_string(), "is_active".to_string()];
    assert_eq!(update_sql("categories", &cols), "UPDATE \"categories\" SET \"name\" = ?1, \"is_active\" = ?2 WHERE id = ?3");
    assert_eq!(insert_sql("categories", &cols), "INSERT INTO \"categories\" (\"name\", \"is_active\") VALUES (?1, ?2)");
    assert_eq!(restore_sql("t", &vec!["id".to_string()]), "INSERT OR REPLACE INTO \"t\" (\"id\") VALUES (?1)");
    assert_eq!(insert_sql("t", &vec![]), "INSERT INTO \"t\" () VALUES ()");
}
