use dbbridge::models::{CellValue, DbError};
use dbbridge::registry::Directory;
use dbbridge::sqlite::{classify_is_read, close_connection, collect_table_names, connect_sqlite,
    execute_query, get_database_structure, normalize_cell, RawCell};

fn obj(v: &CellValue) -> &Vec<(String, CellValue)> {
    match v {
        CellValue::Obj(pairs) => pairs,
        _ => panic!("expected an object row"),
    }
}

#[test]
fn connect_memory_then_select_one() {
    let mut dir = Directory::new();
    let id = connect_sqlite(&mut dir, ":memory:").unwrap();
    assert_eq!(id.len(), 36);
    let r = execute_query(&dir, &id, "SELECT 1").unwrap();
    assert!(r.success);
    assert_eq!(r.columns, vec!["1".to_string()]);
    assert_eq!(r.rows.len(), 1);
    let pairs = obj(&r.rows[0]);
    assert_eq!(pairs.len(), 1);
    assert_eq!(pairs[0].0, "1");
    assert_eq!(pairs[0].1, CellValue::Int(1));
    assert_eq!(r.affected_rows, Some(1));
    assert_eq!(r.error, None);
}

#[test]
fn connect_missing_file_is_refused() {
    let mut dir = Directory::new();
    let r = connect_sqlite(&mut dir, "/no/such/dbbridge-file.db");
    match r {
        Err(DbError::FileNotFound(m)) => {
            assert_eq!(m, "Database file does not exist: /no/such/dbbridge-file.db");
        }
        other => panic!("expected FileNotFound, got {:?}", other),
    }
}

#[test]
fn execute_unregistered_id_not_found() {
    let dir: Directory<rusqlite::Connection> = Directory::new();
    let r = execute_query(&dir, "missing-id", "SELECT 1");
    match r {
        Err(DbError::ConnectionNotFound(m)) => {
            assert_eq!(m, "Connection with ID missing-id not found");
        }
        other => panic!("expected ConnectionNotFound, got {:?}", other),
    }
}

#[test]
fn close_then_execute_not_found() {
    let mut dir = Directory::new();
    let id = connect_sqlite(&mut dir, ":memory:").unwrap();
    close_connection(&mut dir, &id).unwrap();
    let r = execute_query(&dir, &id, "SELECT 1");
    assert!(matches!(r, Err(DbError::ConnectionNotFound(_))));
    let again = close_connection(&mut dir, &id);
    assert!(matches!(again, Err(DbError::ConnectionNotFound(_))));
}

#[test]
fn write_statements_report_affected_rows() {
    let mut dir = Directory::new();
    let id = connect_sqlite(&mut dir, ":memory:").unwrap();
    let created = execute_query(&dir, &id, "CREATE TABLE t (a INTEGER, b TEXT)").unwrap();
    assert!(created.success);
    assert_eq!(created.affected_rows, Some(0));
    assert!(created.columns.is_empty());
    assert!(created.rows.is_empty());
    let inserted = execute_query(&dir, &id, "INSERT INTO t VALUES (1, 'x'), (2, 'y')").unwrap();
    assert_eq!(inserted.affected_rows, Some(2));
    let updated = execute_query(&dir, &id, "UPDATE t SET b = 'z'").unwrap();
    assert_eq!(updated.affected_rows, Some(2));
}

#[test]
fn select_normalizes_native_cell_types() {
    let mut dir = Directory::new();
    let id = connect_sqlite(&mut dir, ":memory:").unwrap();
    execute_query(&dir, &id, "CREATE TABLE t (a, b, c, d, e)").unwrap();
    execute_query(
        &dir,
        &id,
        "INSERT INTO t VALUES (NULL, 7, 1.5, 'hello', x'0102030405')",
    )
    .unwrap();
    let r = execute_query(&dir, &id, "SELECT a, b, c, d, e FROM t").unwrap();
    assert_eq!(r.columns, vec!["a", "b", "c", "d", "e"]);
    assert_eq!(r.rows.len(), 1);
    let pairs = obj(&r.rows[0]);
    assert_eq!(pairs[0].1, CellValue::Null);
    assert_eq!(pairs[1].1, CellValue::Int(7));
    assert_eq!(pairs[2].1, CellValue::Num("1.5".to_string()));
    assert_eq!(pairs[3].1, CellValue::Str("hello".to_string()));
    assert_eq!(pairs[4].1, CellValue::Str("BLOB(5 bytes)".to_string()));
}

#[test]
fn select_error_reports_prepare_failure() {
    let mut dir = Directory::new();
    let id = connect_sqlite(&mut dir, ":memory:").unwrap();
    let r = execute_query(&dir, &id, "SELECT * FROM no_such_table");
    assert!(matches!(r, Err(DbError::StatementPrepareFailed(_))));
}

#[test]
fn write_error_reports_execution_failure() {
    let mut dir = Directory::new();
    let id = connect_sqlite(&mut dir, ":memory:").unwrap();
    let r = execute_query(&dir, &id, "INSERT INTO no_such_table VALUES (1)");
    assert!(matches!(r, Err(DbError::StatementExecutionFailed(_))));
}

#[test]
fn classify_select_variants() {
    assert!(classify_is_read("SELECT 1"));
    assert!(classify_is_read("  \t\n select * from t"));
    assert!(classify_is_read("SeLeCt 1"));
    assert!(classify_is_read("\u{00A0}SELECT 1"));
    assert!(!classify_is_read("INSERT INTO t VALUES (1)"));
    assert!(!classify_is_read("sel"));
    assert!(!classify_is_read(""));
}

#[test]
fn list_tables_in_name_order() {
    let mut dir = Directory::new();
    let id = connect_sqlite(&mut dir, ":memory:").unwrap();
    execute_query(&dir, &id, "CREATE TABLE zebra (x)").unwrap();
    execute_query(&dir, &id, "CREATE TABLE apple (x)").unwrap();
    let names = get_database_structure(&dir, &id).unwrap();
    assert_eq!(names, vec!["apple".to_string(), "zebra".to_string()]);
    let missing = get_database_structure(&dir, "nope");
    assert!(matches!(missing, Err(DbError::ConnectionNotFound(_))));
}

#[test]
fn normalize_cell_handles_non_finite_reals() {
    assert_eq!(
        normalize_cell(RawCell::Real("NaN".to_string())),
        CellValue::Str("NaN".to_string())
    );
    assert_eq!(
        normalize_cell(RawCell::Real("inf".to_string())),
        CellValue::Str("inf".to_string())
    );
    assert_eq!(
        normalize_cell(RawCell::Real("-inf".to_string())),
        CellValue::Str("-inf".to_string())
    );
    assert_eq!(
        normalize_cell(RawCell::Real("2.25".to_string())),
        CellValue::Num("2.25".to_string())
    );
    assert_eq!(
        normalize_cell(RawCell::Blob(vec![1, 2, 3])),
        CellValue::Str("BLOB(3 bytes)".to_string())
    );
}

#[test]
fn connect_unopenable_path_reports_connection_failed() {
    let mut dir = Directory::new();
    // The path exists but is a directory, which the engine cannot open.
    let r = connect_sqlite(&mut dir, "/tmp");
    match r {
        Err(DbError::ConnectionFailed(m)) => {
            assert!(m.starts_with("Failed to connect to SQLite database:"));
        }
        other => panic!("expected ConnectionFailed, got {:?}", other),
    }
}

#[test]
fn fresh_memory_database_lists_no_tables() {
    let mut dir = Directory::new();
    let id = connect_sqlite(&mut dir, ":memory:").unwrap();
    assert_eq!(get_database_structure(&dir, &id).unwrap(), Vec::<String>::new());
}

#[test]
fn collecting_names_requires_text_cells() {
    let ok = collect_table_names(vec![
        vec![RawCell::Text("apple".to_string())],
        vec![RawCell::Text("zebra".to_string())],
    ]);
    assert_eq!(ok.unwrap(), vec!["apple".to_string(), "zebra".to_string()]);
    let bad = collect_table_names(vec![
        vec![RawCell::Text("apple".to_string())],
        vec![RawCell::Integer(3)],
    ]);
    match bad {
        Err(DbError::CatalogQueryFailed(m)) => assert_eq!(m, "Failed to collect table names"),
        other => panic!("expected CatalogQueryFailed, got {:?}", other),
    }
}

#[test]
fn read_results_count_rows_returned() {
    let mut dir = Directory::new();
    let id = connect_sqlite(&mut dir, ":memory:").unwrap();
    execute_query(&dir, &id, "CREATE TABLE t (a)").unwrap();
    execute_query(&dir, &id, "INSERT INTO t VALUES (1), (2), (3)").unwrap();
    let r = execute_query(&dir, &id, "SELECT a FROM t").unwrap();
    assert_eq!(r.rows.len(), 3);
    assert_eq!(r.affected_rows, Some(3));
}
