use dbbridge::dispatch::{connection_response, engine_kind, route_list_databases, EngineKind,
    ListDatabasesRoute, Registry};
use dbbridge::models::{CellValue, DbError, QueryResult};
use dbbridge::mongodb::{execute_plan, DocumentOperation};
use dbbridge::sqlite::{connect_sqlite, execute_query};
use dbbridge::text::u64_to_string;

#[test]
fn engine_tags_resolve() {
    assert_eq!(engine_kind("sqlite"), Some(EngineKind::FileSql));
    assert_eq!(engine_kind("mongodb"), Some(EngineKind::Document));
    assert_eq!(engine_kind("postgres"), Some(EngineKind::Relational));
    assert_eq!(engine_kind("oracle"), None);
    assert_eq!(engine_kind(""), None);
}

#[test]
fn empty_identifier_is_refused() {
    let reg: Registry<u64, u64> = Registry::new();
    match route_list_databases(&reg.document, &reg.relational, "") {
        Err(DbError::ConnectionNotFound(m)) => assert_eq!(m, "Invalid connection ID"),
        other => panic!("expected ConnectionNotFound, got {:?}", other),
    }
}

#[test]
fn relational_only_identifier_routes_to_relational() {
    let mut reg: Registry<u64, u64> = Registry::new();
    let id = reg.relational.register(5);
    assert_eq!(
        route_list_databases(&reg.document, &reg.relational, &id).unwrap(),
        ListDatabasesRoute::Relational
    );
}

#[test]
fn document_partition_is_probed_first() {
    let mut reg: Registry<u64, u64> = Registry::new();
    reg.document.insert("shared".to_string(), 1);
    reg.relational.insert("shared".to_string(), 2);
    assert_eq!(
        route_list_databases(&reg.document, &reg.relational, "shared").unwrap(),
        ListDatabasesRoute::Document
    );
}

#[test]
fn unknown_identifier_is_not_found() {
    let reg: Registry<u64, u64> = Registry::new();
    match route_list_databases(&reg.document, &reg.relational, "ghost") {
        Err(DbError::ConnectionNotFound(m)) => {
            assert_eq!(
                m,
                "Could not find connection or the database type doesn't support listing databases"
            );
        }
        other => panic!("expected ConnectionNotFound, got {:?}", other),
    }
}

#[test]
fn connect_responses_report_both_outcomes() {
    let ok = connection_response(
        Ok("some-id".to_string()),
        "SQLite connection established",
        "Failed to connect to SQLite database",
    );
    assert!(ok.success);
    assert_eq!(ok.connection_id, "some-id");
    assert_eq!(ok.message, "SQLite connection established");
    let err = connection_response(
        Err(DbError::FileNotFound("Database file does not exist: x".to_string())),
        "SQLite connection established",
        "Failed to connect to SQLite database",
    );
    assert!(!err.success);
    assert_eq!(err.connection_id, "");
    assert_eq!(
        err.message,
        "Failed to connect to SQLite database: Database file does not exist: x"
    );
}

#[test]
fn operations_on_distinct_engines_do_not_interfere() {
    let mut reg: Registry<u64, u64> = Registry::new();
    let file_id = connect_sqlite(&mut reg.filesql, ":memory:").unwrap();
    let doc_id = reg.document.register(1);
    execute_query(&reg.filesql, &file_id, "CREATE TABLE t (a)").unwrap();
    execute_query(&reg.filesql, &file_id, "INSERT INTO t VALUES (5)").unwrap();
    let plan = execute_plan(
        &reg.document,
        &doc_id,
        "{\"db\":\"d\",\"collection\":\"c\",\"operation\":\"find\"}",
    );
    let rows = execute_query(&reg.filesql, &file_id, "SELECT a FROM t").unwrap();
    assert!(matches!(plan, Ok(DocumentOperation::Find { .. })));
    assert_eq!(rows.columns, vec!["a".to_string()]);
    assert_eq!(
        rows.rows,
        vec![CellValue::Obj(vec![("a".to_string(), CellValue::Int(5))])]
    );
    assert!(matches!(
        execute_plan(&reg.document, &file_id, "{}"),
        Err(DbError::ConnectionNotFound(_))
    ));
    assert!(matches!(
        execute_query(&reg.filesql, &doc_id, "SELECT 1"),
        Err(DbError::ConnectionNotFound(_))
    ));
}

#[test]
fn decimal_rendering_is_exact() {
    assert_eq!(u64_to_string(0), "0");
    assert_eq!(u64_to_string(7), "7");
    assert_eq!(u64_to_string(27017), "27017");
    assert_eq!(u64_to_string(u64::MAX), "18446744073709551615");
}

#[test]
fn result_invariant_holds_for_both_constructors() {
    let w = QueryResult::write_result(3);
    assert!(w.success);
    assert_eq!(w.error, None);
    assert_eq!(w.affected_rows, Some(3));
    let f = QueryResult::failed_result("query failed".to_string());
    assert!(!f.success);
    assert!(f.columns.is_empty());
    assert!(f.rows.is_empty());
    assert_eq!(f.error, Some("query failed".to_string()));
}
