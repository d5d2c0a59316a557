use dbbridge::models::{CellValue, ConnectionConfig, DbError};
use dbbridge::postgres::{classify_statement, collect_names, connection_string, execute_route,
    list_databases_query, list_tables_query, read_query_result, resolve_cell, schema_or_default,
    CellProbes, FloatProbe};
use dbbridge::registry::Directory;

fn config_empty() -> ConnectionConfig {
    ConnectionConfig {
        host: None,
        port: None,
        username: None,
        password: None,
        database: None,
        connection_string: None,
        options: None,
    }
}

fn probes_failed() -> CellProbes {
    CellProbes {
        text: None,
        int4: None,
        int8: None,
        float8: FloatProbe::NotFloat,
        boolean: None,
        debug: "opaque".to_string(),
    }
}

#[test]
fn conn_string_defaults() {
    let c = config_empty();
    assert_eq!(
        connection_string(&c),
        "host=localhost port=5432 user=postgres dbname=postgres"
    );
}

#[test]
fn conn_string_appends_password_only_when_present() {
    let mut c = config_empty();
    c.host = Some("db.example".to_string());
    c.port = Some(5433);
    c.username = Some("alice".to_string());
    c.database = Some("sales".to_string());
    assert_eq!(
        connection_string(&c),
        "host=db.example port=5433 user=alice dbname=sales"
    );
    c.password = Some("SECRET-REDACTED".to_string());
    assert_eq!(
        connection_string(&c),
        "host=db.example port=5433 user=alice dbname=sales password=SECRET-REDACTED"
    );
}

#[test]
fn conn_string_supplied_takes_precedence() {
    let mut c = config_empty();
    c.host = Some("ignored".to_string());
    c.connection_string = Some("host=given".to_string());
    assert_eq!(connection_string(&c), "host=given");
}

#[test]
fn classify_read_keywords_in_any_case() {
    assert!(classify_statement("SELECT * FROM t"));
    assert!(classify_statement("  select 1"));
    assert!(classify_statement("WiTh x AS (SELECT 1) SELECT * FROM x"));
    assert!(classify_statement("SHOW server_version"));
    assert!(classify_statement("\texplain SELECT 1"));
    assert!(classify_statement("EXPLAIN ANALYZE SELECT 1"));
}

#[test]
fn classify_other_statements_as_writes() {
    assert!(!classify_statement("INSERT INTO t VALUES (1)"));
    assert!(!classify_statement("UPDATE t SET a = 1"));
    assert!(!classify_statement("DELETE FROM t"));
    assert!(!classify_statement("CREATE TABLE t (a int)"));
    // classification is by prefix alone, as documented
    assert!(classify_statement("withhold"));
}

#[test]
fn resolve_prefers_text_first() {
    let mut p = probes_failed();
    p.text = Some(Some("hello".to_string()));
    p.int4 = Some(Some(5));
    assert_eq!(resolve_cell(p), CellValue::Str("hello".to_string()));
}

#[test]
fn resolve_walks_the_preference_order() {
    let mut p = probes_failed();
    p.int4 = Some(Some(5));
    assert_eq!(resolve_cell(p), CellValue::Int(5));
    let mut p = probes_failed();
    p.int8 = Some(Some(-9));
    assert_eq!(resolve_cell(p), CellValue::Int(-9));
    let mut p = probes_failed();
    p.float8 = FloatProbe::Finite("2.5".to_string());
    assert_eq!(resolve_cell(p), CellValue::Num("2.5".to_string()));
    let mut p = probes_failed();
    p.float8 = FloatProbe::NonFinite;
    assert_eq!(resolve_cell(p), CellValue::Null);
    let mut p = probes_failed();
    p.boolean = Some(Some(true));
    assert_eq!(resolve_cell(p), CellValue::Bool(true));
}

#[test]
fn resolve_null_at_first_matching_type() {
    let mut p = probes_failed();
    p.text = Some(None);
    p.int4 = Some(Some(5));
    assert_eq!(resolve_cell(p), CellValue::Null);
}

#[test]
fn resolve_falls_back_to_debug_text() {
    let p = probes_failed();
    assert_eq!(resolve_cell(p), CellValue::Str("opaque".to_string()));
}

#[test]
fn read_result_shapes_rows_and_count() {
    let columns = vec!["a".to_string(), "b".to_string()];
    let mut r1 = probes_failed();
    r1.int4 = Some(Some(1));
    let mut r2 = probes_failed();
    r2.text = Some(Some("x".to_string()));
    let mut r3 = probes_failed();
    r3.int8 = Some(Some(2));
    let mut r4 = probes_failed();
    r4.boolean = Some(Some(false));
    let r = read_query_result(columns, vec![vec![r1, r2], vec![r3, r4]]);
    assert!(r.success);
    assert_eq!(r.columns, vec!["a".to_string(), "b".to_string()]);
    assert_eq!(r.affected_rows, Some(2));
    assert_eq!(
        r.rows[0],
        CellValue::Obj(vec![
            ("a".to_string(), CellValue::Int(1)),
            ("b".to_string(), CellValue::Str("x".to_string())),
        ])
    );
    assert_eq!(
        r.rows[1],
        CellValue::Obj(vec![
            ("a".to_string(), CellValue::Int(2)),
            ("b".to_string(), CellValue::Bool(false)),
        ])
    );
}

#[test]
fn read_result_of_no_rows_keeps_empty_columns() {
    let r = read_query_result(vec![], vec![]);
    assert!(r.success);
    assert!(r.columns.is_empty());
    assert!(r.rows.is_empty());
    assert_eq!(r.affected_rows, Some(0));
}

#[test]
fn collect_names_skips_unreadable_cells() {
    let names = collect_names(vec![
        Some("alpha".to_string()),
        None,
        Some("beta".to_string()),
    ]);
    assert_eq!(names, vec!["alpha".to_string(), "beta".to_string()]);
}

#[test]
fn execute_route_checks_partition_then_classifies() {
    let mut dir: Directory<u8> = Directory::new();
    let missing = execute_route(&dir, "ghost", "SELECT 1");
    assert!(matches!(missing, Err(DbError::ConnectionNotFound(_))));
    let id = dir.register(9);
    assert_eq!(execute_route(&dir, &id, "sElEcT 1").unwrap(), true);
    assert_eq!(execute_route(&dir, &id, "DROP TABLE t").unwrap(), false);
}

#[test]
fn catalog_queries_are_fixed() {
    assert_eq!(
        list_databases_query(),
        "SELECT datname FROM pg_database WHERE datistemplate = false ORDER BY datname"
    );
    assert_eq!(
        list_tables_query(),
        "SELECT tablename FROM pg_tables WHERE schemaname = $1 ORDER BY tablename"
    );
}

#[test]
fn schema_defaults_to_public() {
    assert_eq!(schema_or_default(None), "public");
    assert_eq!(schema_or_default(Some("audit".to_string())), "audit");
}
