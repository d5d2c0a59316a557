//! The FileSQL adapter: opens database files (or an in-memory instance),
//! classifies statements as reads or writes, and normalizes native cell
//! values into the canonical result shape. The engine itself is reached
//! through trusted wrappers around `rusqlite`.

use vstd::prelude::*;
use crate::models::{CellValue, DbError, QueryResult};
use crate::registry::Directory;
use crate::registry::{is_identifier_text, not_found_message, not_found_text};
use crate::text::{ci_has_prefix_at, ci_starts_with, dec_string, has_prefix, skip_ws_index, str_eq,
    trimmed, u64_to_string};

verus! {

#[verifier::external_type_specification]
#[verifier::external_body]
pub struct ExConnection(rusqlite::Connection);

#[verifier::external_type_specification]
#[verifier::external_body]
pub struct ExStatement<'a>(rusqlite::Statement<'a>);

#[verifier::external_type_specification]
#[verifier::external_body]
pub struct ExRows<'a>(rusqlite::Rows<'a>);

#[verifier::external_type_specification]
#[verifier::external_body]
pub struct ExRow<'a>(rusqlite::Row<'a>);

#[verifier::external_type_specification]
#[verifier::external_body]
pub struct ExSqliteError(rusqlite::Error);

/// A native cell as the engine hands it out, before normalization. A
/// floating-point value arrives as its decimal text; a value that could
/// not be read arrives as `ReadError` with the engine's message.
#[derive(Debug, PartialEq, Eq)]
pub enum RawCell {
    Null,
    Integer(i64),
    Real(String),
    Text(String),
    Blob(Vec<u8>),
    ReadError(String),
}

/// Relies on `std::path::Path::exists`: whether `path` names an existing
/// filesystem entry. The result depends on the state of the disk, so
/// nothing is assumed of it.
#[verifier::external_body]
fn path_exists(path: &str) -> bool {
    std::path::Path::new(path).exists()
}

/// Relies on `rusqlite::Connection::open`: opens the database file at
/// `path`, or a fresh in-memory database when `path` is `:memory:`.
#[verifier::external_body]
fn open_connection(path: &str) -> Result<rusqlite::Connection, rusqlite::Error> {
    rusqlite::Connection::open(path)
}

/// Relies on the `Display` rendering of `rusqlite::Error` for the
/// engine's message text.
#[verifier::external_body]
fn sqlite_error_text(e: &rusqlite::Error) -> String {
    format!("{}", e)
}

/// Relies on `rusqlite::Connection::prepare`.
#[verifier::external_body]
fn prepare<'a>(conn: &'a rusqlite::Connection, query: &str) -> Result<
    rusqlite::Statement<'a>,
    rusqlite::Error,
> {
    conn.prepare(query)
}

/// Relies on `rusqlite::Statement::column_names`; each name is copied
/// out of the prepared statement.
#[verifier::external_body]
fn statement_columns(stmt: &rusqlite::Statement<'_>) -> Vec<String> {
    stmt.column_names().into_iter().map(|s| s.to_string()).collect()
}

/// Relies on `rusqlite::Statement::query` with no parameters.
#[verifier::external_body]
fn start_query<'a, 'b>(stmt: &'a mut rusqlite::Statement<'b>) -> Result<
    rusqlite::Rows<'a>,
    rusqlite::Error,
> {
    stmt.query([])
}

/// Relies on `rusqlite::Rows::next`: hands back the next row's cells,
/// one per column, or `None` at the end of the rows or on an error while
/// stepping (the engine reports no further rows after an error).
#[verifier::external_body]
fn next_row(rows: &mut rusqlite::Rows<'_>, ncols: usize) -> (r: Option<Vec<RawCell>>)
    ensures
        r matches Some(cells) ==> cells@.len() == ncols,
{
    match rows.next() {
        Ok(Some(row)) => Some((0..ncols).map(|i| cell_of(row, i)).collect()),
        _ => None,
    }
}

/// Relies on `rusqlite::Row::get_ref` and the SQLite value tags: each
/// native value is carried over one-for-one, a floating-point value as
/// its decimal text, text with lossy recovery from malformed encoding.
#[verifier::external_body]
fn cell_of(row: &rusqlite::Row<'_>, i: usize) -> RawCell {
    match row.get_ref(i) {
        Ok(rusqlite::types::ValueRef::Null) => RawCell::Null,
        Ok(rusqlite::types::ValueRef::Integer(v)) => RawCell::Integer(v),
        Ok(rusqlite::types::ValueRef::Real(v)) => RawCell::Real(v.to_string()),
        Ok(rusqlite::types::ValueRef::Text(t)) => RawCell::Text(
            String::from_utf8_lossy(t).into_owned(),
        ),
        Ok(rusqlite::types::ValueRef::Blob(b)) => RawCell::Blob(b.to_vec()),
        Err(e) => RawCell::ReadError(format!("Error: {}", e)),
    }
}

/// Relies on `rusqlite::Connection::execute` with no parameters: runs a
/// non-SELECT statement and reports how many rows it changed.
#[verifier::external_body]
fn run_write(conn: &rusqlite::Connection, query: &str) -> Result<usize, rusqlite::Error> {
    conn.execute(query, [])
}

/// A query is a read exactly when, after leading whitespace, it begins
/// with `select` in any case.
pub open spec fn is_read_query(q: Seq<char>) -> bool {
    ci_starts_with(trimmed(q), "select"@)
}

/// Classifies a statement as a read (SELECT) or a write.
pub fn classify_is_read(query: &str) -> (r: bool)
    ensures
        r == is_read_query(query@),
{
    let i = skip_ws_index(query);
    ci_has_prefix_at(query, i, "select")
}

/// The placeholder text standing in for a binary payload of `len` bytes.
pub open spec fn blob_text(len: int) -> Seq<char> {
    "BLOB("@ + dec_string(len) + " bytes)"@
}

/// How one native cell normalizes into the canonical cell value: absent
/// becomes null, an integer a number, a non-finite floating-point text a
/// string, text a string, and a binary payload its placeholder text.
pub open spec fn normalizes_to(c: RawCell, v: CellValue) -> bool {
    match c {
        RawCell::Null => v == CellValue::Null,
        RawCell::Integer(n) => v == CellValue::Int(n),
        RawCell::Real(s) => if s@ == "NaN"@ || s@ == "inf"@ || s@ == "-inf"@ {
            v == CellValue::Str(s)
        } else {
            v == CellValue::Num(s)
        },
        RawCell::Text(s) => v == CellValue::Str(s),
        RawCell::Blob(b) => v matches CellValue::Str(t) && t@ == blob_text(b@.len() as int),
        RawCell::ReadError(s) => v == CellValue::Str(s),
    }
}

/// Normalizes one native cell into the canonical cell value.
pub fn normalize_cell(c: RawCell) -> (v: CellValue)
    ensures
        normalizes_to(c, v),
{
    match c {
        RawCell::Null => CellValue::Null,
        RawCell::Integer(n) => CellValue::Int(n),
        RawCell::Real(s) => {
            if str_eq(s.as_str(), "NaN") || str_eq(s.as_str(), "inf") || str_eq(
                s.as_str(),
                "-inf",
            ) {
                CellValue::Str(s)
            } else {
                CellValue::Num(s)
            }
        },
        RawCell::Text(s) => CellValue::Str(s),
        RawCell::Blob(b) => {
            let n = u64_to_string(b.len() as u64);
            let t = "BLOB(".to_owned().concat(n.as_str()).concat(" bytes)");
            CellValue::Str(t)
        },
        RawCell::ReadError(s) => CellValue::Str(s),
    }
}

/// `v` is an object row whose keys are exactly `columns`, in order.
pub open spec fn row_shape_ok(columns: Seq<String>, v: CellValue) -> bool {
    v matches CellValue::Obj(pairs) && pairs.len() == columns.len() && (forall|j: int|
        0 <= j < columns.len() ==> (#[trigger] pairs[j]).0 == columns[j])
}

/// `v` is the row object pairing each column name with the normalized
/// form of the matching native cell.
pub open spec fn row_obj_ok(columns: Seq<String>, raw: Seq<RawCell>, v: CellValue) -> bool {
    v matches CellValue::Obj(pairs) && pairs.len() == columns.len() && (forall|j: int|
        0 <= j < columns.len() ==> (#[trigger] pairs[j]).0 == columns[j] && normalizes_to(
            raw[j],
            pairs[j].1,
        ))
}

/// Builds the row object for one native row.
pub fn normalize_row(columns: &Vec<String>, raw: Vec<RawCell>) -> (v: CellValue)
    requires
        raw@.len() == columns@.len(),
    ensures
        row_obj_ok(columns@, raw@, v),
{
    let ghost raw0 = raw@;
    let mut pairs: Vec<(String, CellValue)> = Vec::new();
    let mut rest = raw;
    while rest.len() > 0
        invariant
            raw0.len() == columns@.len(),
            rest@.len() + pairs@.len() == columns@.len(),
            rest@ == raw0.subrange(0, rest@.len() as int),
            forall|j: int|
                0 <= j < pairs@.len() ==> (#[trigger] pairs@[j]).0 == columns@[rest@.len() + j]
                    && normalizes_to(raw0[rest@.len() + j], pairs@[j].1),
        decreases rest@.len(),
    {
        let c = rest.pop().unwrap();
        let i = rest.len();
        proof {
            assert(raw0.subrange(0, i as int + 1).drop_last() =~= raw0.subrange(0, i as int));
            assert(c == raw0[i as int]);
        }
        let name = (&columns[i]).clone();
        let v = normalize_cell(c);
        pairs.insert(0, (name, v));
    }
    proof {
        assert(forall|j: int|
            0 <= j < pairs@.len() ==> (#[trigger] pairs@[j]).0 == columns@[j] && normalizes_to(
                raw0[j],
                pairs@[j].1,
            ));
    }
    CellValue::Obj(pairs)
}

/// `r` is the canonical result of a read: the captured column names, one
/// row object per native row, and the number of rows returned as the
/// affected-row count.
pub open spec fn read_result_ok(
    columns: Seq<String>,
    raw_rows: Seq<Vec<RawCell>>,
    r: QueryResult,
) -> bool {
    &&& r.success
    &&& r.error is None
    &&& r.affected_rows == Some(raw_rows.len() as u64)
    &&& r.columns@ == columns
    &&& r.rows@.len() == raw_rows.len()
    &&& forall|i: int|
        0 <= i < raw_rows.len() ==> row_obj_ok(columns, (#[trigger] raw_rows[i])@, r.rows@[i])
}

/// Assembles the canonical result of a read from the captured column
/// names and the native rows.
pub fn read_query_result(columns: Vec<String>, raw_rows: Vec<Vec<RawCell>>) -> (r: QueryResult)
    requires
        forall|i: int|
            0 <= i < raw_rows@.len() ==> (#[trigger] raw_rows@[i])@.len() == columns@.len(),
    ensures
        read_result_ok(columns@, raw_rows@, r),
{
    let ghost rr0 = raw_rows@;
    let mut rows: Vec<CellValue> = Vec::new();
    let mut rest = raw_rows;
    while rest.len() > 0
        invariant
            rest@.len() + rows@.len() == rr0.len(),
            rest@ == rr0.subrange(0, rest@.len() as int),
            forall|i: int| 0 <= i < rr0.len() ==> (#[trigger] rr0[i])@.len() == columns@.len(),
            forall|j: int|
                0 <= j < rows@.len() ==> row_obj_ok(
                    columns@,
                    (#[trigger] rr0[rest@.len() + j])@,
                    rows@[j],
                ),
        decreases rest@.len(),
    {
        let rr = rest.pop().unwrap();
        proof {
            assert(rr0.subrange(0, rest@.len() as int + 1).drop_last() =~= rr0.subrange(
                0,
                rest@.len() as int,
            ));
            assert(rr == rr0[rest@.len() as int]);
        }
        let v = normalize_row(&columns, rr);
        let ghost rows_before = rows@;
        rows.insert(0, v);
        proof {
            assert forall|j: int|
                0 <= j < rows@.len() implies row_obj_ok(
                columns@,
                (#[trigger] rr0[rest@.len() + j])@,
                rows@[j],
            ) by {
                if j == 0 {
                    assert(rows@[0] == v);
                } else {
                    assert(rows@[j] == rows_before[j - 1]);
                    assert(row_obj_ok(
                        columns@,
                        (rr0[rest@.len() + 1 + (j - 1)])@,
                        rows_before[j - 1],
                    ));
                }
            }
        }
    }
    proof {
        assert forall|i: int|
            0 <= i < rr0.len() implies row_obj_ok(columns@, (#[trigger] rr0[i])@, rows@[i]) by {
            assert(row_obj_ok(columns@, (rr0[rest@.len() + i])@, rows@[i]));
        }
    }
    let count = rows.len() as u64;
    QueryResult { columns, rows, affected_rows: Some(count), success: true, error: None }
}

/// Opens the database file at `path` (or an in-memory instance for the
/// `:memory:` marker), registers the handle, and returns the fresh
/// connection identifier. A path that names no existing file is refused
/// without touching the engine.
pub fn connect_sqlite(dir: &mut Directory<rusqlite::Connection>, path: &str) -> (r: Result<
    String,
    DbError,
>)
    ensures
        match r {
            Ok(id) => is_identifier_text(id@) && exists|c: rusqlite::Connection|
                final (dir)@ == old(dir)@.insert(id@, c),
            Err(e) => {
                &&& final (dir)@ == old(dir)@
                &&& (e matches DbError::FileNotFound(_) || e matches DbError::ConnectionFailed(_))
                &&& (e matches DbError::FileNotFound(m) ==> m@ == "Database file does not exist: "@
                    + path@)
                &&& (path@ == ":memory:"@ ==> !(e matches DbError::FileNotFound(_)))
            },
        },
{
    let marker = str_eq(path, ":memory:");
    if !(marker || path_exists(path)) {
        return Err(DbError::FileNotFound("Database file does not exist: ".to_owned().concat(path)));
    }
    match open_connection(path) {
        Ok(conn) => {
            let ghost gconn = conn;
            let id = dir.register(conn);
            proof {
                assert(dir@ == old(dir)@.insert(id@, gconn));
                assert(exists|c: rusqlite::Connection| dir@ == old(dir)@.insert(id@, c));
            }
            Ok(id)
        },
        Err(e) => {
            let msg = "Failed to connect to SQLite database: ".to_owned().concat(
                sqlite_error_text(&e).as_str(),
            );
            Err(DbError::ConnectionFailed(msg))
        },
    }
}

/// Executes one statement against the connection registered under
/// `connection_id`: a read is prepared and its rows normalized, with
/// the number of rows returned as the affected-row count; a write
/// reports only its affected-row count.
pub fn execute_query(
    dir: &Directory<rusqlite::Connection>,
    connection_id: &str,
    query: &str,
) -> (r: Result<QueryResult, DbError>)
    ensures
        !dir@.contains_key(connection_id@) ==> (r matches Err(e) && e matches
            DbError::ConnectionNotFound(_) && e.message_view() == not_found_message(
            connection_id@,
        )),
        dir@.contains_key(connection_id@) ==> match r {
            Ok(qr) => {
                &&& qr.wf()
                &&& qr.success
                &&& qr.error is None
                &&& if is_read_query(query@) {
                    &&& qr.affected_rows == Some(qr.rows@.len() as u64)
                    &&& forall|i: int|
                        0 <= i < qr.rows@.len() ==> row_shape_ok(
                            qr.columns@,
                            #[trigger] qr.rows@[i],
                        )
                } else {
                    &&& qr.columns@.len() == 0
                    &&& qr.rows@.len() == 0
                    &&& qr.affected_rows is Some
                }
            },
            Err(e) => e matches DbError::StatementPrepareFailed(_) || e matches
                DbError::StatementExecutionFailed(_),
        },
{
    let conn = match dir.get_or_not_found(connection_id) {
        Ok(c) => c,
        Err(e) => {
            return Err(e);
        },
    };
    if classify_is_read(query) {
        let mut stmt = match prepare(conn, query) {
            Ok(s) => s,
            Err(e) => {
                let msg = "Failed to prepare statement: ".to_owned().concat(
                    sqlite_error_text(&e).as_str(),
                );
                return Err(DbError::StatementPrepareFailed(msg));
            },
        };
        let columns = statement_columns(&stmt);
        let ncols = columns.len();
        let mut rows = match start_query(&mut stmt) {
            Ok(r) => r,
            Err(e) => {
                let msg = "Failed to execute query: ".to_owned().concat(
                    sqlite_error_text(&e).as_str(),
                );
                return Err(DbError::StatementExecutionFailed(msg));
            },
        };
        let mut raw_rows: Vec<Vec<RawCell>> = Vec::new();
        let mut fuel: usize = usize::MAX;
        let mut done = false;
        while !done
            invariant
                ncols == columns@.len(),
                forall|i: int|
                    0 <= i < raw_rows@.len() ==> (#[trigger] raw_rows@[i])@.len() == columns@.len(),
            decreases fuel, (if done { 0int } else { 1int }),
        {
            if fuel == 0 {
                done = true;
            } else {
                fuel -= 1;
                match next_row(&mut rows, ncols) {
                    Some(cells) => raw_rows.push(cells),
                    None => {
                        done = true;
                    },
                }
            }
        }
        let ghost gcols = columns@;
        let ghost graw = raw_rows@;
        let qr = read_query_result(columns, raw_rows);
        proof {
            assert forall|i: int|
                0 <= i < qr.rows@.len() implies row_shape_ok(qr.columns@, #[trigger] qr.rows@[i]) by {
                assert(row_obj_ok(gcols, (graw[i])@, qr.rows@[i]));
            }
        }
        Ok(qr)
    } else {
        match run_write(conn, query) {
            Ok(affected) => Ok(QueryResult::write_result(affected as u64)),
            Err(e) => {
                let msg = "Failed to execute query: ".to_owned().concat(
                    sqlite_error_text(&e).as_str(),
                );
                Err(DbError::StatementExecutionFailed(msg))
            },
        }
    }
}

/// Removes and drops the connection registered under `connection_id`.
pub fn close_connection(dir: &mut Directory<rusqlite::Connection>, connection_id: &str) -> (r:
    Result<(), DbError>)
    ensures
        final (dir)@ == old(dir)@.remove(connection_id@),
        (r matches Ok(_)) <==> old(dir)@.contains_key(connection_id@),
        r matches Err(e) ==> e matches DbError::ConnectionNotFound(_) && e.message_view()
            == crate::registry::not_found_message(connection_id@),
{
    if dir.remove(connection_id) {
        Ok(())
    } else {
        Err(DbError::ConnectionNotFound(crate::registry::not_found_text(connection_id)))
    }
}

/// Closing a connection and then executing against the same identifier
/// always finds no connection: `close_connection` leaves the partition
/// at `old(dir)@.remove(connection_id@)`, a mapping without that
/// identifier, against which `execute_query` reports
/// `ConnectionNotFound`.
pub proof fn lemma_close_then_execute_not_found<H>(dir: Map<Seq<char>, H>, id: Seq<char>)
    ensures
        !dir.remove(id).contains_key(id),
{
}

/// The fixed catalog query that lists the database's tables in name
/// order.
pub fn tables_catalog_query() -> (r: &'static str)
    ensures
        r@ == "SELECT name FROM sqlite_master WHERE type='table' ORDER BY name"@,
{
    "SELECT name FROM sqlite_master WHERE type='table' ORDER BY name"
}

/// The names a catalog listing yields: the text of every row's single
/// cell, in row order, or nothing if any row's cell is not text.
pub open spec fn catalog_names(rows: Seq<Vec<RawCell>>) -> Option<Seq<String>>
    decreases rows.len(),
{
    if rows.len() == 0 {
        Some(Seq::empty())
    } else {
        match catalog_names(rows.drop_last()) {
            Some(prev) => match rows.last()@[0] {
                RawCell::Text(name) => Some(prev.push(name)),
                _ => None,
            },
            None => None,
        }
    }
}

proof fn lemma_catalog_names_none_extends(rows: Seq<Vec<RawCell>>, k: int)
    requires
        0 <= k <= rows.len(),
        catalog_names(rows.subrange(0, k)) is None,
    ensures
        catalog_names(rows) is None,
    decreases rows.len() - k,
{
    if k == rows.len() {
        assert(rows.subrange(0, rows.len() as int) =~= rows);
    } else {
        assert(rows.subrange(0, k + 1).drop_last() =~= rows.subrange(0, k));
        lemma_catalog_names_none_extends(rows, k + 1);
    }
}

/// Collects a catalog listing's names from its single-cell rows: every
/// name in row order when each cell is text, and the fixed collection
/// failure otherwise.
pub fn collect_table_names(rows: Vec<Vec<RawCell>>) -> (r: Result<Vec<String>, DbError>)
    requires
        forall|i: int| 0 <= i < rows@.len() ==> (#[trigger] rows@[i])@.len() == 1,
    ensures
        match catalog_names(rows@) {
            Some(names) => r matches Ok(v) && v@ == names,
            None => r matches Err(e) && e matches DbError::CatalogQueryFailed(m) && m@
                == "Failed to collect table names"@,
        },
{
    let mut names: Vec<String> = Vec::new();
    let n = rows.len();
    let mut i: usize = 0;
    proof {
        assert(rows@.subrange(0, 0) =~= Seq::<Vec<RawCell>>::empty());
    }
    while i < n
        invariant
            i <= n,
            n == rows@.len(),
            forall|j: int| 0 <= j < rows@.len() ==> (#[trigger] rows@[j])@.len() == 1,
            catalog_names(rows@.subrange(0, i as int)) == Some(names@),
        decreases n - i,
    {
        proof {
            assert(rows@.subrange(0, i as int + 1).drop_last() =~= rows@.subrange(0, i as int));
            assert(rows@.subrange(0, i as int + 1).last() == rows@[i as int]);
        }
        let row = &rows[i];
        match &row[0] {
            RawCell::Text(name) => {
                names.push(name.clone());
            },
            _ => {
                proof {
                    assert(catalog_names(rows@.subrange(0, i as int + 1)) is None);
                    lemma_catalog_names_none_extends(rows@, i as int + 1);
                }
                return Err(
                    DbError::CatalogQueryFailed("Failed to collect table names".to_owned()),
                );
            },
        }
        i += 1;
    }
    proof {
        assert(rows@.subrange(0, n as int) =~= rows@);
    }
    Ok(names)
}

/// Lists the table names of the connected database, in name order, by
/// running the fixed catalog query and collecting its text cells with
/// `collect_table_names`.
pub fn get_database_structure(
    dir: &Directory<rusqlite::Connection>,
    connection_id: &str,
) -> (r: Result<Vec<String>, DbError>)
    ensures
        match r {
            Ok(_) => dir@.contains_key(connection_id@),
            Err(e) => match e {
                DbError::ConnectionNotFound(m) => !dir@.contains_key(connection_id@) && m@
                    == not_found_message(connection_id@),
                DbError::StatementPrepareFailed(m) => dir@.contains_key(connection_id@)
                    && has_prefix(m@, "Failed to prepare statement: "@),
                DbError::CatalogQueryFailed(m) => dir@.contains_key(connection_id@) && (m@
                    == "Failed to collect table names"@ || has_prefix(
                    m@,
                    "Failed to query tables: "@,
                )),
                _ => false,
            },
        },
{
    let conn = match dir.get_or_not_found(connection_id) {
        Ok(c) => c,
        Err(e) => {
            return Err(e);
        },
    };
    let mut stmt = match prepare(conn, tables_catalog_query()) {
        Ok(s) => s,
        Err(e) => {
            let msg = "Failed to prepare statement: ".to_owned().concat(
                sqlite_error_text(&e).as_str(),
            );
            proof {
                assert(msg@.subrange(0, "Failed to prepare statement: "@.len() as int)
                    =~= "Failed to prepare statement: "@);
            }
            return Err(DbError::StatementPrepareFailed(msg));
        },
    };
    let mut rows = match start_query(&mut stmt) {
        Ok(r) => r,
        Err(e) => {
            let msg = "Failed to query tables: ".to_owned().concat(sqlite_error_text(&e).as_str());
            proof {
                assert(msg@.subrange(0, "Failed to query tables: "@.len() as int)
                    =~= "Failed to query tables: "@);
            }
            return Err(DbError::CatalogQueryFailed(msg));
        },
    };
    let mut raw_rows: Vec<Vec<RawCell>> = Vec::new();
    let mut fuel: usize = usize::MAX;
    let mut done = false;
    while !done
        invariant
            forall|i: int| 0 <= i < raw_rows@.len() ==> (#[trigger] raw_rows@[i])@.len() == 1,
        decreases fuel, (if done { 0int } else { 1int }),
    {
        if fuel == 0 {
            done = true;
        } else {
            fuel -= 1;
            match next_row(&mut rows, 1) {
                Some(cells) => raw_rows.push(cells),
                None => {
                    done = true;
                },
            }
        }
    }
    collect_table_names(raw_rows)
}

} // verus!
