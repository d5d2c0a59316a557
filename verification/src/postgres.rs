//! The RelationalServer adapter's decision logic: synthesizing the
//! connection string, classifying statements as reads or writes, and
//! resolving each result cell under the documented preference order of
//! native types. The caller drives the wire protocol and feeds each
//! cell's typed extraction attempts to the verified resolver here.

use vstd::prelude::*;
use crate::models::{CellValue, ConnectionConfig, DbError, QueryResult};
use crate::registry::{not_found_message, Directory};
use crate::text::{ci_has_prefix_at, ci_starts_with, dec_string, skip_ws_index, str_eq, trimmed,
    u64_to_string};

verus! {

/// A statement is a read exactly when, after leading whitespace, it
/// begins with `select`, `with`, `show` or `explain` in any case;
/// anything else is treated as a write or DDL statement.
pub open spec fn is_read_statement(q: Seq<char>) -> bool {
    ||| ci_starts_with(trimmed(q), "select"@)
    ||| ci_starts_with(trimmed(q), "with"@)
    ||| ci_starts_with(trimmed(q), "show"@)
    ||| ci_starts_with(trimmed(q), "explain"@)
}

/// Classifies a statement as a read or a write.
pub fn classify_statement(query: &str) -> (r: bool)
    ensures
        r == is_read_statement(query@),
{
    let i = skip_ws_index(query);
    ci_has_prefix_at(query, i, "select") || ci_has_prefix_at(query, i, "with") || ci_has_prefix_at(
        query,
        i,
        "show",
    ) || ci_has_prefix_at(query, i, "explain")
}

/// What extracting one cell as a double-precision value yielded: the
/// column was not of that type, the value was the SQL null, a finite
/// value carried as its decimal text, or a non-finite value (which the
/// canonical form records as null).
#[derive(Debug, PartialEq, Eq)]
pub enum FloatProbe {
    NotFloat,
    Null,
    Finite(String),
    NonFinite,
}

/// The typed extraction attempts for one result cell. `None` in a field
/// means the column could not be read at that type; `Some(None)` means
/// it could and held the SQL null. `debug` is the textual fallback
/// rendering used when every typed attempt fails.
#[derive(Debug, PartialEq, Eq)]
pub struct CellProbes {
    pub text: Option<Option<String>>,
    pub int4: Option<Option<i32>>,
    pub int8: Option<Option<i64>>,
    pub float8: FloatProbe,
    pub boolean: Option<Option<bool>>,
    pub debug: String,
}

/// The documented preference order for resolving a cell: text, then
/// 32-bit integer, then 64-bit integer, then double-precision, then
/// boolean, then the textual fallback. A null at the first type that
/// matches resolves to the canonical null.
pub open spec fn resolved(p: CellProbes) -> CellValue {
    match p.text {
        Some(o) => match o {
            Some(s) => CellValue::Str(s),
            None => CellValue::Null,
        },
        None => match p.int4 {
            Some(o) => match o {
                Some(v) => CellValue::Int(v as i64),
                None => CellValue::Null,
            },
            None => match p.int8 {
                Some(o) => match o {
                    Some(v) => CellValue::Int(v),
                    None => CellValue::Null,
                },
                None => match p.float8 {
                    FloatProbe::Finite(s) => CellValue::Num(s),
                    FloatProbe::NonFinite => CellValue::Null,
                    FloatProbe::Null => CellValue::Null,
                    FloatProbe::NotFloat => match p.boolean {
                        Some(o) => match o {
                            Some(b) => CellValue::Bool(b),
                            None => CellValue::Null,
                        },
                        None => CellValue::Str(p.debug),
                    },
                },
            },
        },
    }
}

/// Resolves one cell from its typed extraction attempts.
pub fn resolve_cell(p: CellProbes) -> (v: CellValue)
    ensures
        v == resolved(p),
{
    match p.text {
        Some(Some(s)) => CellValue::Str(s),
        Some(None) => CellValue::Null,
        None => match p.int4 {
            Some(Some(v)) => CellValue::Int(v as i64),
            Some(None) => CellValue::Null,
            None => match p.int8 {
                Some(Some(v)) => CellValue::Int(v),
                Some(None) => CellValue::Null,
                None => match p.float8 {
                    FloatProbe::Finite(s) => CellValue::Num(s),
                    FloatProbe::NonFinite => CellValue::Null,
                    FloatProbe::Null => CellValue::Null,
                    FloatProbe::NotFloat => match p.boolean {
                        Some(Some(b)) => CellValue::Bool(b),
                        Some(None) => CellValue::Null,
                        None => CellValue::Str(p.debug),
                    },
                },
            },
        },
    }
}

/// `v` is the row object pairing each column name with the resolution
/// of the matching cell's extraction attempts.
pub open spec fn pg_row_obj(columns: Seq<String>, probes: Seq<CellProbes>, v: CellValue) -> bool {
    v matches CellValue::Obj(pairs) && pairs.len() == columns.len() && (forall|j: int|
        0 <= j < columns.len() ==> (#[trigger] pairs[j]).0 == columns[j] && pairs[j].1 == resolved(
            probes[j],
        ))
}

/// Builds the row object for one native row from its cells' extraction
/// attempts.
pub fn resolve_row(columns: &Vec<String>, probes: Vec<CellProbes>) -> (v: CellValue)
    requires
        probes@.len() == columns@.len(),
    ensures
        pg_row_obj(columns@, probes@, v),
{
    let ghost probes0 = probes@;
    let mut pairs: Vec<(String, CellValue)> = Vec::new();
    let mut rest = probes;
    while rest.len() > 0
        invariant
            probes0.len() == columns@.len(),
            rest@.len() + pairs@.len() == columns@.len(),
            rest@ == probes0.subrange(0, rest@.len() as int),
            forall|j: int|
                0 <= j < pairs@.len() ==> (#[trigger] pairs@[j]).0 == columns@[rest@.len() + j]
                    && pairs@[j].1 == resolved(probes0[rest@.len() + j]),
        decreases rest@.len(),
    {
        let c = rest.pop().unwrap();
        let i = rest.len();
        proof {
            assert(probes0.subrange(0, i as int + 1).drop_last() =~= probes0.subrange(0, i as int));
            assert(c == probes0[i as int]);
        }
        let name = (&columns[i]).clone();
        let v = resolve_cell(c);
        pairs.insert(0, (name, v));
    }
    proof {
        assert(forall|j: int|
            0 <= j < pairs@.len() ==> (#[trigger] pairs@[j]).0 == columns@[j] && pairs@[j].1
                == resolved(probes0[j]));
    }
    CellValue::Obj(pairs)
}

/// `r` is the canonical result of a read: the column names, one row
/// object per native row, and the row count as the affected-row count.
pub open spec fn pg_read_result_ok(
    columns: Seq<String>,
    rows: Seq<Vec<CellProbes>>,
    r: QueryResult,
) -> bool {
    &&& r.success
    &&& r.error is None
    &&& r.columns@ == columns
    &&& r.rows@.len() == rows.len()
    &&& forall|i: int| 0 <= i < rows.len() ==> pg_row_obj(columns, (#[trigger] rows[i])@, r.rows@[i])
    &&& r.affected_rows == Some(rows.len() as u64)
}

/// Assembles the canonical result of a read from the column names and
/// each row's extraction attempts.
pub fn read_query_result(columns: Vec<String>, rows: Vec<Vec<CellProbes>>) -> (r: QueryResult)
    requires
        forall|i: int|
            0 <= i < rows@.len() ==> (#[trigger] rows@[i])@.len() == columns@.len(),
    ensures
        r.wf(),
        pg_read_result_ok(columns@, rows@, r),
{
    let ghost rows0 = rows@;
    let mut out: Vec<CellValue> = Vec::new();
    let mut rest = rows;
    while rest.len() > 0
        invariant
            rest@.len() + out@.len() == rows0.len(),
            rest@ == rows0.subrange(0, rest@.len() as int),
            forall|i: int| 0 <= i < rows0.len() ==> (#[trigger] rows0[i])@.len() == columns@.len(),
            forall|j: int|
                0 <= j < out@.len() ==> pg_row_obj(
                    columns@,
                    (#[trigger] rows0[rest@.len() + j])@,
                    out@[j],
                ),
        decreases rest@.len(),
    {
        let rr = rest.pop().unwrap();
        proof {
            assert(rows0.subrange(0, rest@.len() as int + 1).drop_last() =~= rows0.subrange(
                0,
                rest@.len() as int,
            ));
            assert(rr == rows0[rest@.len() as int]);
        }
        let v = resolve_row(&columns, rr);
        let ghost out_before = out@;
        out.insert(0, v);
        proof {
            assert forall|j: int|
                0 <= j < out@.len() implies pg_row_obj(
                columns@,
                (#[trigger] rows0[rest@.len() + j])@,
                out@[j],
            ) by {
                if j == 0 {
                    assert(out@[0] == v);
                } else {
                    assert(out@[j] == out_before[j - 1]);
                    assert(pg_row_obj(
                        columns@,
                        (rows0[rest@.len() + 1 + (j - 1)])@,
                        out_before[j - 1],
                    ));
                }
            }
        }
    }
    proof {
        assert forall|i: int|
            0 <= i < rows0.len() implies pg_row_obj(columns@, (#[trigger] rows0[i])@, out@[i]) by {
            assert(pg_row_obj(columns@, (rows0[rest@.len() + i])@, out@[i]));
        }
    }
    let count = out.len() as u64;
    QueryResult { columns, rows: out, affected_rows: Some(count), success: true, error: None }
}

/// The names that came back from a catalog query, in order, skipping
/// the cells that could not be read as text.
pub open spec fn ok_names(cells: Seq<Option<String>>) -> Seq<String>
    decreases cells.len(),
{
    if cells.len() == 0 {
        Seq::empty()
    } else {
        let prev = ok_names(cells.drop_last());
        match cells.last() {
            Some(s) => prev.push(s),
            None => prev,
        }
    }
}

/// Collects the names of a catalog listing, keeping order and skipping
/// unreadable cells.
pub fn collect_names(cells: Vec<Option<String>>) -> (r: Vec<String>)
    ensures
        r@ == ok_names(cells@),
{
    let mut names: Vec<String> = Vec::new();
    let n = cells.len();
    let mut i: usize = 0;
    proof {
        assert(cells@.subrange(0, 0) =~= Seq::<Option<String>>::empty());
    }
    while i < n
        invariant
            i <= n,
            n == cells@.len(),
            names@ == ok_names(cells@.subrange(0, i as int)),
        decreases n - i,
    {
        proof {
            assert(cells@.subrange(0, i as int + 1).drop_last() =~= cells@.subrange(0, i as int));
            assert(cells@.subrange(0, i as int + 1).last() == cells@[i as int]);
        }
        match &cells[i] {
            Some(s) => names.push(s.clone()),
            None => {},
        }
        i += 1;
    }
    proof {
        assert(cells@.subrange(0, n as int) =~= cells@);
    }
    names
}

/// The connection string for the relational server: the supplied one,
/// or one synthesized from the discrete fields with the server's
/// defaults, the password appended only when present.
pub open spec fn pg_conn_string(c: &ConnectionConfig) -> Seq<char> {
    match c.connection_string {
        Some(s) => s@,
        None => {
            let host = match c.host {
                Some(h) => h@,
                None => "localhost"@,
            };
            let port: u16 = match c.port {
                Some(p) => p,
                None => 5432,
            };
            let user = match c.username {
                Some(u) => u@,
                None => "postgres"@,
            };
            let db = match c.database {
                Some(d) => d@,
                None => "postgres"@,
            };
            let base = "host="@ + host + " port="@ + dec_string(port as int) + " user="@ + user
                + " dbname="@ + db;
            match c.password {
                Some(p) => base + " password="@ + p@,
                None => base,
            }
        },
    }
}

/// Builds the connection string for the relational server.
pub fn connection_string(config: &ConnectionConfig) -> (r: String)
    ensures
        r@ == pg_conn_string(config),
{
    match &config.connection_string {
        Some(s) => s.clone(),
        None => {
            let mut r = "host=".to_owned();
            match &config.host {
                Some(h) => {
                    r = r.concat(h.as_str());
                },
                None => {
                    r = r.concat("localhost");
                },
            }
            r = r.concat(" port=");
            let port: u16 = match config.port {
                Some(p) => p,
                None => 5432,
            };
            let ps = u64_to_string(port as u64);
            r = r.concat(ps.as_str());
            r = r.concat(" user=");
            match &config.username {
                Some(u) => {
                    r = r.concat(u.as_str());
                },
                None => {
                    r = r.concat("postgres");
                },
            }
            r = r.concat(" dbname=");
            match &config.database {
                Some(d) => {
                    r = r.concat(d.as_str());
                },
                None => {
                    r = r.concat("postgres");
                },
            }
            match &config.password {
                Some(p) => {
                    r = r.concat(" password=").concat(p.as_str());
                },
                None => {},
            }
            r
        },
    }
}

/// Checks the identifier against this partition and classifies the
/// statement; the caller then runs it against the server and shapes the
/// outcome with the result builders above.
pub fn execute_route<R>(dir: &Directory<R>, connection_id: &str, query: &str) -> (r: Result<
    bool,
    DbError,
>)
    ensures
        match r {
            Ok(is_read) => dir@.contains_key(connection_id@) && is_read == is_read_statement(
                query@,
            ),
            Err(e) => {
                &&& !dir@.contains_key(connection_id@)
                &&& e matches DbError::ConnectionNotFound(_)
                &&& e.message_view() == not_found_message(connection_id@)
            },
        },
{
    match dir.get_or_not_found(connection_id) {
        Ok(_) => Ok(classify_statement(query)),
        Err(e) => Err(e),
    }
}

/// The fixed catalog query that lists the non-template databases in
/// name order.
pub fn list_databases_query() -> (r: &'static str)
    ensures
        r@ == "SELECT datname FROM pg_database WHERE datistemplate = false ORDER BY datname"@,
{
    "SELECT datname FROM pg_database WHERE datistemplate = false ORDER BY datname"
}

/// The fixed catalog query that lists a schema's tables in name order;
/// the schema name is bound as its one parameter.
pub fn list_tables_query() -> (r: &'static str)
    ensures
        r@ == "SELECT tablename FROM pg_tables WHERE schemaname = $1 ORDER BY tablename"@,
{
    "SELECT tablename FROM pg_tables WHERE schemaname = $1 ORDER BY tablename"
}

/// The schema a table listing runs against: the supplied one, or
/// `public`.
pub fn schema_or_default(schema: Option<String>) -> (r: String)
    ensures
        r@ == (match schema {
            Some(s) => s@,
            None => "public"@,
        }),
{
    match schema {
        Some(s) => s,
        None => "public".to_owned(),
    }
}

} // verus!
