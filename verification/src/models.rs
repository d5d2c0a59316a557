use vstd::prelude::*;

verus! {

/// Canonical cell value used in every query result, independent of the
/// source engine. Floating-point numbers are carried as their decimal
/// text in `Num`, since the library reasons only about exact values.
#[derive(Debug, PartialEq, Eq)]
pub enum CellValue {
    Null,
    Bool(bool),
    Int(i64),
    UInt(u64),
    /// A numeric value that is not an integer, carried as decimal text.
    Num(String),
    Str(String),
    Arr(Vec<CellValue>),
    Obj(Vec<(String, CellValue)>),
}

/// The error kinds that any adapter operation can surface. Each carries
/// a human-readable message naming the operation and the underlying cause.
#[derive(Debug, PartialEq, Eq)]
pub enum DbError {
    ConnectionNotFound(String),
    FileNotFound(String),
    InvalidConnectionString(String),
    ConnectionFailed(String),
    MalformedQuery(String),
    UnsupportedOperation(String),
    StatementPrepareFailed(String),
    StatementExecutionFailed(String),
    CatalogQueryFailed(String),
}

impl DbError {
    /// The human-readable message carried by this error.
    pub fn message(&self) -> (r: &str)
        ensures
            r@ == self.message_view(),
    {
        match self {
            DbError::ConnectionNotFound(m) => m.as_str(),
            DbError::FileNotFound(m) => m.as_str(),
            DbError::InvalidConnectionString(m) => m.as_str(),
            DbError::ConnectionFailed(m) => m.as_str(),
            DbError::MalformedQuery(m) => m.as_str(),
            DbError::UnsupportedOperation(m) => m.as_str(),
            DbError::StatementPrepareFailed(m) => m.as_str(),
            DbError::StatementExecutionFailed(m) => m.as_str(),
            DbError::CatalogQueryFailed(m) => m.as_str(),
        }
    }

    pub open spec fn message_view(&self) -> Seq<char> {
        match self {
            DbError::ConnectionNotFound(m) => m@,
            DbError::FileNotFound(m) => m@,
            DbError::InvalidConnectionString(m) => m@,
            DbError::ConnectionFailed(m) => m@,
            DbError::MalformedQuery(m) => m@,
            DbError::UnsupportedOperation(m) => m@,
            DbError::StatementPrepareFailed(m) => m@,
            DbError::StatementExecutionFailed(m) => m@,
            DbError::CatalogQueryFailed(m) => m@,
        }
    }
}

/// Caller-supplied connection parameters. A fully-formed connection
/// string, when present, takes precedence over the discrete fields.
/// `options` is reserved for engine-specific settings; no adapter reads
/// it today.
#[derive(Debug)]
pub struct ConnectionConfig {
    pub host: Option<String>,
    pub port: Option<u16>,
    pub username: Option<String>,
    pub password: Option<String>,
    pub database: Option<String>,
    pub connection_string: Option<String>,
    pub options: Option<Vec<(String, String)>>,
}

/// Outcome of a connect operation, always reported as a structured value
/// rather than a hard failure, so a caller can render either case.
#[derive(Debug)]
pub struct ConnectionResponse {
    pub connection_id: String,
    pub message: String,
    pub success: bool,
}

/// Canonical output of a query: column names in first-seen order, one
/// `CellValue::Obj` per row, and an optional affected-row count.
#[derive(Debug)]
pub struct QueryResult {
    pub columns: Vec<String>,
    pub rows: Vec<CellValue>,
    pub affected_rows: Option<u64>,
    pub success: bool,
    pub error: Option<String>,
}

impl QueryResult {
    /// The result-shape invariant: a failed result carries no columns or
    /// rows and has a populated error; a successful one has no error.
    pub open spec fn wf(&self) -> bool {
        &&& !self.success ==> self.columns@.len() == 0 && self.rows@.len() == 0
            && self.error is Some
        &&& self.success ==> self.error is None
    }

    /// A successful result of a write operation: only the affected-row
    /// count is populated.
    pub fn write_result(affected: u64) -> (r: QueryResult)
        ensures
            r.wf(),
            r.success,
            r.columns@.len() == 0,
            r.rows@.len() == 0,
            r.affected_rows == Some(affected),
            r.error is None,
    {
        QueryResult {
            columns: Vec::new(),
            rows: Vec::new(),
            affected_rows: Some(affected),
            success: true,
            error: None,
        }
    }

    /// A failed result: empty columns and rows, and the message populated.
    pub fn failed_result(message: String) -> (r: QueryResult)
        ensures
            r.wf(),
            !r.success,
            r.columns@.len() == 0,
            r.rows@.len() == 0,
            r.affected_rows is None,
            r.error == Some(message),
    {
        QueryResult {
            columns: Vec::new(),
            rows: Vec::new(),
            affected_rows: None,
            success: false,
            error: Some(message),
        }
    }
}

/// One named object in a schema listing, possibly with children (a
/// database holding collections, a schema holding tables).
#[derive(Debug)]
pub struct DatabaseItem {
    pub name: String,
    pub item_type: String,
    pub children: Option<Vec<DatabaseItem>>,
}

/// A listing of schema objects returned by a discovery operation.
#[derive(Debug)]
pub struct DatabaseStructure {
    pub items: Vec<DatabaseItem>,
}

} // verus!
