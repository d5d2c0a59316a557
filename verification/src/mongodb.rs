//! The DocumentStore adapter's decision logic: synthesizing the
//! connection string, parsing the structured query document, planning
//! the operation to run, and shaping the canonical result from the
//! documents the store hands back. The network calls themselves are
//! driven by the caller, which feeds their outcomes to the verified
//! result builders here.

use vstd::prelude::*;
use crate::models::{CellValue, ConnectionConfig, DbError, QueryResult};
use crate::registry::{not_found_message, Directory};
use crate::text::{dec_string, has_prefix, str_eq, u64_to_string};

verus! {

broadcast use vstd::string::group_string_axioms;

#[verifier::external_type_specification]
#[verifier::external_body]
pub struct ExJsonValue(serde_json::Value);

#[verifier::external_type_specification]
#[verifier::external_body]
pub struct ExJsonNumber(serde_json::Number);

/// What parsing a query text yields: the query document in canonical
/// form, or the complete parse-failure message. The outcome depends on
/// the text alone.
pub uninterp spec fn json_parse_of(s: Seq<char>) -> Result<CellValue, String>;

/// Relies on `serde_json::from_str`: parses the query text into a JSON
/// value, which `model_of_json` then carries over into the canonical
/// value type one node at a time. Every failure message carries the
/// fixed prefix that this wrapper writes.
#[verifier::external_body]
fn parse_query_document(s: &str) -> (r: Result<CellValue, String>)
    ensures
        r == json_parse_of(s@),
        r matches Err(m) ==> has_prefix(m@, "Failed to parse MongoDB query as JSON: "@),
{
    match serde_json::from_str::<serde_json::Value>(s) {
        Ok(v) => Ok(model_of_json(v)),
        Err(e) => Err(format!("Failed to parse MongoDB query as JSON: {}", e)),
    }
}

/// Relies on the variant tags of `serde_json::Value`: each node is
/// carried over one-for-one into the canonical value type.
#[verifier::external_body]
fn model_of_json(v: serde_json::Value) -> CellValue {
    match v {
        serde_json::Value::Null => CellValue::Null,
        serde_json::Value::Bool(b) => CellValue::Bool(b),
        serde_json::Value::Number(n) => model_of_number(n),
        serde_json::Value::String(s) => CellValue::Str(s),
        serde_json::Value::Array(a) => CellValue::Arr(a.into_iter().map(model_of_json).collect()),
        serde_json::Value::Object(m) => CellValue::Obj(
            m.into_iter().map(|(k, x)| (k, model_of_json(x))).collect(),
        ),
    }
}

/// Relies on `serde_json::Number::as_i64` and `as_u64` to tell the
/// integer representations apart; any other number is carried as its
/// decimal text.
#[verifier::external_body]
fn model_of_number(n: serde_json::Number) -> CellValue {
    if let Some(i) = n.as_i64() {
        CellValue::Int(i)
    } else if let Some(u) = n.as_u64() {
        CellValue::UInt(u)
    } else {
        CellValue::Num(format!("{}", n))
    }
}

/// The first value under `key` in a field list, searched front to back.
pub open spec fn obj_get(pairs: Seq<(String, CellValue)>, key: Seq<char>) -> Option<CellValue>
    decreases pairs.len(),
{
    if pairs.len() == 0 {
        None
    } else if pairs.first().0@ == key {
        Some(pairs.first().1)
    } else {
        obj_get(pairs.drop_first(), key)
    }
}

/// The text under `key`, when the field is present and holds a string.
pub open spec fn obj_get_str(pairs: Seq<(String, CellValue)>, key: Seq<char>) -> Option<Seq<char>> {
    match obj_get(pairs, key) {
        Some(v) => match v {
            CellValue::Str(s) => Some(s@),
            _ => None,
        },
        None => None,
    }
}

/// The operation a query document asks for, with everything the store
/// needs to run it.
#[derive(Debug)]
pub enum DocumentOperation {
    Find { db: String, collection: String, filter: CellValue },
    InsertOne { db: String, collection: String, document: CellValue },
}

pub open spec fn is_malformed(r: Result<DocumentOperation, DbError>, msg: Seq<char>) -> bool {
    r matches Err(DbError::MalformedQuery(m)) && m@ == msg
}

/// The planning rule, field by field: `db`, `collection` and `operation`
/// must be present as strings; `find` takes an optional document-valued
/// `filter` (defaulting to the empty filter); `insertOne` requires a
/// document-valued `document`; any other operation is refused by name.
pub open spec fn plan_matches_fields(
    pairs: Seq<(String, CellValue)>,
    r: Result<DocumentOperation, DbError>,
) -> bool {
    if obj_get_str(pairs, "db"@) is None {
        is_malformed(r, "MongoDB query must include a 'db' field"@)
    } else if obj_get_str(pairs, "collection"@) is None {
        is_malformed(r, "MongoDB query must include a 'collection' field"@)
    } else if obj_get_str(pairs, "operation"@) is None {
        is_malformed(r, "MongoDB query must include an 'operation' field"@)
    } else {
        let dbv = obj_get_str(pairs, "db"@).unwrap();
        let collv = obj_get_str(pairs, "collection"@).unwrap();
        let opv = obj_get_str(pairs, "operation"@).unwrap();
        if opv == "find"@ {
            match obj_get(pairs, "filter"@) {
                None => r matches Ok(DocumentOperation::Find { db, collection, filter })
                    && db@ == dbv && collection@ == collv && (filter matches CellValue::Obj(fp)
                    && fp@.len() == 0),
                Some(f) => if f matches CellValue::Obj(_) {
                    r matches Ok(DocumentOperation::Find { db, collection, filter }) && db@ == dbv
                        && collection@ == collv && filter == f
                } else {
                    is_malformed(r, "Failed to parse filter: the filter must be a document"@)
                },
            }
        } else if opv == "insertOne"@ {
            match obj_get(pairs, "document"@) {
                Some(d) => if d matches CellValue::Obj(_) {
                    r matches Ok(DocumentOperation::InsertOne { db, collection, document })
                        && db@ == dbv && collection@ == collv && document == d
                } else {
                    is_malformed(r, "Failed to parse document: the document must be a document"@)
                },
                None => is_malformed(
                    r,
                    "MongoDB insertOne operation requires a 'document' field"@,
                ),
            }
        } else {
            r matches Err(DbError::UnsupportedOperation(m)) && m@
                == "Unsupported MongoDB operation: "@ + opv
        }
    }
}

/// How a query document plans: a non-document query is missing its `db`
/// field; a document plans by its fields.
pub open spec fn plan_matches(doc: CellValue, r: Result<DocumentOperation, DbError>) -> bool {
    match doc {
        CellValue::Obj(pairs) => plan_matches_fields(pairs@, r),
        _ => is_malformed(r, "MongoDB query must include a 'db' field"@),
    }
}

proof fn lemma_obj_get_step(s: Seq<(String, CellValue)>, i: int, key: Seq<char>)
    requires
        0 <= i < s.len(),
    ensures
        obj_get(s.skip(i), key) == (if s[i].0@ == key {
            Some(s[i].1)
        } else {
            obj_get(s.skip(i + 1), key)
        }),
{
    assert(s.skip(i).len() > 0);
    assert(s.skip(i)[0] == s[i]);
    assert(s.skip(i).drop_first() =~= s.skip(i + 1));
}

/// Plans the operation that a query document asks for.
pub fn plan_of_document(doc: CellValue) -> (r: Result<DocumentOperation, DbError>)
    ensures
        plan_matches(doc, r),
{
    proof {
        reveal_strlit("db");
        reveal_strlit("collection");
        reveal_strlit("operation");
        reveal_strlit("filter");
        reveal_strlit("document");
    }
    let pairs = match doc {
        CellValue::Obj(pairs) => pairs,
        _ => {
            return Err(
                DbError::MalformedQuery("MongoDB query must include a 'db' field".to_owned()),
            );
        },
    };
    let ghost gpairs = pairs@;
    let mut f_db: Option<CellValue> = None;
    let mut f_coll: Option<CellValue> = None;
    let mut f_op: Option<CellValue> = None;
    let mut f_filter: Option<CellValue> = None;
    let mut f_doc: Option<CellValue> = None;
    let mut rest = pairs;
    proof {
        assert(gpairs.subrange(0, gpairs.len() as int) =~= gpairs);
        assert(gpairs.skip(gpairs.len() as int) =~= Seq::<(String, CellValue)>::empty());
    }
    while rest.len() > 0
        invariant
            rest@.len() <= gpairs.len(),
            rest@ == gpairs.subrange(0, rest@.len() as int),
            f_db == obj_get(gpairs.skip(rest@.len() as int), "db"@),
            f_coll == obj_get(gpairs.skip(rest@.len() as int), "collection"@),
            f_op == obj_get(gpairs.skip(rest@.len() as int), "operation"@),
            f_filter == obj_get(gpairs.skip(rest@.len() as int), "filter"@),
            f_doc == obj_get(gpairs.skip(rest@.len() as int), "document"@),
        decreases rest@.len(),
    {
        let (k, v) = rest.pop().unwrap();
        proof {
            reveal_strlit("db");
            reveal_strlit("collection");
            reveal_strlit("operation");
            reveal_strlit("filter");
            reveal_strlit("document");
            let i = rest@.len() as int;
            assert(gpairs.subrange(0, i + 1).drop_last() =~= gpairs.subrange(0, i));
            assert(k == gpairs[i].0 && v == gpairs[i].1);
            lemma_obj_get_step(gpairs, i, "db"@);
            lemma_obj_get_step(gpairs, i, "collection"@);
            lemma_obj_get_step(gpairs, i, "operation"@);
            lemma_obj_get_step(gpairs, i, "filter"@);
            lemma_obj_get_step(gpairs, i, "document"@);
            // the five key literals all differ in length, so a match on
            // one of them rules out the other four
            assert("db"@.len() == 2);
            assert("collection"@.len() == 10);
            assert("operation"@.len() == 9);
            assert("filter"@.len() == 6);
            assert("document"@.len() == 8);
        }
        if str_eq(k.as_str(), "db") {
            f_db = Some(v);
        } else if str_eq(k.as_str(), "collection") {
            f_coll = Some(v);
        } else if str_eq(k.as_str(), "operation") {
            f_op = Some(v);
        } else if str_eq(k.as_str(), "filter") {
            f_filter = Some(v);
        } else if str_eq(k.as_str(), "document") {
            f_doc = Some(v);
        }
    }
    proof {
        assert(gpairs.skip(0) =~= gpairs);
    }
    let db = match f_db {
        Some(CellValue::Str(s)) => s,
        _ => {
            return Err(
                DbError::MalformedQuery("MongoDB query must include a 'db' field".to_owned()),
            );
        },
    };
    let collection = match f_coll {
        Some(CellValue::Str(s)) => s,
        _ => {
            return Err(
                DbError::MalformedQuery(
                    "MongoDB query must include a 'collection' field".to_owned(),
                ),
            );
        },
    };
    let op = match f_op {
        Some(CellValue::Str(s)) => s,
        _ => {
            return Err(
                DbError::MalformedQuery(
                    "MongoDB query must include an 'operation' field".to_owned(),
                ),
            );
        },
    };
    if str_eq(op.as_str(), "find") {
        match f_filter {
            None => Ok(
                DocumentOperation::Find { db, collection, filter: CellValue::Obj(Vec::new()) },
            ),
            Some(CellValue::Obj(fp)) => Ok(
                DocumentOperation::Find { db, collection, filter: CellValue::Obj(fp) },
            ),
            Some(_) => Err(
                DbError::MalformedQuery(
                    "Failed to parse filter: the filter must be a document".to_owned(),
                ),
            ),
        }
    } else if str_eq(op.as_str(), "insertOne") {
        match f_doc {
            Some(CellValue::Obj(dp)) => Ok(
                DocumentOperation::InsertOne { db, collection, document: CellValue::Obj(dp) },
            ),
            Some(_) => Err(
                DbError::MalformedQuery(
                    "Failed to parse document: the document must be a document".to_owned(),
                ),
            ),
            None => Err(
                DbError::MalformedQuery(
                    "MongoDB insertOne operation requires a 'document' field".to_owned(),
                ),
            ),
        }
    } else {
        Err(
            DbError::UnsupportedOperation(
                "Unsupported MongoDB operation: ".to_owned().concat(op.as_str()),
            ),
        )
    }
}

/// How the planning of `query` against a partition goes: an identifier
/// that is not registered there is refused with the message naming it;
/// otherwise text that does not parse is a malformed query carrying the
/// parse failure under its fixed prefix, and a document plans by its
/// fields.
pub open spec fn execute_plan_matches<D>(
    dir: Map<Seq<char>, D>,
    id: Seq<char>,
    query: Seq<char>,
    r: Result<DocumentOperation, DbError>,
) -> bool {
    if !dir.contains_key(id) {
        r matches Err(e) && e matches DbError::ConnectionNotFound(_) && e.message_view()
            == not_found_message(id)
    } else {
        match json_parse_of(query) {
            Ok(doc) => plan_matches(doc, r),
            Err(m) => r matches Err(e) && e matches DbError::MalformedQuery(mm) && mm == m
                && has_prefix(mm@, "Failed to parse MongoDB query as JSON: "@),
        }
    }
}

/// Checks the identifier against this partition and plans the operation
/// that the query document asks for. The caller runs the plan against
/// the store and shapes the outcome with the result builders below.
pub fn execute_plan<D>(dir: &Directory<D>, connection_id: &str, query: &str) -> (r: Result<
    DocumentOperation,
    DbError,
>)
    ensures
        execute_plan_matches(dir@, connection_id@, query@, r),
{
    match dir.get_or_not_found(connection_id) {
        Ok(_) => {},
        Err(e) => {
            return Err(e);
        },
    }
    match parse_query_document(query) {
        Ok(doc) => plan_of_document(doc),
        Err(m) => Err(DbError::MalformedQuery(m)),
    }
}

/// The field names of a document, in order; a non-document has none.
pub open spec fn keys_of(doc: CellValue) -> Seq<String> {
    match doc {
        CellValue::Obj(pairs) => pairs@.map_values(|p: (String, CellValue)| p.0),
        _ => Seq::empty(),
    }
}

/// Whether `names` already carries the text `t`.
pub open spec fn contains_name(names: Seq<String>, t: Seq<char>) -> bool {
    exists|i: int| 0 <= i < names.len() && (#[trigger] names[i])@ == t
}

/// `cols` extended with the keys not yet seen, in first-seen order.
pub open spec fn add_keys(cols: Seq<String>, keys: Seq<String>) -> Seq<String>
    decreases keys.len(),
{
    if keys.len() == 0 {
        cols
    } else {
        let prev = add_keys(cols, keys.drop_last());
        if contains_name(prev, keys.last()@) {
            prev
        } else {
            prev.push(keys.last())
        }
    }
}

/// The column list of a document stream: every field name, in the order
/// first seen, each exactly once.
pub open spec fn columns_of_docs(docs: Seq<CellValue>) -> Seq<String>
    decreases docs.len(),
{
    if docs.len() == 0 {
        Seq::empty()
    } else {
        add_keys(columns_of_docs(docs.drop_last()), keys_of(docs.last()))
    }
}

fn contains_name_exec(names: &Vec<String>, t: &str) -> (r: bool)
    ensures
        r == contains_name(names@, t@),
{
    let n = names.len();
    let mut i: usize = 0;
    while i < n
        invariant
            i <= n,
            n == names@.len(),
            forall|j: int| 0 <= j < i ==> (#[trigger] names@[j])@ != t@,
        decreases n - i,
    {
        if str_eq(names[i].as_str(), t) {
            return true;
        }
        i += 1;
    }
    false
}

/// Shapes the canonical result of a `find`: the documents become the
/// rows, their field names accumulate into the column list in first-seen
/// order, and the affected-row count is the number of documents.
pub fn find_query_result(docs: Vec<CellValue>) -> (r: QueryResult)
    ensures
        r.wf(),
        r.success,
        r.error is None,
        r.rows@ == docs@,
        r.columns@ == columns_of_docs(docs@),
        r.affected_rows == Some(docs@.len() as u64),
{
    let mut cols: Vec<String> = Vec::new();
    let n = docs.len();
    let mut i: usize = 0;
    proof {
        assert(docs@.subrange(0, 0) =~= Seq::<CellValue>::empty());
    }
    while i < n
        invariant
            i <= n,
            n == docs@.len(),
            cols@ == columns_of_docs(docs@.subrange(0, i as int)),
        decreases n - i,
    {
        proof {
            assert(docs@.subrange(0, i as int + 1).drop_last() =~= docs@.subrange(0, i as int));
            assert(docs@.subrange(0, i as int + 1).last() == docs@[i as int]);
        }
        let ghost prefix_cols = columns_of_docs(docs@.subrange(0, i as int));
        match &docs[i] {
            CellValue::Obj(pairs) => {
                let m = pairs.len();
                let mut j: usize = 0;
                proof {
                    assert(keys_of(docs@[i as int]).subrange(0, 0) =~= Seq::<String>::empty());
                }
                while j < m
                    invariant
                        j <= m,
                        m == keys_of(docs@[i as int]).len(),
                        docs@[i as int] matches CellValue::Obj(ps) && ps@ == pairs@,
                        m == pairs@.len(),
                        cols@ == add_keys(prefix_cols, keys_of(docs@[i as int]).subrange(0, j as int)),
                    decreases m - j,
                {
                    let ghost keys = keys_of(docs@[i as int]);
                    proof {
                        assert(keys.subrange(0, j as int + 1).drop_last() =~= keys.subrange(
                            0,
                            j as int,
                        ));
                        assert(keys.subrange(0, j as int + 1).last() == keys[j as int]);
                        assert(keys[j as int] == pairs@[j as int].0);
                    }
                    let name = &pairs[j].0;
                    if !contains_name_exec(&cols, name.as_str()) {
                        cols.push(name.clone());
                    }
                    j += 1;
                }
                proof {
                    assert(keys_of(docs@[i as int]).subrange(0, m as int) =~= keys_of(
                        docs@[i as int],
                    ));
                }
            },
            _ => {
                proof {
                    assert(keys_of(docs@[i as int]) =~= Seq::<String>::empty());
                    assert(add_keys(prefix_cols, Seq::<String>::empty()) == prefix_cols);
                }
            },
        }
        i += 1;
    }
    proof {
        assert(docs@.subrange(0, n as int) =~= docs@);
    }
    let count = docs.len() as u64;
    QueryResult { columns: cols, rows: docs, affected_rows: Some(count), success: true, error: None }
}

/// `r` is the single-row result reporting the identifier a successful
/// `insertOne` generated, under the fixed `insertedId` column.
pub open spec fn insert_one_result_ok(inserted_id: CellValue, r: QueryResult) -> bool {
    &&& r.success
    &&& r.error is None
    &&& r.columns@.len() == 1
    &&& r.columns@[0]@ == "insertedId"@
    &&& r.rows@.len() == 1
    &&& r.rows@[0] matches CellValue::Obj(pairs) && pairs@.len() == 1 && pairs@[0].0@
        == "insertedId"@ && pairs@[0].1 == inserted_id
    &&& r.affected_rows == Some(1u64)
}

/// Shapes the canonical result of a successful `insertOne` from the
/// identifier the store generated.
pub fn insert_one_result(inserted_id: CellValue) -> (r: QueryResult)
    ensures
        r.wf(),
        insert_one_result_ok(inserted_id, r),
{
    let mut columns: Vec<String> = Vec::new();
    columns.push("insertedId".to_owned());
    let mut pairs: Vec<(String, CellValue)> = Vec::new();
    pairs.push(("insertedId".to_owned(), inserted_id));
    let mut rows: Vec<CellValue> = Vec::new();
    rows.push(CellValue::Obj(pairs));
    QueryResult { columns, rows, affected_rows: Some(1), success: true, error: None }
}

/// The connection string for the document store: the supplied one, or
/// one synthesized from the discrete fields with the store's defaults.
pub open spec fn mongo_uri(c: &ConnectionConfig) -> Seq<char> {
    match c.connection_string {
        Some(s) => s@,
        None => {
            let auth = (match c.username {
                Some(u) => u@ + ":"@,
                None => Seq::<char>::empty(),
            }) + (match c.password {
                Some(p) => p@ + "@"@,
                None => Seq::<char>::empty(),
            });
            let host = match c.host {
                Some(h) => h@,
                None => "localhost"@,
            };
            let port: u16 = match c.port {
                Some(p) => p,
                None => 27017,
            };
            let dbseg = match c.database {
                Some(d) => "/"@ + d@,
                None => Seq::<char>::empty(),
            };
            "mongodb://"@ + auth + host + ":"@ + dec_string(port as int) + dbseg
        },
    }
}

/// Builds the connection string for the document store.
pub fn connection_string(config: &ConnectionConfig) -> (r: String)
    ensures
        r@ == mongo_uri(config),
{
    match &config.connection_string {
        Some(s) => s.clone(),
        None => {
            let mut r = "mongodb://".to_owned();
            match &config.username {
                Some(u) => {
                    r = r.concat(u.as_str()).concat(":");
                },
                None => {},
            }
            match &config.password {
                Some(p) => {
                    r = r.concat(p.as_str()).concat("@");
                },
                None => {},
            }
            match &config.host {
                Some(h) => {
                    r = r.concat(h.as_str());
                },
                None => {
                    r = r.concat("localhost");
                },
            }
            r = r.concat(":");
            let port: u16 = match config.port {
                Some(p) => p,
                None => 27017,
            };
            let ps = u64_to_string(port as u64);
            r = r.concat(ps.as_str());
            match &config.database {
                Some(d) => {
                    r = r.concat("/").concat(d.as_str());
                },
                None => {},
            }
            r
        },
    }
}

} // verus!
