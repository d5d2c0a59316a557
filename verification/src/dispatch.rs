//! The service object owning the three registry partitions, the
//! routing rules that pick an engine for an operation, and the
//! structured response a connect attempt reports.

use vstd::prelude::*;
use crate::models::{ConnectionResponse, DbError};
use crate::registry::Directory;
use crate::text::str_eq;

verus! {

/// The three supported backend categories.
#[derive(Debug, Clone, Copy, PartialEq, Eq, Structural)]
pub enum EngineKind {
    FileSql,
    Document,
    Relational,
}

/// The engine a caller's tag names, if any.
pub open spec fn kind_of(t: Seq<char>) -> Option<EngineKind> {
    if t == "sqlite"@ {
        Some(EngineKind::FileSql)
    } else if t == "mongodb"@ {
        Some(EngineKind::Document)
    } else if t == "postgres"@ {
        Some(EngineKind::Relational)
    } else {
        None
    }
}

/// Resolves a caller's engine tag.
pub fn engine_kind(db_type: &str) -> (r: Option<EngineKind>)
    ensures
        r == kind_of(db_type@),
{
    if str_eq(db_type, "sqlite") {
        Some(EngineKind::FileSql)
    } else if str_eq(db_type, "mongodb") {
        Some(EngineKind::Document)
    } else if str_eq(db_type, "postgres") {
        Some(EngineKind::Relational)
    } else {
        None
    }
}

/// The connection registry: one independent partition per engine kind,
/// constructed once and passed to every adapter operation. Each
/// partition is meant to be guarded independently by the embedder, so
/// that operations against different engine kinds never contend. `D`
/// and `R` are the live handle types of the document store and the
/// relational server; the file engine's handles are its own
/// connections.
pub struct Registry<D, R> {
    pub filesql: Directory<rusqlite::Connection>,
    pub document: Directory<D>,
    pub relational: Directory<R>,
}

impl<D, R> Registry<D, R> {
    /// A registry with no live connections.
    pub fn new() -> (r: Self)
        ensures
            r.filesql@ == Map::<Seq<char>, rusqlite::Connection>::empty(),
            r.document@ == Map::<Seq<char>, D>::empty(),
            r.relational@ == Map::<Seq<char>, R>::empty(),
    {
        Registry { filesql: Directory::new(), document: Directory::new(), relational: Directory::new() }
    }
}

/// Which partition serves a database listing for an identifier.
#[derive(Debug, Clone, Copy, PartialEq, Eq, Structural)]
pub enum ListDatabasesRoute {
    Document,
    Relational,
}

/// What `route_list_databases` reports for an identifier, given the
/// two partitions that can serve a listing.
pub open spec fn route_result_ok<D, R>(
    document: Map<Seq<char>, D>,
    relational: Map<Seq<char>, R>,
    id: Seq<char>,
    r: Result<ListDatabasesRoute, DbError>,
) -> bool {
    match r {
        Ok(route) => {
            &&& id.len() > 0
            &&& (route matches ListDatabasesRoute::Document ==> document.contains_key(id))
            &&& (route matches ListDatabasesRoute::Relational ==> {
                &&& !document.contains_key(id)
                &&& relational.contains_key(id)
            })
        },
        Err(e) => {
            &&& e matches DbError::ConnectionNotFound(_)
            &&& (id.len() == 0 ==> e.message_view() == "Invalid connection ID"@)
            &&& (id.len() > 0 ==> {
                &&& !document.contains_key(id)
                &&& !relational.contains_key(id)
                &&& e.message_view()
                    == "Could not find connection or the database type doesn't support listing databases"@
            })
        },
    }
}

/// Picks the partition that serves a database listing: the document
/// partition is probed first, and a failure there falls through
/// silently to the relational partition. An empty identifier, or one
/// that neither partition holds, is refused. The two partitions are
/// taken separately so a caller can guard each with its own lock.
pub fn route_list_databases<D, R>(
    document: &Directory<D>,
    relational: &Directory<R>,
    connection_id: &str,
) -> (r: Result<ListDatabasesRoute, DbError>)
    ensures
        route_result_ok(document@, relational@, connection_id@, r),
{
    if connection_id.unicode_len() == 0 {
        return Err(DbError::ConnectionNotFound("Invalid connection ID".to_owned()));
    }
    if document.get(connection_id).is_some() {
        return Ok(ListDatabasesRoute::Document);
    }
    if relational.get(connection_id).is_some() {
        return Ok(ListDatabasesRoute::Relational);
    }
    Err(
        DbError::ConnectionNotFound(
            "Could not find connection or the database type doesn't support listing databases".to_owned(),
        ),
    )
}

/// A non-empty identifier registered only in the relational partition
/// is served by the relational partition, even though the document
/// partition is probed first and its failure is silent.
pub proof fn lemma_relational_only_routes_relational<D, R>(
    document: Map<Seq<char>, D>,
    relational: Map<Seq<char>, R>,
    id: Seq<char>,
    r: Result<ListDatabasesRoute, DbError>,
)
    requires
        id.len() > 0,
        !document.contains_key(id),
        relational.contains_key(id),
        route_result_ok(document, relational, id, r),
    ensures
        r == Ok::<ListDatabasesRoute, DbError>(ListDatabasesRoute::Relational),
{
}

/// The structured outcome of a connect attempt: a fresh identifier with
/// a success message, or an empty identifier with a message naming the
/// failure, never a hard fault.
pub fn connection_response(
    result: Result<String, DbError>,
    ok_message: &str,
    fail_prefix: &str,
) -> (r: ConnectionResponse)
    ensures
        match result {
            Ok(id) => r.success && r.connection_id == id && r.message@ == ok_message@,
            Err(e) => !r.success && r.connection_id@.len() == 0 && r.message@ == fail_prefix@
                + ": "@ + e.message_view(),
        },
{
    match result {
        Ok(id) => ConnectionResponse {
            connection_id: id,
            message: ok_message.to_owned(),
            success: true,
        },
        Err(e) => ConnectionResponse {
            connection_id: String::new(),
            message: fail_prefix.to_owned().concat(": ").concat(e.message()),
            success: false,
        },
    }
}

} // verus!
