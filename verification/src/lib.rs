//! A multi-backend database access layer: a registry of live
//! connections partitioned by engine kind, and the query-execution and
//! result-normalization pipeline that maps each engine's native values
//! onto one canonical tabular result shape.

pub mod dispatch;
pub mod models;
pub mod mongodb;
pub mod postgres;
pub mod registry;
pub mod sqlite;
pub mod text;
