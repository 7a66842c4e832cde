//! Typed query layer over a hash-bucketed, read-only tabular store.
//!
//! The store is a fixed-schema "client database": an ordered set of tables,
//! each table an ordered set of rows distributed over a fixed number of
//! buckets by the bit pattern of the row's integer primary key. This crate
//! holds the store as plain values (the binary file parser is an external
//! collaborator) and provides, on top of it:
//!
//! - a column resolver that binds well-known column names to the positions
//!   found in a concrete file, tolerating extra or reordered columns;
//! - the hashed bucket lookup protocol shared by every point query;
//! - typed row projections and a structured serialization view;
//! - derived domain queries with exact first-match / last-match /
//!   all-matches policies and string formatting rules.

pub mod store;
pub mod text;
pub mod typed;
pub mod queries;
