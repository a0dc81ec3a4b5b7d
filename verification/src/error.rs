//! Error type for the library.

use vstd::prelude::*;

verus! {

/// Anything that can go wrong deciding about a database.
///
/// Each variant carries an operator-facing message.
#[derive(Debug, Clone, PartialEq, Eq)]
pub enum DbError {
    /// A database failure reported by the storage engine.
    Sqlite(String),
    /// A bad name, id, or environment value.
    Env(String),
    /// A referenced row does not exist (HTTP 404 at the API boundary).
    NotFound(String),
    /// A request would violate an invariant (HTTP 409 at the API boundary).
    Conflict(String),
    /// An import could not be parsed or is malformed (HTTP 400).
    Import(String),
    /// A database's schema version is newer than this build understands.
    SchemaVersion(String),
    /// An embedded data file could not be read.
    Seed(String),
}

} // verus!
