//! Every database states its own schema version, and a build refuses to
//! operate on one it does not understand.
//!
//! | file vs build  | outcome |
//! |----------------|---------|
//! | equal          | proceed; stamping writes nothing |
//! | lower (incl. 0)| apply the schema idempotently, then stamp |
//! | higher         | refuse to open — [`DbError::SchemaVersion`] |
//!
//! The version is read from the file header (`PRAGMA user_version`) by the
//! caller and handed in; what is decided about it is decided here.

use vstd::prelude::*;
use crate::error::DbError;
use crate::text::{owned, int_to_string, decimal};
use vstd::string::StrSliceExecFns;

verus! {

/// One of PokeDumpster's databases.
#[derive(Debug, Clone, Copy, PartialEq, Eq, Structural, Hash)]
pub enum Database {
    /// The card catalog, `shared.sqlite`.
    Shared,
    /// A per-tenant collection, `tenants/<tenant>.sqlite`.
    User,
    /// The user registry, `registry.sqlite`.
    Registry,
}

/// Where a database file's schema version stands relative to this build.
#[derive(Debug, Clone, Copy, PartialEq, Eq, Structural, Hash)]
pub enum SchemaState {
    /// Older than this build — adopted on its next open.
    Behind,
    /// Exactly this build's version.
    Current,
    /// Newer than this build understands — refused.
    Ahead,
}

impl Database {
    pub open spec fn spec_version(self) -> i64 {
        match self {
            Database::Shared => 2,
            Database::User => 2,
            Database::Registry => 1,
        }
    }

    pub open spec fn spec_label(self) -> Seq<char> {
        match self {
            Database::Shared => "shared catalog"@,
            Database::User => "collection"@,
            Database::Registry => "tenant registry"@,
        }
    }

    pub open spec fn spec_state_of(self, found: i64) -> SchemaState {
        if found < self.spec_version() {
            SchemaState::Behind
        } else if found == self.spec_version() {
            SchemaState::Current
        } else {
            SchemaState::Ahead
        }
    }

    /// The schema version this build understands.
    pub fn version(self) -> (v: i64)
        ensures
            v == self.spec_version(),
    {
        match self {
            Database::Shared => 2,
            Database::User => 2,
            Database::Registry => 1,
        }
    }

    /// How this database is named in an operator-facing error.
    pub fn label(self) -> (l: &'static str)
        ensures
            l@ == self.spec_label(),
    {
        match self {
            Database::Shared => "shared catalog",
            Database::User => "collection",
            Database::Registry => "tenant registry",
        }
    }

    /// Where a file carrying `found` stands relative to this build.
    pub fn state_of(self, found: i64) -> (s: SchemaState)
        ensures
            s == self.spec_state_of(found),
    {
        let known = self.version();
        if found < known {
            SchemaState::Behind
        } else if found == known {
            SchemaState::Current
        } else {
            SchemaState::Ahead
        }
    }
}

impl SchemaState {
    pub open spec fn spec_label(self) -> Seq<char> {
        match self {
            SchemaState::Behind => "behind"@,
            SchemaState::Current => "current"@,
            SchemaState::Ahead => "ahead"@,
        }
    }

    /// A one-word operator-facing name.
    pub fn label(self) -> (l: &'static str)
        ensures
            l@ == self.spec_label(),
    {
        match self {
            SchemaState::Behind => "behind",
            SchemaState::Current => "current",
            SchemaState::Ahead => "ahead",
        }
    }
}

/// The refusal message for a file from the future at `file`.
pub open spec fn refusal_message(db: Database, found: i64, file: Seq<char>) -> Seq<char> {
    "the "@ + db.spec_label() + " database at "@ + file + " is schema version "@ + decimal(
        found as int,
    ) + ", but this build of pkdump understands version "@ + decimal(db.spec_version() as int)
        + " — refusing to open it. It was written by a newer build; run that build, or restore this database from a replica taken before the upgrade."@
}

/// May this build use a file whose header says `found`?
///
/// Returns the version found when the file is behind or current; refuses a
/// file that is ahead, naming both versions and `file`, the path backing
/// the schema.
pub fn gate(db: Database, found: i64, file: &str) -> (r: Result<i64, DbError>)
    ensures
        db.spec_state_of(found) != SchemaState::Ahead ==> r == Ok::<i64, DbError>(found),
        db.spec_state_of(found) == SchemaState::Ahead ==> (r matches Err(DbError::SchemaVersion(m))
            && m@ == refusal_message(db, found, file@)),
{
    if db.state_of(found) == SchemaState::Ahead {
        let mut m = owned("the ");
        m.append(db.label());
        m.append(" database at ");
        m.append(file);
        m.append(" is schema version ");
        let f = int_to_string(found);
        m.append(f.as_str());
        m.append(", but this build of pkdump understands version ");
        let k = int_to_string(db.version());
        m.append(k.as_str());
        m.append(
            " — refusing to open it. It was written by a newer build; run that build, or restore this database from a replica taken before the upgrade.",
        );
        return Err(DbError::SchemaVersion(m));
    }
    Ok(found)
}

/// The name the refusal uses for the file backing a schema: its path, or
/// `<schema>` when the path is unknown or empty.
pub fn file_label(path: Option<String>, schema: &str) -> (r: String)
    ensures
        match path {
            Some(p) => if p@.len() > 0 {
                r@ == p@
            } else {
                r@ == "<"@ + schema@ + ">"@
            },
            None => r@ == "<"@ + schema@ + ">"@,
        },
{
    match path {
        Some(p) => {
            if p.as_str().unicode_len() > 0 {
                return p;
            }
        },
        None => {},
    }
    let mut r = owned("<");
    r.append(schema);
    r.append(">");
    r
}

/// Stamping a file whose header says `found` writes something only when
/// the file does not already carry this build's version.
pub open spec fn spec_needs_stamp(db: Database, found: i64) -> bool {
    found != db.spec_version()
}

/// Whether stamping a file whose header says `found` writes anything.
pub fn needs_stamp(db: Database, found: i64) -> (r: bool)
    ensures
        r == spec_needs_stamp(db, found),
{
    found != db.version()
}

/// [`gate`] refuses a file exactly when its state is `Ahead`: a report
/// built on [`Database::state_of`] says what opening it would do.
pub proof fn lemma_ahead_is_exactly_what_the_gate_refuses(db: Database, found: i64)
    ensures
        (db.spec_state_of(found) == SchemaState::Ahead) <==> found > db.spec_version(),
{
}

/// The version this build writes is one it accepts, and stamping a file
/// that carries it writes nothing: re-stamping is a no-op.
pub proof fn lemma_stamped_version_is_current(db: Database)
    ensures
        db.spec_state_of(db.spec_version()) == SchemaState::Current,
        !spec_needs_stamp(db, db.spec_version()),
{
}

/// An unversioned file (version 0) is adopted, never refused.
pub proof fn lemma_unversioned_is_adopted(db: Database)
    ensures
        db.spec_state_of(0) == SchemaState::Behind,
{
}

/// The schema version of a database file, from what reading it gave
/// (`read`: the stamp, or the storage engine's message). A failure names
/// the file — with a fleet of tenants, which file is the whole answer.
pub fn version_of_file(path: &str, read: Result<i64, String>) -> (r: Result<i64, DbError>)
    ensures
        read matches Ok(v) ==> r == Ok::<i64, DbError>(v),
        read matches Err(m) ==> (r matches Err(DbError::Env(msg)) && msg@ == "reading the schema version of "@ + path@
            + ": "@ + m@),
{
    match read {
        Ok(v) => Ok(v),
        Err(m) => {
            let a = crate::text::cat3("reading the schema version of ", path, ": ");
            Err(DbError::Env(crate::text::cat(a.as_str(), m.as_str())))
        },
    }
}

} // verus!
