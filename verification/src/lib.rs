//! `pkdump-db` — the rules of PokeDumpster's persistence layer, verified.
//!
//! The catalog, the per-tenant collection and the tenant registry live in
//! SQLite files; this crate holds what is decided about them: which names
//! and ids may become paths, what the registry's schema guarantees, which
//! schema versions a build may open, how imports resolve against the
//! catalog, how a binder page is assembled, and how exports are shaped.

pub mod error;
pub mod text;
pub mod paths;
pub mod seqs;
pub mod import;
pub mod order;
pub mod binder;
pub mod schema_version;
pub mod clock;
pub mod registry;
pub mod sealed_import;
pub mod json_backup;
pub mod bundles;
pub mod exports;
pub mod orders;
pub mod collection;
pub mod convergence;
pub mod connection;
pub mod raw_derivation;
pub mod cards;
pub mod shelves;
pub mod sealed;
pub mod manual_prices;
pub mod prices;
pub mod conditions;
pub mod catalog_prices;
pub mod latest_prices;
