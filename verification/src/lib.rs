//! Verified core of a laboratory-inventory bulk-ingestion pipeline.
//!
//! The library normalizes heterogeneous date representations, decodes
//! loosely-typed tabular rows into candidate records, resolves identities
//! through preloaded caches, and reconciles candidate records against an
//! in-memory model of the persistent store under precise conflict-merge
//! contracts.  Everything here is verified; the surrounding I/O shell
//! (HTTP, files, the real database) lives outside the library and hands
//! in plain values.

pub mod cache;
pub mod dates;
pub mod decode;
pub mod engine;
pub mod ext;
pub mod fts;
pub mod models;
pub mod records;
pub mod room;
pub mod search;
pub mod store;
pub mod text;
