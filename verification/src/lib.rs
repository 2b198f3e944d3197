//! Core of a content-addressed archive cache server.
//!
//! Uploaded byte streams are hashed incrementally while they arrive, stored
//! at most once per distinct content under a name derived from the hash, and
//! exposed through an in-memory cache index, an uploaded-file registry and a
//! single active-dataset selection.  Search, browse and article lookups are
//! modelled as decision functions over the outcomes that the archive
//! collaborator reports.

pub mod article;
pub mod hashing;
pub mod ingest;
pub mod progress;
pub mod search;
pub mod store;
