//! Safir: a small key/value store that keeps string pairs between shell
//! sessions, partitioned into named environments.
//!
//! - `assoc`: association lists read as maps, and their lemmas.
//! - `entries`: the pairs of one environment.
//! - `document`: the store document in its flat and partitioned shapes, and
//!   the migration between them.
//! - `json`: the document as JSON text.
//! - `file_store`: the file-backed store and the laws it keeps.
//! - `flat_store`: a store of a single key/value map.
//! - `config`: the persisted settings.
//! - `sql`: statements for the database-backed store.
//! - `display`: the text shown to the user.
use vstd::prelude::*;

pub mod assoc;
pub mod config;
pub mod display;
pub mod document;
pub mod entries;
pub mod file_store;
pub mod flat_store;
pub mod json;
pub mod sql;

verus! {

/// A key and its value.
pub type KVPair = (String, String);

} // verus!
