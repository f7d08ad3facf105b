//! Client layer for an embedded, append-only B-tree storage engine.
//!
//! The engine itself (page format, on-disk layout, compaction) is an external
//! collaborator reached through a narrow native boundary; this crate is the
//! resource-safety and concurrency-contract layer around it: a structured
//! error taxonomy with context-sensitive equality, databases, transactions
//! with strict commit-or-abort semantics, cursors with a four-mode positioned
//! get, and restartable iterators. The observable state of the engine — an
//! ordered map of byte keys to byte values, with a committed history,
//! single-writer exclusion and stale-handle tracking — is modelled here as
//! verified data, so every contract below is proved against that model.

pub mod cursor;
pub mod database;
pub mod error;
pub mod keys;
pub mod store;
pub mod transaction;

pub use cursor::{CursorState, Iter, Position, RoCursor};
pub use database::{Database, DatabaseBuilder, DatabaseFlags};
pub use error::{Error, ErrorKind, Op};
pub use transaction::{RoTransaction, RwTransaction, Transaction, WriteFlags};
