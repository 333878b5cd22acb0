//! A typed, transactional access layer over an embedded ordered key-value
//! store: serialized values, ordered range scans and batched mutation in
//! chunks of bounded size.

pub mod batch;
pub mod db;
pub mod db_serialization;
pub mod encoding;
pub mod engine;
pub mod error;
pub mod key;
pub mod scan;
pub mod table;
pub mod transaction;

pub use crate::db::DB;
pub use crate::db_serialization::{deserialize, serialize, RawBytes, Storable};
pub use crate::error::{EngineFailure, Error, ErrorClass};
