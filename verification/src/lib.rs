//! A key-value store organised into column families, with an in-memory engine.
//!
//! Keys and values are byte strings.  A store holds a fixed set of columns,
//! each an ordered map that is walked in the lexicographic order of its keys.
//! Changes are made by transactions: ordered batches of insertions and
//! deletions that a store applies as a whole.
//!
//! - [`keys`]: the order on keys.
//! - [`ordered`]: ordered listings of a column, as mathematics.
//! - [`buffer`]: the byte buffers that hold keys and values.
//! - [`transaction`]: operations and transactions.
//! - [`column`], [`columns`]: the data of a store and the functions on it.
//! - [`state`], [`laws`]: what a store holds and what holds of every store.
//! - [`database`]: the interface of a backing engine.
//! - [`memorydb`]: the in-memory engine.

pub mod buffer;
pub mod column;
pub mod columns;
pub mod database;
pub mod error;
pub mod keys;
pub mod laws;
mod lock;
pub mod memorydb;
pub mod ordered;
pub mod state;
pub mod transaction;

pub use crate::buffer::DBValue;
pub use crate::database::{KeyValueDB, KeyValueDBHandler, PREFIX_LEN};
pub use crate::error::Error;
pub use crate::memorydb::{create, InMemory};
pub use crate::transaction::{DBOp, DBTransaction};
