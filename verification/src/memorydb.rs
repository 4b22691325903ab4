//! The in-memory engine: the columns behind one reader-writer lock.
//!
//! Every method takes the lock once, for the length of one call on the
//! columns, and lets go of it before it returns.  A transaction is applied
//! under one exclusive hold, so no reader sees half of it.
//!
//! The database is shared, and between two calls another holder may write to
//! it.  So a contract here says what holds of a call whatever the columns
//! held when it took the lock; what the call returns of given contents, and
//! what a write makes of them, is stated by the functions of `Columns` that
//! do the work.  Which columns are declared never changes, and is kept
//! outside the lock.

use crate::buffer::DBValue;
use crate::columns::Columns;
use crate::database::KeyValueDB;
use crate::error::Error;
use crate::lock::{created_with, lock_new, lock_read, lock_write, read_columns, write_columns};
use crate::state::{empty_state, StoreState};
use crate::transaction::DBTransaction;
use parking_lot::lock_api::RwLock;
use parking_lot::RawRwLock;
use vstd::prelude::*;

verus! {

/// A key-value database fulfilling the `KeyValueDB` trait, living in memory.
/// This is generally intended for tests and is not particularly optimized.
pub struct InMemory {
    num_cols: u32,
    columns: RwLock<RawRwLock, Columns>,
}

impl InMemory {
    /// The number of columns that the database was created with.
    pub closed spec fn num_columns(&self) -> u32 {
        self.num_cols
    }

    /// What the database held when it was created.  What it holds at a
    /// later time depends on the writes made since, by any holder.
    pub closed spec fn created_columns(&self) -> StoreState {
        created_with(self.columns)
    }
}

/// Create an in-memory database with the given number of columns.
/// Columns will be indexable by 0..`num_cols`, and all of them are empty.
pub fn create(num_cols: u32) -> (db: InMemory)
    ensures
        db.num_columns() == num_cols,
        db.created_columns() == empty_state(num_cols as nat),
{
    InMemory { num_cols, columns: lock_new(Columns::new(num_cols)) }
}

impl Default for InMemory {
    /// A database without columns.
    fn default() -> (db: InMemory)
        ensures
            db.num_columns() == 0,
            db.created_columns() == empty_state(0),
    {
        create(0)
    }
}

impl KeyValueDB for InMemory {
    /// The declared columns are those below the number given at creation.
    open spec fn declared(&self, col: u32) -> bool {
        col < self.num_columns()
    }

    /// There is no backing storage that a flush could fail on.
    open spec fn flush_never_fails(&self) -> bool {
        true
    }

    /// There is no backing storage to restore from either.
    open spec fn supports_restore(&self) -> bool {
        false
    }

    /// The value that the columns hold under `key` in column `col` at the
    /// time of the call.  Succeeds on every declared column; the only
    /// failure is that of an undeclared column.
    fn get(&self, col: u32, key: &[u8]) -> (r: Result<Option<DBValue>, Error>)
        ensures
            self.declared(col) ==> r is Ok,
            r matches Err(e) ==> e == (Error::UnknownColumn { col }),
    {
        if col >= self.num_cols {
            return Err(Error::UnknownColumn { col });
        }
        let guard = lock_read(&self.columns);
        let columns = read_columns(&guard);
        Ok(columns.find(col, key))
    }

    /// The value of the first key of column `col` that begins with `prefix`,
    /// at the time of the call.
    fn get_by_prefix(&self, col: u32, prefix: &[u8]) -> (r: Option<Box<[u8]>>) {
        if col >= self.num_cols {
            return None;
        }
        let guard = lock_read(&self.columns);
        let columns = read_columns(&guard);
        columns.get_by_prefix(col, prefix)
    }

    /// Applies the transaction to the columns, under one exclusive hold of
    /// the lock.
    fn write_buffered(&self, transaction: DBTransaction) {
        let mut guard = lock_write(&self.columns);
        let columns = write_columns(&mut guard);
        columns.write_buffered(transaction);
    }

    /// Nothing is buffered apart from the columns themselves: always succeeds.
    fn flush(&self) -> (r: Result<(), Error>) {
        Ok(())
    }

    /// A copy of the entries of column `col`, taken under the lock.
    fn iter(&self, col: u32) -> (items: Vec<(Box<[u8]>, Box<[u8]>)>) {
        if col >= self.num_cols {
            return Vec::new();
        }
        let guard = lock_read(&self.columns);
        let columns = read_columns(&guard);
        columns.iter(col)
    }

    /// A copy of the entries of column `col` whose key begins with `prefix`,
    /// taken under the lock.
    fn iter_from_prefix(&self, col: u32, prefix: &[u8]) -> (items: Vec<(Box<[u8]>, Box<[u8]>)>) {
        if col >= self.num_cols {
            return Vec::new();
        }
        let guard = lock_read(&self.columns);
        let columns = read_columns(&guard);
        columns.iter_from_prefix(col, prefix)
    }

    /// There is nothing to restore from: always fails.
    fn restore(&self, _new_db: &str) -> (r: Result<(), Error>)
        ensures
            r == Err::<(), Error>(Error::Unsupported),
    {
        Err(Error::Unsupported)
    }
}

} // verus!
