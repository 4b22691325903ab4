//! The interface that every backing engine offers.

use crate::buffer::DBValue;
use crate::error::Error;
use crate::ordered::{all_begin_with, ascending, pair_bytes};
use crate::state::Op;
use crate::transaction::DBTransaction;
use std::sync::Arc;
use vstd::prelude::*;

verus! {

/// Required length of prefixes.
pub const PREFIX_LEN: usize = 12;

/// Generic key-value database.
///
/// This makes a distinction between "buffered" and "flushed" values. Values which have been
/// written can always be read, but may be present in an in-memory buffer. Values which have
/// been flushed have been moved to backing storage. There are certain operations which are
/// only guaranteed to operate on flushed data and not buffered, although implementations may
/// differ in this regard.
///
/// The contents of an interior buffer may be explicitly flushed using the `flush` method.
///
/// The `KeyValueDB` also deals in "column families", which can be thought of as distinct
/// stores within a database. Keys written in one column family will not be accessible from
/// any other. The number of column families must be specified at initialization, with a
/// differing interface for each database.
///
/// The API laid out here, along with the `Sync` bound implies interior synchronization for
/// implementation.  Every method takes `&self`, and other holders of the database may write
/// between two calls: a contract here speaks of one call only.
pub trait KeyValueDB: Sync + Send {
    /// Whether `col` is one of the columns that the database was opened with.
    /// A backend that does not say otherwise declares every column.
    open spec fn declared(&self, col: u32) -> bool {
        true
    }

    /// Whether a flush of this database cannot fail.  A backend that does
    /// not say otherwise makes no such promise.
    open spec fn flush_never_fails(&self) -> bool {
        false
    }

    /// Whether the database can be replaced by one found elsewhere.  A
    /// backend that does not say otherwise can.
    open spec fn supports_restore(&self) -> bool {
        true
    }

    /// Helper to create a new transaction.
    fn transaction(&self) -> (transaction: DBTransaction)
        ensures
            transaction@ == Seq::<Op>::empty(),
    {
        DBTransaction::new()
    }

    /// Get a value by key.  Fails for a column that is not declared.
    fn get(&self, col: u32, key: &[u8]) -> (r: Result<Option<DBValue>, Error>)
        ensures
            !self.declared(col) ==> r == Err::<Option<DBValue>, Error>(
                Error::UnknownColumn { col },
            ),
    ;

    /// Get a value by partial key. Only works for flushed data.  There is no
    /// value, and no error, for a column that is not declared.
    fn get_by_prefix(&self, col: u32, prefix: &[u8]) -> (r: Option<Box<[u8]>>)
        ensures
            !self.declared(col) ==> r is None,
    ;

    /// Write a transaction of changes to the buffer.
    fn write_buffered(&self, transaction: DBTransaction);

    /// Write a transaction of changes to the backing store: to the buffer
    /// first, then a flush.  Fails with what the flush fails with.
    ///
    /// What `write_buffered` promises of the transaction holds afterwards,
    /// and the result is the one that `flush` gave: whatever a backend
    /// promises of its `flush`, it thereby promises of `write`.
    fn write(&self, transaction: DBTransaction) -> (r: Result<(), Error>)
        ensures
            call_ensures(Self::write_buffered, (self, transaction), ()),
            call_ensures(Self::flush, (self,), r),
            r matches Err(e) ==> e == Error::IoFailure,
            self.flush_never_fails() ==> r is Ok,
    {
        self.write_buffered(transaction);
        self.flush()
    }

    /// Flush all buffered data.  The only failure is that of the backing storage.
    fn flush(&self) -> (r: Result<(), Error>)
        ensures
            r matches Err(e) ==> e == Error::IoFailure,
            self.flush_never_fails() ==> r is Ok,
    ;

    /// Iterate over flushed data for a given column, in ascending key order.
    /// A column that is not declared holds nothing.
    fn iter(&self, col: u32) -> (items: Vec<(Box<[u8]>, Box<[u8]>)>)
        ensures
            ascending(pair_bytes(items@)),
            !self.declared(col) ==> items@.len() == 0,
    ;

    /// Iterate over flushed data for a given column, starting from a given prefix:
    /// in ascending key order, over the keys that begin with `prefix`.
    fn iter_from_prefix(&self, col: u32, prefix: &[u8]) -> (items: Vec<(Box<[u8]>, Box<[u8]>)>)
        ensures
            ascending(pair_bytes(items@)),
            all_begin_with(pair_bytes(items@), prefix@),
            !self.declared(col) ==> items@.len() == 0,
    ;

    /// Attempt to replace this database with a new one located at the given path.
    /// Fails where the backend does not support that.
    fn restore(&self, new_db: &str) -> (r: Result<(), Error>)
        ensures
            !self.supports_restore() ==> r == Err::<(), Error>(Error::Unsupported),
    ;
}

/// Generic key-value database handler. This trait contains one function `open`.
/// When called, it opens database with a predefined config.
pub trait KeyValueDBHandler: Send + Sync {
    /// Open the predefined key-value database at the location `path`.  The
    /// only failure is that of the backing storage.
    fn open(&self, path: &str) -> (r: Result<Arc<dyn KeyValueDB>, Error>)
        ensures
            r matches Err(e) ==> e == Error::IoFailure,
    ;
}

} // verus!
