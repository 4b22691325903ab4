use kvdb::{DBTransaction, DBValue, Error, KeyValueDB};
use std::sync::atomic::{AtomicUsize, Ordering};

/// A backend that counts what is written to it and cannot flush.
struct Unflushable {
    written: AtomicUsize,
}

impl KeyValueDB for Unflushable {
    fn get(&self, col: u32, _key: &[u8]) -> Result<Option<DBValue>, Error> {
        Err(Error::UnknownColumn { col })
    }

    fn get_by_prefix(&self, _col: u32, _prefix: &[u8]) -> Option<Box<[u8]>> {
        None
    }

    fn write_buffered(&self, transaction: DBTransaction) {
        self.written.fetch_add(transaction.ops.len(), Ordering::SeqCst);
    }

    fn flush(&self) -> Result<(), Error> {
        Err(Error::IoFailure)
    }

    fn iter(&self, _col: u32) -> Vec<(Box<[u8]>, Box<[u8]>)> {
        Vec::new()
    }

    fn iter_from_prefix(&self, _col: u32, _prefix: &[u8]) -> Vec<(Box<[u8]>, Box<[u8]>)> {
        Vec::new()
    }

    fn restore(&self, _new_db: &str) -> Result<(), Error> {
        Err(Error::Unsupported)
    }
}

#[test]
fn write_is_write_buffered_then_flush() {
    let db = Unflushable { written: AtomicUsize::new(0) };
    let mut transaction = db.transaction();
    assert!(transaction.ops.is_empty());
    transaction.put(0, b"a", b"1");
    transaction.delete(0, b"b");
    assert_eq!(db.write(transaction), Err(Error::IoFailure));
    assert_eq!(db.written.load(Ordering::SeqCst), 2);
}

#[test]
fn errors_compare_by_kind_and_column() {
    assert_eq!(Error::UnknownColumn { col: 1 }, Error::UnknownColumn { col: 1 });
    assert_ne!(Error::UnknownColumn { col: 1 }, Error::UnknownColumn { col: 2 });
    assert_ne!(Error::UnknownColumn { col: 0 }, Error::IoFailure);
    assert_ne!(Error::IoFailure, Error::Unsupported);
}
