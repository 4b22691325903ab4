use kvdb::{create, Error, InMemory, KeyValueDB, KeyValueDBHandler, PREFIX_LEN};
use std::sync::Arc;

#[test]
fn get_fails_with_non_existing_column() {
    let db = create(1);
    assert!(db.get(1, &[]).is_err());
}

#[test]
fn put_and_get() {
    let db = create(1);

    let key1 = b"key1";

    let mut transaction = db.transaction();
    transaction.put(0, key1, b"horse");
    db.write_buffered(transaction);
    assert_eq!(&*db.get(0, key1).unwrap().unwrap(), b"horse");
}

#[test]
fn delete_and_get() {
    let db = create(1);

    let key1 = b"key1";

    let mut transaction = db.transaction();
    transaction.put(0, key1, b"horse");
    db.write_buffered(transaction);
    assert_eq!(&*db.get(0, key1).unwrap().unwrap(), b"horse");

    let mut transaction = db.transaction();
    transaction.delete(0, key1);
    db.write_buffered(transaction);
    assert!(db.get(0, key1).unwrap().is_none());
}

#[test]
fn iter() {
    let db = create(1);

    let key1 = b"key1";
    let key2 = b"key2";

    let mut transaction = db.transaction();
    transaction.put(0, key1, key1);
    transaction.put(0, key2, key2);
    db.write_buffered(transaction);

    let contents: Vec<_> = db.iter(0).into_iter().collect();
    assert_eq!(contents.len(), 2);
    assert_eq!(&*contents[0].0, key1);
    assert_eq!(&*contents[0].1, key1);
    assert_eq!(&*contents[1].0, key2);
    assert_eq!(&*contents[1].1, key2);
}

#[test]
fn iter_from_prefix() {
    let db = create(1);

    let key1 = b"0";
    let key2 = b"a";
    let key3 = b"ab";

    let mut transaction = db.transaction();
    transaction.put(0, key1, key1);
    transaction.put(0, key2, key2);
    transaction.put(0, key3, key3);
    db.write_buffered(transaction);

    let contents: Vec<_> = db.iter_from_prefix(0, b"").into_iter().collect();
    assert_eq!(contents.len(), 3);
    assert_eq!(&*contents[0].0, key1);
    assert_eq!(&*contents[0].1, key1);
    assert_eq!(&*contents[1].0, key2);
    assert_eq!(&*contents[1].1, key2);
    assert_eq!(&*contents[2].0, key3);
    assert_eq!(&*contents[2].1, key3);

    let contents: Vec<_> = db.iter_from_prefix(0, b"0").into_iter().collect();
    assert_eq!(contents.len(), 1);
    assert_eq!(&*contents[0].0, key1);
    assert_eq!(&*contents[0].1, key1);

    let contents: Vec<_> = db.iter_from_prefix(0, b"a").into_iter().collect();
    assert_eq!(contents.len(), 2);
    assert_eq!(&*contents[0].0, key2);
    assert_eq!(&*contents[0].1, key2);
    assert_eq!(&*contents[1].0, key3);
    assert_eq!(&*contents[1].1, key3);

    let contents: Vec<_> = db.iter_from_prefix(0, b"ab").into_iter().collect();
    assert_eq!(contents.len(), 1);
    assert_eq!(&*contents[0].0, key3);
    assert_eq!(&*contents[0].1, key3);

    let contents: Vec<_> = db.iter_from_prefix(0, b"abc").into_iter().collect();
    assert_eq!(contents.len(), 0);
}

#[test]
fn get_on_unknown_column_names_the_column() {
    let db = create(2);
    assert_eq!(db.get(2, b"k").unwrap_err(), Error::UnknownColumn { col: 2 });
    assert_eq!(db.get(u32::MAX, b"k").unwrap_err(), Error::UnknownColumn { col: u32::MAX });
    assert!(db.get(0, b"k").unwrap().is_none());
    assert!(db.get(1, b"k").unwrap().is_none());
}

#[test]
fn store_without_columns_knows_no_column() {
    let db = create(0);
    assert_eq!(db.get(0, b"k").unwrap_err(), Error::UnknownColumn { col: 0 });
    assert!(db.get_by_prefix(0, b"").is_none());
    assert!(db.iter(0).is_empty());

    let db = InMemory::default();
    assert_eq!(db.get(0, b"k").unwrap_err(), Error::UnknownColumn { col: 0 });
}

#[test]
fn get_by_prefix_on_unknown_column_is_none() {
    let db = create(1);
    let mut transaction = db.transaction();
    transaction.put(0, b"key", b"value");
    db.write_buffered(transaction);
    assert!(db.get_by_prefix(1, b"").is_none());
    assert!(db.get_by_prefix(1, b"key").is_none());
    assert!(db.get_by_prefix(7, b"k").is_none());
}

#[test]
fn get_by_prefix_gives_the_value_of_the_first_match() {
    let db = create(1);
    let mut transaction = db.transaction();
    transaction.put(0, b"b", b"third");
    transaction.put(0, b"abc", b"second");
    transaction.put(0, b"ab", b"first");
    transaction.put(0, b"a0", b"zeroth");
    db.write_buffered(transaction);

    assert_eq!(&*db.get_by_prefix(0, b"").unwrap(), b"zeroth");
    assert_eq!(&*db.get_by_prefix(0, b"a").unwrap(), b"zeroth");
    assert_eq!(&*db.get_by_prefix(0, b"ab").unwrap(), b"first");
    assert_eq!(&*db.get_by_prefix(0, b"abc").unwrap(), b"second");
    assert_eq!(&*db.get_by_prefix(0, b"b").unwrap(), b"third");
    assert!(db.get_by_prefix(0, b"abcd").is_none());
    assert!(db.get_by_prefix(0, b"c").is_none());
}

#[test]
fn iter_is_ascending_whatever_the_order_of_insertion() {
    let forward = create(1);
    let mut transaction = forward.transaction();
    transaction.put(0, b"key1", b"key1");
    transaction.put(0, b"key2", b"key2");
    forward.write_buffered(transaction);

    let backward = create(1);
    let mut transaction = backward.transaction();
    transaction.put(0, b"key2", b"key2");
    transaction.put(0, b"key1", b"key1");
    backward.write_buffered(transaction);

    for db in [forward, backward] {
        let contents = db.iter(0);
        assert_eq!(contents.len(), 2);
        assert_eq!(&*contents[0].0, b"key1");
        assert_eq!(&*contents[0].1, b"key1");
        assert_eq!(&*contents[1].0, b"key2");
        assert_eq!(&*contents[1].1, b"key2");
    }
}

#[test]
fn iter_orders_keys_bytewise() {
    let db = create(1);
    let keys: [&[u8]; 7] = [b"b", b"", b"ab", b"a", &[0xff], &[0x00], b"aa"];
    let mut transaction = db.transaction();
    for key in keys {
        transaction.put(0, key, key);
    }
    db.write_buffered(transaction);

    let expected: [&[u8]; 7] = [b"", &[0x00], b"a", b"aa", b"ab", b"b", &[0xff]];
    let contents = db.iter(0);
    assert_eq!(contents.len(), expected.len());
    for (item, key) in contents.iter().zip(expected) {
        assert_eq!(&*item.0, key);
        assert_eq!(&*item.1, key);
    }
}

#[test]
fn iter_on_unknown_column_is_empty() {
    let db = create(1);
    let mut transaction = db.transaction();
    transaction.put(0, b"key", b"value");
    db.write_buffered(transaction);
    assert!(db.iter(1).is_empty());
    assert!(db.iter_from_prefix(1, b"").is_empty());
    assert!(db.iter_from_prefix(1, b"key").is_empty());
}

#[test]
fn operation_on_unknown_column_is_skipped() {
    let db = create(2);
    let mut transaction = db.transaction();
    transaction.put(0, b"a", b"1");
    transaction.put(1, b"b", b"2");
    db.write_buffered(transaction);

    let mut transaction = db.transaction();
    transaction.put(2, b"a", b"lost");
    transaction.delete(5, b"b");
    transaction.put(1, b"c", b"3");
    transaction.put(u32::MAX, b"d", b"lost");
    db.write_buffered(transaction);

    assert_eq!(&*db.get(0, b"a").unwrap().unwrap(), b"1");
    assert_eq!(&*db.get(1, b"b").unwrap().unwrap(), b"2");
    assert_eq!(&*db.get(1, b"c").unwrap().unwrap(), b"3");
    assert!(db.get(0, b"d").unwrap().is_none());
    assert!(db.get(1, b"d").unwrap().is_none());
    assert_eq!(db.iter(0).len(), 1);
    assert_eq!(db.iter(1).len(), 2);
    assert!(db.get(2, b"a").is_err());
    assert!(db.iter(2).is_empty());
}

#[test]
fn columns_are_independent() {
    let db = create(3);
    let mut transaction = db.transaction();
    transaction.put(0, b"key", b"zero");
    transaction.put(2, b"key", b"two");
    db.write_buffered(transaction);

    assert_eq!(&*db.get(0, b"key").unwrap().unwrap(), b"zero");
    assert!(db.get(1, b"key").unwrap().is_none());
    assert_eq!(&*db.get(2, b"key").unwrap().unwrap(), b"two");

    let mut transaction = db.transaction();
    transaction.delete(0, b"key");
    db.write_buffered(transaction);
    assert!(db.get(0, b"key").unwrap().is_none());
    assert_eq!(&*db.get(2, b"key").unwrap().unwrap(), b"two");
}

#[test]
fn later_operations_override_earlier_ones() {
    let db = create(1);
    let mut transaction = db.transaction();
    transaction.put(0, b"k", b"first");
    transaction.put(0, b"k", b"second");
    transaction.put(0, b"gone", b"x");
    transaction.delete(0, b"gone");
    transaction.delete(0, b"back");
    transaction.put(0, b"back", b"again");
    db.write_buffered(transaction);

    assert_eq!(&*db.get(0, b"k").unwrap().unwrap(), b"second");
    assert!(db.get(0, b"gone").unwrap().is_none());
    assert_eq!(&*db.get(0, b"back").unwrap().unwrap(), b"again");
    assert_eq!(db.iter(0).len(), 2);
}

#[test]
fn insert_then_delete_in_one_transaction() {
    let db = create(1);
    let mut transaction = db.transaction();
    transaction.put(0, b"key1", b"horse");
    transaction.delete(0, b"key1");
    db.write_buffered(transaction);
    assert!(db.get(0, b"key1").unwrap().is_none());
    assert!(db.iter(0).is_empty());
}

#[test]
fn delete_of_absent_key_changes_nothing() {
    let db = create(1);
    let mut transaction = db.transaction();
    transaction.put(0, b"a", b"1");
    transaction.delete(0, b"b");
    db.write_buffered(transaction);
    let contents = db.iter(0);
    assert_eq!(contents.len(), 1);
    assert_eq!(&*contents[0].0, b"a");
    assert_eq!(&*contents[0].1, b"1");
}

#[test]
fn empty_key_and_empty_value_are_stored() {
    let db = create(1);
    let mut transaction = db.transaction();
    transaction.put(0, b"", b"");
    db.write_buffered(transaction);
    let value = db.get(0, b"").unwrap().unwrap();
    assert_eq!(value.len(), 0);
    assert_eq!(&*db.get_by_prefix(0, b"").unwrap(), b"");
    let contents = db.iter(0);
    assert_eq!(contents.len(), 1);
    assert_eq!(contents[0].0.len(), 0);
    assert_eq!(contents[0].1.len(), 0);
}

#[test]
fn long_keys_and_values_are_kept_whole() {
    let key: Vec<u8> = (0..100u8).collect();
    let value: Vec<u8> = (0..=255u8).chain(0..=255u8).collect();
    let db = create(1);
    let mut transaction = db.transaction();
    transaction.put(0, &key, &value);
    transaction.put_vec(0, b"vec", value.clone());
    db.write_buffered(transaction);

    assert_eq!(&*db.get(0, &key).unwrap().unwrap(), &value[..]);
    assert_eq!(&*db.get(0, b"vec").unwrap().unwrap(), &value[..]);
    assert_eq!(&*db.get_by_prefix(0, &key[..40]).unwrap(), &value[..]);
    let contents = db.iter(0);
    assert_eq!(contents.len(), 2);
    assert_eq!(&*contents[0].0, &key[..]);
    assert_eq!(&*contents[0].1, &value[..]);
    assert_eq!(&*contents[1].0, b"vec");
    assert_eq!(&*contents[1].1, &value[..]);
}

#[test]
fn many_keys_are_found_again() {
    let db = create(1);
    let mut transaction = db.transaction();
    for i in (0..500u32).rev() {
        let key = [(i / 256) as u8, (i % 256) as u8];
        transaction.put(0, &key, &i.to_be_bytes());
    }
    db.write_buffered(transaction);

    let mut transaction = db.transaction();
    for i in (0..500u32).filter(|i| i % 3 == 0) {
        let key = [(i / 256) as u8, (i % 256) as u8];
        transaction.delete(0, &key);
    }
    db.write_buffered(transaction);

    for i in 0..500u32 {
        let key = [(i / 256) as u8, (i % 256) as u8];
        let found = db.get(0, &key).unwrap();
        if i % 3 == 0 {
            assert!(found.is_none());
        } else {
            assert_eq!(&*found.unwrap(), &i.to_be_bytes());
        }
    }
    let contents = db.iter(0);
    assert_eq!(contents.len(), 333);
    for pair in contents.windows(2) {
        assert!(pair[0].0 < pair[1].0);
    }
    assert_eq!(db.iter_from_prefix(0, &[1]).len(), 163);
}

#[test]
fn iter_is_unaffected_by_later_writes() {
    let db = create(1);
    let mut transaction = db.transaction();
    transaction.put(0, b"a", b"1");
    transaction.put(0, b"b", b"2");
    db.write_buffered(transaction);

    let all = db.iter(0);
    let from_a = db.iter_from_prefix(0, b"a");

    let mut transaction = db.transaction();
    transaction.delete(0, b"a");
    transaction.put(0, b"b", b"changed");
    transaction.put(0, b"aa", b"new");
    db.write_buffered(transaction);

    assert_eq!(all.len(), 2);
    assert_eq!(&*all[0].0, b"a");
    assert_eq!(&*all[0].1, b"1");
    assert_eq!(&*all[1].0, b"b");
    assert_eq!(&*all[1].1, b"2");
    assert_eq!(from_a.len(), 1);
    assert_eq!(&*from_a[0].0, b"a");
    assert_eq!(&*from_a[0].1, b"1");

    let now = db.iter(0);
    assert_eq!(now.len(), 2);
    assert_eq!(&*now[0].0, b"aa");
    assert_eq!(&*now[1].0, b"b");
    assert_eq!(&*now[1].1, b"changed");
}

#[test]
fn flush_succeeds() {
    let db = create(1);
    assert_eq!(db.flush(), Ok(()));
    let mut transaction = db.transaction();
    transaction.put(0, b"a", b"1");
    db.write_buffered(transaction);
    assert_eq!(db.flush(), Ok(()));
    assert_eq!(&*db.get(0, b"a").unwrap().unwrap(), b"1");
}

#[test]
fn write_applies_and_succeeds() {
    let db = create(1);
    let mut transaction = db.transaction();
    transaction.put(0, b"a", b"1");
    assert_eq!(db.write(transaction), Ok(()));
    assert_eq!(&*db.get(0, b"a").unwrap().unwrap(), b"1");

    let mut transaction = db.transaction();
    transaction.put(9, b"a", b"1");
    assert_eq!(db.write(transaction), Ok(()));
}

#[test]
fn restore_always_fails() {
    let db = create(1);
    assert_eq!(db.restore(""), Err(Error::Unsupported));
    assert_eq!(db.restore("/some/where"), Err(Error::Unsupported));
    let mut transaction = db.transaction();
    transaction.put(0, b"a", b"1");
    db.write_buffered(transaction);
    assert_eq!(db.restore("backup"), Err(Error::Unsupported));
    assert_eq!(&*db.get(0, b"a").unwrap().unwrap(), b"1");
}

#[test]
fn database_is_shared_behind_the_interface() {
    let db: Arc<dyn KeyValueDB> = Arc::new(create(1));
    let other = db.clone();
    let mut transaction = db.transaction();
    transaction.put(0, b"a", b"1");
    db.write_buffered(transaction);
    assert_eq!(&*other.get(0, b"a").unwrap().unwrap(), b"1");
}

struct InMemoryHandler {
    num_cols: u32,
}

impl KeyValueDBHandler for InMemoryHandler {
    fn open(&self, _path: &str) -> Result<Arc<dyn KeyValueDB>, Error> {
        Ok(Arc::new(create(self.num_cols)))
    }
}

#[test]
fn handler_opens_a_database() {
    let handler = InMemoryHandler { num_cols: 2 };
    let db = handler.open("anywhere").unwrap();
    assert!(db.get(1, b"k").unwrap().is_none());
    assert!(db.get(2, b"k").is_err());
}

#[test]
fn prefix_length_is_twelve() {
    assert_eq!(PREFIX_LEN, 12);
}

#[test]
fn get_succeeds_on_every_declared_column_after_any_write() {
    let db = create(3);
    let mut transaction = db.transaction();
    transaction.put(0, b"a", b"1");
    transaction.put(7, b"a", b"1");
    transaction.delete(2, b"a");
    transaction.delete(3, b"a");
    db.write_buffered(transaction);
    for col in 0..3 {
        assert!(db.get(col, b"a").is_ok());
        assert!(db.get(col, b"absent").unwrap().is_none());
    }
    for col in [3, 4, 7, u32::MAX] {
        assert_eq!(db.get(col, b"a").unwrap_err(), Error::UnknownColumn { col });
    }
}
