use kvdb::{DBOp, DBTransaction, DBValue};

#[test]
fn new_transaction_is_empty() {
    assert!(DBTransaction::new().ops.is_empty());
    assert!(DBTransaction::with_capacity(0).ops.is_empty());
    assert!(DBTransaction::with_capacity(1000).ops.is_empty());
    assert!(DBTransaction::default().ops.is_empty());
}

#[test]
fn put_appends_an_insert() {
    let mut transaction = DBTransaction::new();
    transaction.put(3, b"key", b"value");
    assert_eq!(transaction.ops.len(), 1);
    match &transaction.ops[0] {
        DBOp::Insert { col, key, value } => {
            assert_eq!(*col, 3);
            assert_eq!(&**key, b"key");
            assert_eq!(&**value, b"value");
        }
        DBOp::Delete { .. } => panic!("an insert was put"),
    }
}

#[test]
fn put_vec_appends_an_insert() {
    let mut transaction = DBTransaction::new();
    transaction.put_vec(4, b"key", vec![1, 2, 3]);
    assert_eq!(transaction.ops.len(), 1);
    match &transaction.ops[0] {
        DBOp::Insert { col, key, value } => {
            assert_eq!(*col, 4);
            assert_eq!(&**key, b"key");
            assert_eq!(&**value, &[1, 2, 3]);
        }
        DBOp::Delete { .. } => panic!("an insert was put"),
    }
}

#[test]
fn delete_appends_a_delete() {
    let mut transaction = DBTransaction::new();
    transaction.delete(5, b"key");
    assert_eq!(transaction.ops.len(), 1);
    match &transaction.ops[0] {
        DBOp::Delete { col, key } => {
            assert_eq!(*col, 5);
            assert_eq!(&**key, b"key");
        }
        DBOp::Insert { .. } => panic!("a delete was put"),
    }
}

#[test]
fn operations_keep_their_order() {
    let mut transaction = DBTransaction::new();
    transaction.put(0, b"a", b"1");
    transaction.delete(1, b"b");
    transaction.put_vec(2, b"c", vec![3]);
    transaction.delete(0, b"a");
    assert_eq!(transaction.ops.len(), 4);
    let cols: Vec<u32> = transaction.ops.iter().map(|op| op.col()).collect();
    assert_eq!(cols, vec![0, 1, 2, 0]);
    let keys: Vec<&[u8]> = transaction.ops.iter().map(|op| op.key()).collect();
    assert_eq!(keys, vec![&b"a"[..], &b"b"[..], &b"c"[..], &b"a"[..]]);
}

#[test]
fn operation_gives_its_key_and_column() {
    let mut transaction = DBTransaction::new();
    transaction.put(7, b"inserted", b"value");
    transaction.delete(u32::MAX, b"");
    assert_eq!(transaction.ops[0].key(), b"inserted");
    assert_eq!(transaction.ops[0].col(), 7);
    assert_eq!(transaction.ops[1].key(), b"");
    assert_eq!(transaction.ops[1].col(), u32::MAX);
}

#[test]
fn column_is_not_checked_when_building() {
    let mut transaction = DBTransaction::new();
    transaction.put(u32::MAX, b"k", b"v");
    transaction.delete(123_456, b"k");
    assert_eq!(transaction.ops.len(), 2);
}

#[test]
fn long_key_is_kept_whole() {
    let key: Vec<u8> = (0..200u8).collect();
    let mut transaction = DBTransaction::new();
    transaction.put(0, &key, b"v");
    transaction.delete(0, &key);
    assert_eq!(transaction.ops[0].key(), &key[..]);
    assert_eq!(transaction.ops[1].key(), &key[..]);
}

#[test]
fn transaction_clone_is_equal() {
    let mut transaction = DBTransaction::new();
    transaction.put(0, b"a", b"1");
    transaction.delete(1, b"b");
    let copy = transaction.clone();
    assert!(copy == transaction);
    assert_eq!(copy.ops.len(), 2);
    assert_eq!(copy.ops[0].key(), b"a");
    assert_eq!(copy.ops[1].col(), 1);

    transaction.put(0, b"c", b"3");
    assert!(copy != transaction);
    assert_eq!(copy.ops.len(), 2);
}

#[test]
fn operation_clone_is_equal() {
    let mut transaction = DBTransaction::new();
    transaction.put(0, b"a", b"1");
    transaction.put(0, b"a", b"2");
    transaction.delete(0, b"a");
    let insert = transaction.ops[0].clone();
    assert!(insert == transaction.ops[0]);
    assert!(insert != transaction.ops[1]);
    assert!(insert != transaction.ops[2]);
    let delete = transaction.ops[2].clone();
    assert!(delete == transaction.ops[2]);
    match insert {
        DBOp::Insert { col, key, value } => {
            assert_eq!(col, 0);
            assert_eq!(&*key, b"a");
            assert_eq!(&*value, b"1");
        }
        DBOp::Delete { .. } => panic!("an insert was cloned"),
    }
}

#[test]
fn value_holds_its_bytes() {
    let value = DBValue::from_slice(b"horse");
    assert_eq!(&*value, b"horse");
}

#[test]
fn transactions_are_equal_when_their_operations_are() {
    let mut a = DBTransaction::new();
    let mut b = DBTransaction::with_capacity(1);
    assert!(a == b);
    a.put(0, b"k", b"v");
    assert!(a != b);
    b.put_vec(0, b"k", b"v".to_vec());
    assert!(a == b);
    a.delete(0, b"k");
    b.delete(1, b"k");
    assert!(a != b);
}

#[test]
fn operations_differ_by_kind_column_key_or_value() {
    let mut t = DBTransaction::new();
    t.put(0, b"k", b"v");
    t.put(0, b"k", b"v");
    t.put(1, b"k", b"v");
    t.put(0, b"j", b"v");
    t.put(0, b"k", b"w");
    t.delete(0, b"k");
    t.delete(0, b"k");
    t.delete(1, b"k");
    t.delete(0, b"j");
    assert!(t.ops[0] == t.ops[1]);
    assert!(t.ops[0] != t.ops[2]);
    assert!(t.ops[0] != t.ops[3]);
    assert!(t.ops[0] != t.ops[4]);
    assert!(t.ops[0] != t.ops[5]);
    assert!(t.ops[5] == t.ops[6]);
    assert!(t.ops[5] != t.ops[7]);
    assert!(t.ops[5] != t.ops[8]);
}
