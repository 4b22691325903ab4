//! Write transactions: ordered batches of insert and delete operations.

use crate::buffer::{
    key_as_slice, key_bytes, key_clone, key_from_slice, value_as_slice, value_bytes, value_clone,
    value_from_slice, value_from_vec, DBValue,
};
use crate::keys::same_bytes;
use crate::state::{apply_op, apply_ops, lemma_apply_pushed, Op, StoreState};
use elastic_array::ElasticArray32;
use parity_bytes::Bytes;
use vstd::prelude::*;
use vstd::std_specs::cmp::PartialEqSpecImpl;

verus! {

/// Database operation.
pub enum DBOp {
    Insert { col: u32, key: ElasticArray32<u8>, value: DBValue },
    Delete { col: u32, key: ElasticArray32<u8> },
}

impl View for DBOp {
    type V = Op;

    open spec fn view(&self) -> Op {
        match *self {
            DBOp::Insert { col, key, value } => Op::Insert {
                col,
                key: key_bytes(key),
                value: value_bytes(value),
            },
            DBOp::Delete { col, key } => Op::Delete { col, key: key_bytes(key) },
        }
    }
}

impl PartialEq for DBOp {
    /// Two operations are equal when they stand for the same operation.
    fn eq(&self, other: &DBOp) -> (r: bool) {
        match (self, other) {
            (
                DBOp::Insert { col, key, value },
                DBOp::Insert { col: other_col, key: other_key, value: other_value },
            ) => {
                *col == *other_col && same_bytes(key_as_slice(key), key_as_slice(other_key))
                    && same_bytes(value_as_slice(value), value_as_slice(other_value))
            },
            (DBOp::Delete { col, key }, DBOp::Delete { col: other_col, key: other_key }) => {
                *col == *other_col && same_bytes(key_as_slice(key), key_as_slice(other_key))
            },
            _ => false,
        }
    }
}

impl PartialEqSpecImpl for DBOp {
    open spec fn obeys_eq_spec() -> bool {
        true
    }

    open spec fn eq_spec(&self, other: &DBOp) -> bool {
        self@ == other@
    }
}

impl Clone for DBOp {
    /// A copy that stands for the same operation.
    fn clone(&self) -> (copy: DBOp)
        ensures
            copy@ == self@,
    {
        match self {
            DBOp::Insert { col, key, value } => DBOp::Insert {
                col: *col,
                key: key_clone(key),
                value: value_clone(value),
            },
            DBOp::Delete { col, key } => DBOp::Delete { col: *col, key: key_clone(key) },
        }
    }
}

impl DBOp {
    /// Returns the key associated with this operation.
    pub fn key(&self) -> (key: &[u8])
        ensures
            key@ == self@.key(),
    {
        match self {
            DBOp::Insert { key, .. } => key_as_slice(key),
            DBOp::Delete { key, .. } => key_as_slice(key),
        }
    }

    /// Returns the column associated with this operation.
    pub fn col(&self) -> (col: u32)
        ensures
            col == self@.col(),
    {
        match self {
            DBOp::Insert { col, .. } => *col,
            DBOp::Delete { col, .. } => *col,
        }
    }
}

/// Write transaction. Batches a sequence of put/delete operations for efficiency.
pub struct DBTransaction {
    /// Database operations.
    pub ops: Vec<DBOp>,
}

impl View for DBTransaction {
    type V = Seq<Op>;

    /// The operations of the transaction, in the order in which they were added.
    open spec fn view(&self) -> Seq<Op> {
        self.ops@.map_values(|op: DBOp| op@)
    }
}

impl PartialEq for DBTransaction {
    /// Two transactions are equal when they hold the same operations in the
    /// same order.
    fn eq(&self, other: &DBTransaction) -> (r: bool) {
        let n = self.ops.len();
        if n != other.ops.len() {
            assert(self@.len() != other@.len());
            return false;
        }
        let mut i: usize = 0;
        while i < n
            invariant
                i <= n,
                n == self.ops.len(),
                n == other.ops.len(),
                forall|j: int| 0 <= j < i ==> self@[j] == other@[j],
            decreases n - i,
        {
            if !(self.ops[i] == other.ops[i]) {
                assert(self@[i as int] != other@[i as int]);
                return false;
            }
            i += 1;
        }
        assert(self@ =~= other@);
        true
    }
}

impl PartialEqSpecImpl for DBTransaction {
    open spec fn obeys_eq_spec() -> bool {
        true
    }

    open spec fn eq_spec(&self, other: &DBTransaction) -> bool {
        self@ == other@
    }
}

impl Default for DBTransaction {
    /// The empty transaction.
    fn default() -> (transaction: DBTransaction)
        ensures
            transaction@ == Seq::<Op>::empty(),
    {
        let transaction = DBTransaction { ops: Vec::new() };
        assert(transaction@ =~= Seq::<Op>::empty());
        transaction
    }
}

impl Clone for DBTransaction {
    /// A copy that holds the same operations in the same order.
    fn clone(&self) -> (copy: DBTransaction)
        ensures
            copy@ == self@,
    {
        let n = self.ops.len();
        let mut ops: Vec<DBOp> = Vec::with_capacity(n);
        let mut i: usize = 0;
        while i < n
            invariant
                i <= n,
                n == self.ops.len(),
                ops@.map_values(|op: DBOp| op@) == self@.take(i as int),
            decreases n - i,
        {
            let ghost before = ops@.map_values(|op: DBOp| op@);
            ops.push(self.ops[i].clone());
            assert(ops@.map_values(|op: DBOp| op@) =~= before.push(self@[i as int]));
            i += 1;
            assert(ops@.map_values(|op: DBOp| op@) =~= self@.take(i as int));
        }
        assert(self@.take(n as int) =~= self@);
        DBTransaction { ops }
    }
}

impl DBTransaction {
    /// Create new transaction.
    pub fn new() -> (transaction: DBTransaction)
        ensures
            transaction@ == Seq::<Op>::empty(),
    {
        DBTransaction::with_capacity(256)
    }

    /// Create new transaction with capacity.
    pub fn with_capacity(cap: usize) -> (transaction: DBTransaction)
        ensures
            transaction@ == Seq::<Op>::empty(),
    {
        let transaction = DBTransaction { ops: Vec::with_capacity(cap) };
        assert(transaction@ =~= Seq::<Op>::empty());
        transaction
    }

    /// Insert a key-value pair in the transaction. Any existing value will be
    /// overwritten upon write.
    ///
    /// The operation is appended: the transaction writes what it wrote
    /// before, and then the insertion.
    pub fn put(&mut self, col: u32, key: &[u8], value: &[u8])
        ensures
            final(self)@ == old(self)@.push(Op::Insert { col, key: key@, value: value@ }),
            forall|state: StoreState| #[trigger]
                apply_ops(state, final(self)@) == apply_op(
                    apply_ops(state, old(self)@),
                    Op::Insert { col, key: key@, value: value@ },
                ),
    {
        let ekey = key_from_slice(key);
        self.ops.push(DBOp::Insert { col, key: ekey, value: value_from_slice(value) });
        proof {
            let op = Op::Insert { col, key: key@, value: value@ };
            assert(self@ =~= old(self)@.push(op));
            lemma_apply_pushed(old(self)@, op, self@);
        }
    }

    /// Insert a key-value pair in the transaction. Any existing value will be
    /// overwritten upon write.
    ///
    /// As `put`, but the value is taken over, not copied.
    pub fn put_vec(&mut self, col: u32, key: &[u8], value: Bytes)
        ensures
            final(self)@ == old(self)@.push(Op::Insert { col, key: key@, value: value@ }),
            forall|state: StoreState| #[trigger]
                apply_ops(state, final(self)@) == apply_op(
                    apply_ops(state, old(self)@),
                    Op::Insert { col, key: key@, value: value@ },
                ),
    {
        let ekey = key_from_slice(key);
        let ghost op = Op::Insert { col, key: key@, value: value@ };
        self.ops.push(DBOp::Insert { col, key: ekey, value: value_from_vec(value) });
        proof {
            assert(self@ =~= old(self)@.push(op));
            lemma_apply_pushed(old(self)@, op, self@);
        }
    }

    /// Delete value by key.
    ///
    /// The operation is appended: the transaction writes what it wrote
    /// before, and then the deletion.
    pub fn delete(&mut self, col: u32, key: &[u8])
        ensures
            final(self)@ == old(self)@.push(Op::Delete { col, key: key@ }),
            forall|state: StoreState| #[trigger]
                apply_ops(state, final(self)@) == apply_op(
                    apply_ops(state, old(self)@),
                    Op::Delete { col, key: key@ },
                ),
    {
        let ekey = key_from_slice(key);
        self.ops.push(DBOp::Delete { col, key: ekey });
        proof {
            let op = Op::Delete { col, key: key@ };
            assert(self@ =~= old(self)@.push(op));
            lemma_apply_pushed(old(self)@, op, self@);
        }
    }
}

} // verus!
