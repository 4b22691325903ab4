//! What a store holds and what is written to it, as mathematics: one map
//! per declared column, operations on keys, and the effect that operations
//! and transactions have on a store.

use crate::error::Error;
use crate::ordered::ColumnMap;
use vstd::prelude::*;

verus! {

/// What a database operation stands for: its column, its key and, for an
/// insertion, its value, as plain byte strings.
pub enum Op {
    Insert { col: u32, key: Seq<u8>, value: Seq<u8> },
    Delete { col: u32, key: Seq<u8> },
}

impl Op {
    /// The column that the operation addresses.
    pub open spec fn col(self) -> u32 {
        match self {
            Op::Insert { col, .. } => col,
            Op::Delete { col, .. } => col,
        }
    }

    /// The key that the operation addresses.
    pub open spec fn key(self) -> Seq<u8> {
        match self {
            Op::Insert { key, .. } => key,
            Op::Delete { key, .. } => key,
        }
    }
}

/// The contents of a store: the column with identifier `c` is at index `c`.
pub type StoreState = Seq<ColumnMap>;

/// The store with `n` declared columns, all of them empty.
pub open spec fn empty_state(n: nat) -> StoreState {
    Seq::new(n, |c: int| ColumnMap::empty())
}

/// Whether `col` is one of the declared columns.
pub open spec fn declared(state: StoreState, col: u32) -> bool {
    (col as int) < state.len()
}

/// The contents of column `col`; an undeclared column holds nothing.
pub open spec fn column_of(state: StoreState, col: u32) -> ColumnMap {
    if declared(state, col) {
        state[col as int]
    } else {
        ColumnMap::empty()
    }
}

/// What a lookup of `key` in column `col` gives: an error for an undeclared
/// column, else the value stored under the key, if there is one.
pub open spec fn lookup(state: StoreState, col: u32, key: Seq<u8>) -> Result<
    Option<Seq<u8>>,
    Error,
> {
    if !declared(state, col) {
        Err(Error::UnknownColumn { col })
    } else if state[col as int].contains_key(key) {
        Ok(Some(state[col as int][key]))
    } else {
        Ok(None)
    }
}

/// The store after one operation.  An insertion overwrites, a deletion of an
/// absent key changes nothing, and an operation on an undeclared column
/// changes nothing either.
pub open spec fn apply_op(state: StoreState, op: Op) -> StoreState {
    match op {
        Op::Insert { col, key, value } => if declared(state, col) {
            state.update(col as int, state[col as int].insert(key, value))
        } else {
            state
        },
        Op::Delete { col, key } => if declared(state, col) {
            state.update(col as int, state[col as int].remove(key))
        } else {
            state
        },
    }
}

/// The store after the operations of a transaction, applied in order.
pub open spec fn apply_ops(state: StoreState, ops: Seq<Op>) -> StoreState
    decreases ops.len(),
{
    if ops.len() == 0 {
        state
    } else {
        apply_op(apply_ops(state, ops.drop_last()), ops.last())
    }
}

/// A transaction with one more operation writes what it wrote before, and
/// then what the operation does, whatever the store holds.
pub proof fn lemma_apply_pushed(ops: Seq<Op>, op: Op, pushed: Seq<Op>)
    requires
        pushed == ops.push(op),
    ensures
        forall|state: StoreState| #[trigger]
            apply_ops(state, pushed) == apply_op(apply_ops(state, ops), op),
{
    assert(pushed.drop_last() =~= ops);
}

} // verus!
