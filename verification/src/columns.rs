//! The columns of a store: the data that the in-memory engine guards.

use crate::buffer::{key_as_slice, key_into_vec, DBValue, value_bytes};
use crate::column::Column;
use crate::error::Error;
use crate::ordered::{first_with_prefix, lists, pair_bytes, with_prefix, ColumnMap};
use crate::state::{apply_op, apply_ops, column_of, declared, empty_state, lookup, StoreState};
use crate::transaction::{DBOp, DBTransaction};
use vstd::prelude::*;

verus! {

/// One ordered map per declared column; the column with identifier `c` is
/// the one at index `c`.  The set of columns is fixed when the value is made.
pub struct Columns {
    columns: Vec<Column>,
}

/// The contents of each column of `columns`.
spec fn maps_of(columns: Seq<Column>) -> StoreState {
    columns.map_values(|column: Column| column@)
}

impl View for Columns {
    type V = StoreState;

    /// The contents of the columns, by column identifier.
    closed spec fn view(&self) -> StoreState {
        maps_of(self.columns@)
    }
}

/// The outcome of a lookup, with the bytes that a found value holds.
pub open spec fn found_bytes(r: Result<Option<DBValue>, Error>) -> Result<Option<Seq<u8>>, Error> {
    match r {
        Ok(Some(value)) => Ok(Some(value_bytes(value))),
        Ok(None) => Ok(None),
        Err(e) => Err(e),
    }
}

impl Columns {
    /// Columns `0 .. num_cols`, all of them empty.
    pub fn new(num_cols: u32) -> (columns: Columns)
        ensures
            columns@ == empty_state(num_cols as nat),
    {
        let mut columns: Vec<Column> = Vec::new();
        let mut idx: u32 = 0;
        while idx < num_cols
            invariant
                idx <= num_cols,
                maps_of(columns@) == empty_state(idx as nat),
            decreases num_cols - idx,
        {
            let ghost before = maps_of(columns@);
            columns.push(Column::new());
            idx += 1;
            assert(maps_of(columns@) =~= before.push(ColumnMap::empty()));
            assert(before.push(ColumnMap::empty()) =~= empty_state(idx as nat));
        }
        Columns { columns }
    }

    /// The number of declared columns.
    pub fn num_columns(&self) -> (n: usize)
        ensures
            n == self@.len(),
    {
        self.columns.len()
    }

    /// The value stored under `key` in column `col`, if there is one.  An
    /// undeclared column holds nothing.
    pub fn find(&self, col: u32, key: &[u8]) -> (found: Option<DBValue>)
        ensures
            match found {
                Some(value) => column_of(self@, col).contains_key(key@) && value_bytes(value)
                    == column_of(self@, col)[key@],
                None => !column_of(self@, col).contains_key(key@),
            },
    {
        if (col as usize) < self.columns.len() {
            self.columns[col as usize].get(key)
        } else {
            None
        }
    }

    /// The value stored under `key` in column `col`.  Fails if and only if
    /// the column is not declared.
    pub fn get(&self, col: u32, key: &[u8]) -> (r: Result<Option<DBValue>, Error>)
        ensures
            found_bytes(r) == lookup(self@, col, key@),
    {
        if (col as usize) < self.columns.len() {
            Ok(self.find(col, key))
        } else {
            Err(Error::UnknownColumn { col })
        }
    }

    /// The value of the first key of column `col`, in key order, that begins
    /// with `prefix`; `None` if there is no such key or no such column.
    pub fn get_by_prefix(&self, col: u32, prefix: &[u8]) -> (r: Option<Box<[u8]>>)
        ensures
            match r {
                Some(value) => exists|k: Seq<u8>|
                    first_with_prefix(column_of(self@, col), prefix@, k) && #[trigger] column_of(
                        self@,
                        col,
                    )[k] == value@,
                None => forall|k: Seq<u8>| #[trigger]
                    column_of(self@, col).contains_key(k) ==> !prefix@.is_prefix_of(k),
            },
            !declared(self@, col) ==> r is None,
    {
        if (col as usize) < self.columns.len() {
            assert(column_of(self@, col) == self.columns[col as int]@);
            self.columns[col as usize].get_by_prefix(prefix)
        } else {
            None
        }
    }

    /// Applies the operations of `transaction` in order.  An operation on an
    /// undeclared column is skipped.
    pub fn write_buffered(&mut self, transaction: DBTransaction)
        ensures
            final(self)@ == apply_ops(old(self)@, transaction@),
    {
        let ops = transaction.ops;
        let ghost items = ops@;
        let ghost all = transaction@;
        for op in it: ops
            invariant
                it.seq() == items,
                all == items.map_values(|op: DBOp| op@),
                self@ == apply_ops(old(self)@, all.take(it.index() as int)),
        {
            let ghost done = it.index() as int;
            let ghost before = self@;
            proof {
                assert(all.take(done + 1).drop_last() =~= all.take(done));
                assert(all.take(done + 1).last() == op@);
            }
            match op {
                DBOp::Insert { col, key, value } => {
                    if (col as usize) < self.columns.len() {
                        self.columns[col as usize].insert(key_into_vec(key), value);
                    }
                },
                DBOp::Delete { col, key } => {
                    if (col as usize) < self.columns.len() {
                        self.columns[col as usize].remove(key_as_slice(&key));
                    }
                },
            }
            assert(self@ =~= apply_op(before, op@));
        }
        assert(all.take(all.len() as int) =~= all);
    }

    /// The entries of column `col` in ascending key order; none for an
    /// undeclared column.
    pub fn iter(&self, col: u32) -> (items: Vec<(Box<[u8]>, Box<[u8]>)>)
        ensures
            lists(pair_bytes(items@), column_of(self@, col)),
            !declared(self@, col) ==> items@.len() == 0,
    {
        if (col as usize) < self.columns.len() {
            self.columns[col as usize].iter()
        } else {
            Vec::new()
        }
    }

    /// The entries of column `col` whose key begins with `prefix`, in
    /// ascending key order; none for an undeclared column.
    pub fn iter_from_prefix(&self, col: u32, prefix: &[u8]) -> (items: Vec<(Box<[u8]>, Box<[u8]>)>)
        ensures
            lists(pair_bytes(items@), with_prefix(column_of(self@, col), prefix@)),
            !declared(self@, col) ==> items@.len() == 0,
    {
        if (col as usize) < self.columns.len() {
            self.columns[col as usize].iter_from_prefix(prefix)
        } else {
            Vec::new()
        }
    }
}

} // verus!
