//! What holds of every store, whatever it holds and whatever is written to it.
//!
//! The laws are stated over the contents of a store and the operations of a
//! transaction, in the terms in which the functions on columns state what
//! they return and change.

use crate::error::Error;
use crate::keys::{key_le, key_lt, lemma_lt_asymmetric, lemma_lt_irreflexive, lemma_lt_total};
use crate::ordered::{
    first_with_prefix, has_key, lemma_listed_map, lemma_lists_skip, lemma_lists_unique, lists,
    with_prefix, ColumnMap, Pairs,
};
use crate::state::{apply_op, apply_ops, column_of, declared, lookup, Op, StoreState};
use vstd::prelude::*;

verus! {

/// The operation addresses `key` in column `col`.
pub open spec fn addresses(op: Op, col: u32, key: Seq<u8>) -> bool {
    op.col() == col && op.key() == key
}

/// What the operation leaves under its key: the inserted value, or nothing.
pub open spec fn leaves(op: Op) -> Option<Seq<u8>> {
    match op {
        Op::Insert { value, .. } => Some(value),
        Op::Delete { .. } => None,
    }
}

/// Whether an operation addresses a column that `state` declares.
pub open spec fn on_declared(state: StoreState) -> spec_fn(Op) -> bool {
    |op: Op| declared(state, op.col())
}

/// Keys are strictly and totally ordered: of two keys, either one sorts
/// before the other or they are equal, and no two of these hold at once.
pub proof fn law_keys_are_ordered(a: Seq<u8>, b: Seq<u8>)
    ensures
        key_lt(a, b) || a == b || key_lt(b, a),
        !(key_lt(a, b) && a == b),
        !(key_lt(b, a) && a == b),
        !(key_lt(a, b) && key_lt(b, a)),
{
    lemma_lt_total(a, b);
    lemma_lt_irreflexive(a);
    if key_lt(a, b) {
        lemma_lt_asymmetric(a, b);
    }
}

/// The empty transaction changes nothing.
pub proof fn law_empty_transaction(state: StoreState)
    ensures
        apply_ops(state, Seq::<Op>::empty()) == state,
{
}

/// A transaction of one operation does what the operation does.
pub proof fn law_single_operation(state: StoreState, op: Op)
    ensures
        apply_ops(state, seq![op]) == apply_op(state, op),
{
    let ops = seq![op];
    assert(ops.drop_last() =~= Seq::<Op>::empty());
    assert(ops.last() == op);
    assert(apply_ops(state, ops.drop_last()) == state);
}

/// Writing two transactions one after the other is writing the one that
/// holds the operations of the first followed by those of the second.
pub proof fn law_transactions_compose(state: StoreState, first: Seq<Op>, second: Seq<Op>)
    ensures
        apply_ops(apply_ops(state, first), second) == apply_ops(state, first + second),
    decreases second.len(),
{
    if second.len() == 0 {
        assert(first + second =~= first);
    } else {
        law_transactions_compose(state, first, second.drop_last());
        assert((first + second).drop_last() =~= first + second.drop_last());
        assert((first + second).last() == second.last());
    }
}

/// No transaction changes which columns are declared.
pub proof fn law_columns_are_fixed(state: StoreState, ops: Seq<Op>)
    ensures
        apply_ops(state, ops).len() == state.len(),
        forall|col: u32| declared(apply_ops(state, ops), col) == declared(state, col),
    decreases ops.len(),
{
    if ops.len() > 0 {
        law_columns_are_fixed(state, ops.drop_last());
    }
}

/// A lookup in an undeclared column fails with `UnknownColumn`, whatever has
/// been written to the store.
pub proof fn law_unknown_column(state: StoreState, ops: Seq<Op>, col: u32, key: Seq<u8>)
    requires
        !declared(state, col),
    ensures
        lookup(apply_ops(state, ops), col, key) == Err::<Option<Seq<u8>>, Error>(
            Error::UnknownColumn { col },
        ),
        column_of(apply_ops(state, ops), col) == Map::<Seq<u8>, Seq<u8>>::empty(),
{
    law_columns_are_fixed(state, ops);
}

/// An operation on an undeclared column changes nothing.
pub proof fn law_undeclared_operation(state: StoreState, op: Op)
    requires
        !declared(state, op.col()),
    ensures
        apply_op(state, op) == state,
{
}

/// An operation leaves every column but its own as it was.
pub proof fn law_operation_is_local(state: StoreState, op: Op, other: u32)
    requires
        other != op.col(),
    ensures
        column_of(apply_op(state, op), other) == column_of(state, other),
{
}

/// An operation leaves every key but its own as it was.
pub proof fn law_operation_keeps_other_keys(state: StoreState, op: Op, col: u32, key: Seq<u8>)
    requires
        !addresses(op, col, key),
    ensures
        lookup(apply_op(state, op), col, key) == lookup(state, col, key),
{
}

/// The operations of a transaction that address undeclared columns can be
/// struck from it: the transaction writes what the remaining ones write.
pub proof fn law_undeclared_operations(state: StoreState, ops: Seq<Op>)
    ensures
        apply_ops(state, ops) == apply_ops(state, ops.filter(on_declared(state))),
    decreases ops.len(),
{
    reveal(Seq::filter);
    if ops.len() > 0 {
        let rest = ops.drop_last();
        let last = ops.last();
        let kept = rest.filter(on_declared(state));
        law_undeclared_operations(state, rest);
        law_columns_are_fixed(state, rest);
        if declared(state, last.col()) {
            assert(ops.filter(on_declared(state)) == kept.push(last));
            assert(kept.push(last).drop_last() =~= kept);
            assert(kept.push(last).last() == last);
        } else {
            assert(ops.filter(on_declared(state)) == kept);
            assert(!declared(apply_ops(state, rest), last.col()));
        }
    }
}

/// A transaction leaves a key as it was if none of its operations addresses it.
pub proof fn law_unaddressed_key(state: StoreState, ops: Seq<Op>, col: u32, key: Seq<u8>)
    requires
        forall|i: int| 0 <= i < ops.len() ==> !addresses(#[trigger] ops[i], col, key),
    ensures
        lookup(apply_ops(state, ops), col, key) == lookup(state, col, key),
    decreases ops.len(),
{
    if ops.len() > 0 {
        let rest = ops.drop_last();
        assert forall|i: int| 0 <= i < rest.len() implies !addresses(
            #[trigger] rest[i],
            col,
            key,
        ) by {
            assert(rest[i] == ops[i]);
        }
        law_unaddressed_key(state, rest, col, key);
        assert(!addresses(ops[ops.len() - 1], col, key));
    }
}

/// Later operations override earlier ones: after a transaction, a lookup of
/// a key gives what the last operation that addresses the key leaves there.
pub proof fn law_last_write_wins(state: StoreState, ops: Seq<Op>, last: int, col: u32, key: Seq<u8>)
    requires
        declared(state, col),
        0 <= last < ops.len(),
        addresses(ops[last], col, key),
        forall|i: int| last < i < ops.len() ==> !addresses(#[trigger] ops[i], col, key),
    ensures
        lookup(apply_ops(state, ops), col, key) == Ok::<Option<Seq<u8>>, Error>(leaves(ops[last])),
    decreases ops.len(),
{
    let rest = ops.drop_last();
    law_columns_are_fixed(state, rest);
    if last < ops.len() - 1 {
        assert(rest[last] == ops[last]);
        assert forall|i: int| last < i < rest.len() implies !addresses(
            #[trigger] rest[i],
            col,
            key,
        ) by {
            assert(rest[i] == ops[i]);
        }
        law_last_write_wins(state, rest, last, col, key);
        assert(!addresses(ops[ops.len() - 1], col, key));
    }
}

/// After a transaction that inserts a value under a key of a declared
/// column, a lookup of the key gives the value.
pub proof fn law_insert_then_get(state: StoreState, col: u32, key: Seq<u8>, value: Seq<u8>)
    requires
        declared(state, col),
    ensures
        lookup(apply_ops(state, seq![Op::Insert { col, key, value }]), col, key) == Ok::<
            Option<Seq<u8>>,
            Error,
        >(Some(value)),
{
    law_single_operation(state, Op::Insert { col, key, value });
}

/// After a key of a declared column has been inserted and then deleted, by
/// one transaction or by two, a lookup of the key gives nothing.
pub proof fn law_insert_delete_then_get(state: StoreState, col: u32, key: Seq<u8>, value: Seq<u8>)
    requires
        declared(state, col),
    ensures
        lookup(
            apply_ops(state, seq![Op::Insert { col, key, value }, Op::Delete { col, key }]),
            col,
            key,
        ) == Ok::<Option<Seq<u8>>, Error>(None),
        lookup(
            apply_ops(
                apply_ops(state, seq![Op::Insert { col, key, value }]),
                seq![Op::Delete { col, key }],
            ),
            col,
            key,
        ) == Ok::<Option<Seq<u8>>, Error>(None),
{
    let insert = Op::Insert { col, key, value };
    let delete = Op::Delete { col, key };
    law_last_write_wins(state, seq![insert, delete], 1, col, key);
    law_transactions_compose(state, seq![insert], seq![delete]);
    assert(seq![insert] + seq![delete] =~= seq![insert, delete]);
}

/// A walk tells the contents of its column, and those contents only: two
/// walks are equal exactly when they were made of equal contents.  So a walk
/// made before a write stays the listing of the column as it then was, and
/// differs from a walk made afterwards exactly when the write changed the
/// column.
pub proof fn law_walk_is_a_snapshot(before: ColumnMap, walk: Pairs, after: ColumnMap, again: Pairs)
    requires
        lists(walk, before),
        lists(again, after),
    ensures
        walk == again <==> before == after,
{
    lemma_listed_map(walk, before);
    lemma_listed_map(again, after);
    if before == after {
        lemma_lists_unique(walk, again, before);
    }
}

/// A walk yields every entry of its column once: the column holds finitely
/// many entries, as many as the walk is long.
pub proof fn law_walk_length(m: ColumnMap, walk: Pairs)
    requires
        lists(walk, m),
    ensures
        m.dom().finite(),
        m.dom().len() == walk.len(),
    decreases walk.len(),
{
    if walk.len() == 0 {
        assert forall|k: Seq<u8>| !m.dom().contains(k) by {
            if m.contains_key(k) {
                assert(has_key(walk, k));
            }
        }
        assert(m.dom() =~= Set::<Seq<u8>>::empty());
    } else {
        let first = walk[0].0;
        lemma_lists_skip(walk, m);
        law_walk_length(m.remove(first), walk.skip(1));
        assert(m.contains_key(first));
        assert(m.dom() =~= m.remove(first).dom().insert(first));
    }
}

/// A walk from the empty prefix is a walk of the whole column.
pub proof fn law_empty_prefix(m: ColumnMap)
    ensures
        with_prefix(m, Seq::<u8>::empty()) == m,
{
    assert forall|k: Seq<u8>| m.contains_key(k) implies Seq::<u8>::empty().is_prefix_of(k) by {
        assert(k.subrange(0, 0) =~= Seq::<u8>::empty());
    }
    assert(with_prefix(m, Seq::<u8>::empty()) =~= m);
}

/// At most one key is the first that begins with a prefix.
pub proof fn law_first_with_prefix_is_unique(
    m: ColumnMap,
    prefix: Seq<u8>,
    k: Seq<u8>,
    other: Seq<u8>,
)
    requires
        first_with_prefix(m, prefix, k),
        first_with_prefix(m, prefix, other),
    ensures
        k == other,
{
    assert(key_le(k, other));
    assert(key_le(other, k));
    if k != other {
        lemma_lt_asymmetric(k, other);
    }
}

/// A lookup by prefix gives the value of the first entry of the walk from
/// that prefix, and nothing where that walk is empty.
pub proof fn law_prefix_lookup_is_first_of_walk(m: ColumnMap, prefix: Seq<u8>, walk: Pairs)
    requires
        lists(walk, with_prefix(m, prefix)),
    ensures
        walk.len() == 0 ==> forall|k: Seq<u8>| #[trigger]
            m.contains_key(k) ==> !prefix.is_prefix_of(k),
        walk.len() > 0 ==> first_with_prefix(m, prefix, walk[0].0) && m[walk[0].0] == walk[0].1,
{
    let sub = with_prefix(m, prefix);
    if walk.len() == 0 {
        assert forall|k: Seq<u8>| #[trigger] m.contains_key(k) implies !prefix.is_prefix_of(k) by {
            if prefix.is_prefix_of(k) {
                assert(sub.contains_key(k));
                assert(has_key(walk, k));
            }
        }
    } else {
        let first = walk[0].0;
        assert(sub.contains_key(first));
        assert forall|other: Seq<u8>| #[trigger]
            m.contains_key(other) && prefix.is_prefix_of(other) implies key_le(first, other) by {
            assert(sub.contains_key(other));
            assert(has_key(walk, other));
        }
    }
}

} // verus!
