//! The reader-writer lock of the `parking_lot` crate around the columns.
//!
//! Verus does not look inside the lock, and the functions below are not
//! verified.  Of a new lock it is claimed what it was made to hold.  Nothing
//! is claimed of what a guard gives access to: that is whatever the lock
//! holds at that time, which another holder of the lock may have written.
//! That it is a well-formed value is known from its type alone.
//!
//! A thread that already holds the lock must not take it again: `write`
//! would not return.  The engine takes the lock once in each of its methods
//! and lets go of it before the method returns.

use crate::columns::Columns;
use crate::state::StoreState;
use parking_lot::lock_api::RwLock;
use parking_lot::{RawRwLock, RwLockReadGuard, RwLockWriteGuard};
use vstd::prelude::*;

verus! {

/// `parking_lot::RawRwLock`, the state of the lock itself: opaque to Verus.
#[verifier::external_type_specification]
#[verifier::external_body]
pub struct ExRawRwLock<const RECURSIVE: bool>(RawRwLock<RECURSIVE>);

/// `lock_api::RwLock`, of which `parking_lot::RwLock` is an instance: opaque
/// to Verus.
#[verifier::external_type_specification]
#[verifier::external_body]
#[verifier::reject_recursive_types(R)]
#[verifier::reject_recursive_types(T)]
pub struct ExRwLock<R, T: ?Sized>(RwLock<R, T>);

/// Shared access to the columns, held until the value is dropped.  It holds
/// a `parking_lot::RwLockReadGuard`, whose type is bounded by a trait of the
/// crate and so cannot be declared to Verus as it stands.
#[verifier::external_body]
pub(crate) struct ReadGuard<'a> {
    guard: RwLockReadGuard<'a, Columns>,
}

/// Exclusive access to the columns, held until the value is dropped.  It
/// holds a `parking_lot::RwLockWriteGuard`, for the same reason.
#[verifier::external_body]
pub(crate) struct WriteGuard<'a> {
    guard: RwLockWriteGuard<'a, Columns>,
}

/// What a lock was given to hold when `RwLock::new` made it.  This is not
/// what the lock holds at a later time.
pub uninterp spec fn created_with(lock: RwLock<RawRwLock, Columns>) -> StoreState;

/// `RwLock::new`: an unlocked lock that starts out holding `columns`.
#[verifier::external_body]
pub(crate) fn lock_new(columns: Columns) -> (lock: RwLock<RawRwLock, Columns>)
    ensures
        created_with(lock) == columns@,
{
    RwLock::new(columns)
}

/// `RwLock::read`: waits until no writer holds the lock, then takes shared
/// access.  Nothing is claimed of the result.  The crate lets the call panic
/// when the count of readers overflows, which takes more readers at one time
/// than a machine has room for threads.
#[verifier::external_body]
pub(crate) fn lock_read<'a>(lock: &'a RwLock<RawRwLock, Columns>) -> (guard: ReadGuard<'a>) {
    ReadGuard { guard: lock.read() }
}

/// `Deref::deref` of `RwLockReadGuard`: the columns that the lock guards.
/// Nothing is claimed of them.
#[verifier::external_body]
pub(crate) fn read_columns<'a, 'b>(guard: &'a ReadGuard<'b>) -> (columns: &'a Columns) {
    std::ops::Deref::deref(&guard.guard)
}

/// `RwLock::write`: waits until nobody holds the lock, then takes exclusive
/// access.  Nothing is claimed of the result.
#[verifier::external_body]
pub(crate) fn lock_write<'a>(lock: &'a RwLock<RawRwLock, Columns>) -> (guard: WriteGuard<'a>) {
    WriteGuard { guard: lock.write() }
}

/// `DerefMut::deref_mut` of `RwLockWriteGuard`: the columns that the lock
/// guards, to be changed in place.  Nothing is claimed of them.
#[verifier::external_body]
pub(crate) fn write_columns<'a, 'b>(guard: &'a mut WriteGuard<'b>) -> (columns: &'a mut Columns) {
    std::ops::DerefMut::deref_mut(&mut guard.guard)
}

} // verus!
