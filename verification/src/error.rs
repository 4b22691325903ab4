//! The ways in which a store operation fails.

use vstd::prelude::*;

verus! {

/// Why a store operation failed.
#[derive(Clone, Copy, Debug, PartialEq, Eq, Structural)]
pub enum Error {
    /// The column was not declared when the store was created.
    UnknownColumn { col: u32 },
    /// The backing storage could not complete a flush.
    IoFailure,
    /// The store cannot do what was asked of it.
    Unsupported,
}

} // verus!
