//! The ways in which an operation on items can fail.

use vstd::prelude::*;

verus! {

/// A change that only the owner of an item may make.
#[derive(Debug, Clone, Copy, PartialEq, Eq, Structural)]
pub enum Action {
    Update,
    Delete,
}

/// Why an operation did not take place. The store is unchanged in each case.
#[derive(Debug, Clone, Copy, PartialEq, Eq, Structural)]
pub enum ItemError {
    /// No item has this id.
    NotFound { id: u64 },
    /// The item exists and the caller is not its owner.
    Forbidden { id: u64, action: Action },
    /// No id is left: the counter has reached the greatest id and cannot be
    /// advanced, so no item can be created.
    StorageFailure,
}

/// Why the store in stable memory could not be opened.
#[derive(Debug, Clone, Copy, PartialEq, Eq, Structural)]
pub enum OpenError {
    /// The counter cell could neither be read nor created.
    CounterUnavailable,
    /// The map holds an entry that is not the record of an item, or that is
    /// stored under another id than its own or under one not yet given out.
    InvalidRecords,
}

} // verus!
