//! The ways in which an operation on the history can fail.

use vstd::prelude::*;

verus! {

/// Why an operation on the history did not succeed.
#[derive(Clone, Copy, Debug, PartialEq, Eq, Structural)]
pub enum StoreError {
    /// The store could not be opened or its relations could not be created.
    Initialization,
    /// A lookup or an insert failed at the storage layer.
    Storage,
    /// No execution carries the identifier that was to be closed.
    NotFound,
}

} // verus!
