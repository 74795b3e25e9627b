//! The ways in which an operation of the registry fails.

use vstd::prelude::*;

verus! {

/// Why an operation was refused. Whatever the kind, a refused operation
/// leaves the ledger as it found it.
#[derive(Clone, Copy, Debug, PartialEq, Eq, Structural)]
pub enum RegistryError {
    /// The address is already in use: the record, or the mint, was created before.
    AlreadyExists,
    /// A string is longer than the room that a record reserves for it.
    CapacityExceeded,
    /// No report is stored for this reporter and repository.
    NotFound,
    /// A collaborator refused: no address could be derived, or the token
    /// service or the metadata registry turned a step down.
    DependencyFailure,
}

} // verus!
