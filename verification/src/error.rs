//! The tagged errors that every operation of the engine can end in.

use vstd::prelude::*;

verus! {

/// Why an operation did not produce its result.
#[derive(Debug, Clone, Copy, PartialEq, Eq, Structural)]
pub enum FsError {
    /// No record is stored at the requested identifier.
    NotFound,
    /// The directory already holds an entry of that name.
    AlreadyExists,
    /// The operation needs a directory and resolved something else.
    NotADirectory,
    /// The operation needs a different resolved kind.
    WrongKind,
    /// Symbolic links are not resolved by this engine.
    Unimplemented,
    /// A round-trip to the key-value store failed.
    TransportError,
    /// The stored value is not the record that was expected at its key.
    SerializationError,
}

} // verus!
