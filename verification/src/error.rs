//! The failures that the engine reports to its caller.

use vstd::prelude::*;

verus! {

/// Every failure of the engine is one of these kinds.
#[derive(Clone, Copy, Debug, PartialEq, Eq, Structural)]
pub enum Error {
    /// The operator is not in the recognized set, or is recognized but has no
    /// behaviour in the state in which it was met.
    UnsupportedOperator,
    /// A value does not have the type that an operator requires.
    TypeConversionError,
    /// The accumulator holds no value of the shape that the terminator names.
    TerminatorMismatch,
    /// A mutation was attempted on a read-only transaction.
    TransactionReadOnly,
    /// An operation was attempted on a transaction that is already committed
    /// or rolled back.
    TransactionStateError,
    /// Another transaction committed a conflicting write first.
    StorageConflict,
    /// The vertex targeted by a mutation or a lookup is not stored.
    NotFound,
    /// A stored record cannot be decoded.
    CorruptRecord,
    /// No identifier is left for a new vertex.
    IdentifierExhausted,
    /// The storage backend could not carry out the operation.
    StorageFailure,
}

impl Error {
    /// The name of the failure, for display.
    pub fn describe(&self) -> (text: &'static str)
        ensures
            text@ == self.name(),
    {
        match self {
            Error::UnsupportedOperator => "unsupported operator",
            Error::TypeConversionError => "type conversion error",
            Error::TerminatorMismatch => "terminator mismatch",
            Error::TransactionReadOnly => "transaction is read-only",
            Error::TransactionStateError => "transaction is no longer open",
            Error::StorageConflict => "storage conflict",
            Error::NotFound => "not found",
            Error::CorruptRecord => "corrupt record",
            Error::IdentifierExhausted => "identifier space exhausted",
            Error::StorageFailure => "storage failure",
        }
    }

    /// The text that `describe` returns for each kind.
    pub open spec fn name(&self) -> Seq<char> {
        match self {
            Error::UnsupportedOperator => "unsupported operator"@,
            Error::TypeConversionError => "type conversion error"@,
            Error::TerminatorMismatch => "terminator mismatch"@,
            Error::TransactionReadOnly => "transaction is read-only"@,
            Error::TransactionStateError => "transaction is no longer open"@,
            Error::StorageConflict => "storage conflict"@,
            Error::NotFound => "not found"@,
            Error::CorruptRecord => "corrupt record"@,
            Error::IdentifierExhausted => "identifier space exhausted"@,
            Error::StorageFailure => "storage failure"@,
        }
    }
}

} // verus!
