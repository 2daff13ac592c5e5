use crate::models::ConversionError;
use crate::sqlite::extended_code;
use vstd::prelude::*;

verus! {

/// The primary result code with which the engine reports a violated constraint.
pub const SQLITE_CONSTRAINT: i32 = 19;

/// Why an operation on the store failed.
#[derive(Debug, Clone, Copy, PartialEq, Eq)]
pub enum StorageError {
    /// The version cell did not hold the version just before `version` when the step to
    /// `version` tried to advance it.
    Migration { version: i32 },
    /// A row with the same key exists already.
    ConstraintViolation,
    /// A persisted integer names no variant of the enum it was read for.
    Conversion(ConversionError),
    /// What the store returned does not have the shape that was asked for.
    Malformed,
    /// Any other failure of the engine, with its extended result code where it gave one.
    Database { code: Option<i32> },
}

/// Whether an extended result code belongs to the family of violated constraints: its low
/// byte is the primary code.
pub open spec fn is_constraint_code(code: i32) -> bool {
    code & 0xff == SQLITE_CONSTRAINT
}

/// The error that stands for a failure of the engine with the given extended result code.
pub open spec fn classify(code: Option<i32>) -> StorageError {
    match code {
        Some(c) if is_constraint_code(c) => StorageError::ConstraintViolation,
        _ => StorageError::Database { code },
    }
}

/// Turns the engine's extended result code into an error of the store: a violated
/// constraint is told apart, everything else keeps its code.
pub fn storage_error(code: Option<i32>) -> (e: StorageError)
    ensures
        e == classify(code),
{
    match code {
        Some(c) => {
            if c & 0xff == SQLITE_CONSTRAINT {
                StorageError::ConstraintViolation
            } else {
                StorageError::Database { code }
            }
        },
        None => StorageError::Database { code },
    }
}

/// The error of the store that stands for an error of the engine: a violated constraint,
/// or a failure with the code that the engine gave.
pub fn engine_error(e: &rusqlite::Error) -> (r: StorageError)
    ensures
        r is ConstraintViolation || r is Database,
{
    storage_error(extended_code(e))
}

} // verus!
