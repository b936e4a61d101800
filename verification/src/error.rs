//! The uniform fallible-result channel threaded through every repository
//! operation: storage and validation failures map onto one reportable
//! error surface.

use vstd::prelude::*;

verus! {

broadcast use vstd::string::group_string_axioms;

/// The single error surface of the core.
///
/// Every repository operation reports failure through one of these tags:
/// a lookup that matched no row, caller-supplied data that fails a
/// precondition, or the store itself rejecting an operation.
#[derive(Debug)]
pub enum AppError {
    /// A lookup by id matched no row.
    NotFound,
    /// Caller-supplied data failed a precondition (missing required field,
    /// unsupported image type, and the like).
    InvalidInput(String),
    /// The store rejected or could not execute an operation (constraint
    /// violation, exhausted id space).
    StorageFailure(String),
}

pub type AppResult<T> = Result<T, AppError>;

impl AppError {
    /// The human-readable payload of this error; storage internals never
    /// leak past the message that was recorded.
    pub open spec fn message_spec(&self) -> Seq<char> {
        match self {
            AppError::NotFound => "not found"@,
            AppError::InvalidInput(m) => m@,
            AppError::StorageFailure(m) => m@,
        }
    }

    /// Builds a failed result from an input-validation message.
    pub fn new<T>(message: &str) -> (r: AppResult<T>)
        ensures
            r matches Err(e) && e matches AppError::InvalidInput(m) && m@ == message@,
    {
        Err(AppError::InvalidInput(message.to_string()))
    }

    /// A descriptive, human-readable rendering of the error.
    pub fn message(&self) -> (r: String)
        ensures
            r@ == self.message_spec(),
    {
        match self {
            AppError::NotFound => "not found".to_string(),
            AppError::InvalidInput(m) => m.clone(),
            AppError::StorageFailure(m) => m.clone(),
        }
    }
}

} // verus!
