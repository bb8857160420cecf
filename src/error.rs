use vstd::prelude::*;

verus! {

/// Every failure the core reports.
#[derive(Debug, Clone, Copy, PartialEq, Eq, Structural)]
pub enum AppError {
    /// The referenced book or other entity does not exist.
    EntityNotFound,
    /// A business rule forbids the transition (already checked out, wrong holder).
    UnprocessableEntity,
    /// A write affected no row where one was expected.
    NoRowsAffectedError,
    /// The storage operation failed, including serialization aborts.
    SpecificOperationError,
    /// Commit or rollback itself failed.
    TransactionError,
    /// Missing, unknown or expired token, or a password that does not verify.
    UnauthenticatedError,
    /// A value failed validation.
    ValidationError,
    /// A password could not be hashed.
    PasswordHashError,
}

pub type AppResult<T> = Result<T, AppError>;

} // verus!
