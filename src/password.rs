//! Password hashing and verification, done by the bcrypt crate.

use crate::error::{AppError, AppResult};
use vstd::prelude::*;

verus! {

/// Relies on bcrypt::BcryptError only as an opaque value: it is carried out of
/// the wrappers below and never inspected.
#[verifier::external_type_specification]
#[verifier::external_body]
pub struct ExBcryptError(bcrypt::BcryptError);

/// Name for what bcrypt's verification answers for a password and a stored
/// hash: `Some(matches)`, or `None` when the hash cannot be used.
pub uninterp spec fn bcrypt_verdict(password: Seq<char>, hash: Seq<char>) -> Option<bool>;

/// Relies on bcrypt::verify: its answer depends on the password and the hash
/// alone; it fails on a hash that is not 60 characters long.
#[verifier::external_body]
fn bcrypt_verify(password: &str, hash: &str) -> (r: Result<bool, bcrypt::BcryptError>)
    ensures
        r is Ok <==> bcrypt_verdict(password@, hash@) is Some,
        r matches Ok(b) ==> bcrypt_verdict(password@, hash@) == Some(b),
        hash@.len() != 60 ==> r is Err,
{
    bcrypt::verify(password, hash)
}

/// Relies on bcrypt::hash with bcrypt::DEFAULT_COST: a fresh salt is drawn at
/// random, so the result itself is not known; it is a 60-character string,
/// and bcrypt::verify accepts the password against it, since verification
/// rehashes the password with the cost and salt read back from it.
#[verifier::external_body]
fn bcrypt_hash(password: &str) -> (r: Result<String, bcrypt::BcryptError>)
    ensures
        r matches Ok(h) ==> h@.len() == 60 && bcrypt_verdict(password@, h@) == Some(true),
{
    bcrypt::hash(password, bcrypt::DEFAULT_COST)
}

/// What a verification verdict means for the caller: only a match
/// authenticates.
pub open spec fn verdict_outcome(verdict: Option<bool>) -> AppResult<()> {
    match verdict {
        Some(true) => Ok(()),
        _ => Err(AppError::UnauthenticatedError),
    }
}

/// Interprets a verification verdict.
pub fn check_verdict(verdict: Option<bool>) -> (r: AppResult<()>)
    ensures
        r == verdict_outcome(verdict),
{
    match verdict {
        Some(true) => Ok(()),
        _ => Err(AppError::UnauthenticatedError),
    }
}

/// Checks a password against a stored hash: succeeds only when they match.
pub fn verify_password(password: &str, hash: &str) -> (r: AppResult<()>)
    ensures
        r == verdict_outcome(bcrypt_verdict(password@, hash@)),
        hash@.len() != 60 ==> r == Err::<(), AppError>(AppError::UnauthenticatedError),
{
    let verdict = match bcrypt_verify(password, hash) {
        Ok(b) => Some(b),
        Err(_) => None,
    };
    check_verdict(verdict)
}

/// Hashes a password with a fresh random salt; the password verifies against
/// the hash.
pub fn hash_password(password: &str) -> (r: AppResult<String>)
    ensures
        r matches Ok(h) ==> h@.len() == 60 && bcrypt_verdict(password@, h@) == Some(true),
        r matches Err(e) ==> e == AppError::PasswordHashError,
{
    match bcrypt_hash(password) {
        Ok(h) => Ok(h),
        Err(_) => Err(AppError::PasswordHashError),
    }
}

} // verus!
