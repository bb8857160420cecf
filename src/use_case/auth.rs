//! Login, logout, and resolving the user behind a bearer token.

use crate::auth::{expiry, AccessToken, AuthRepositoryImpl};
use crate::error::{AppError, AppResult};
use crate::ids::UserId;
use crate::model::user::User;
use crate::password::{bcrypt_verdict, check_verdict, verdict_outcome, verify_password};
use crate::store::{email_pos, has_email, user_of, StoreView};
use crate::unit_of_work::UnitOfWorkScopeImpl;
use vstd::prelude::*;

verus! {

/// The user id a token stands for at time `now`, if it is present and unexpired.
pub open spec fn token_user(m: Map<Seq<char>, (UserId, i64)>, key: Seq<char>, now: i64) -> Option<
    UserId,
> {
    if m.contains_key(key) && now < m[key].1 {
        Some(m[key].0)
    } else {
        None
    }
}

/// The user a token authorizes: unauthenticated unless the token is valid and
/// its user exists.
pub open spec fn authorized_user(
    v: StoreView,
    m: Map<Seq<char>, (UserId, i64)>,
    key: Seq<char>,
    now: i64,
) -> AppResult<User> {
    match token_user(m, key, now) {
        None => Err(AppError::UnauthenticatedError),
        Some(u) => match user_of(v.users, u) {
            None => Err(AppError::UnauthenticatedError),
            Some(user) => Ok(user),
        },
    }
}

/// Resolves the user behind a bearer token at time `now`.
pub fn find_authorized_user(
    scope: &UnitOfWorkScopeImpl,
    tokens: &AuthRepositoryImpl,
    access_token: &AccessToken,
    now: i64,
) -> (r: AppResult<User>)
    requires
        scope.wf(),
        tokens.wf(),
    ensures
        r == authorized_user(scope@.tables, tokens@, access_token.0@, now),
{
    let uow = scope.begin();
    let user_id = match tokens.fetch_user_id_from_token(access_token, now) {
        Ok(Some(u)) => u,
        _ => return Err(AppError::UnauthenticatedError),
    };
    match uow.acquire().find_current_user(user_id) {
        Some(user) => Ok(user),
        None => Err(AppError::UnauthenticatedError),
    }
}

/// Finishes a login once the password's verdict is known: only a match issues
/// `new_token` for the user, valid from `now` for the store's time to live.
pub fn finish_login(
    tokens: &mut AuthRepositoryImpl,
    user_id: UserId,
    verdict: Option<bool>,
    new_token: AccessToken,
    now: i64,
) -> (r: AppResult<(UserId, AccessToken)>)
    requires
        old(tokens).wf(),
    ensures
        final(tokens).wf(),
        final(tokens).spec_ttl() == old(tokens).spec_ttl(),
        verdict == Some(true) ==> r == Ok::<(UserId, AccessToken), AppError>((user_id, new_token))
            && final(tokens)@ == old(tokens)@.insert(
            new_token.0@,
            (user_id, expiry(now, old(tokens).spec_ttl())),
        ),
        verdict != Some(true) ==> r == Err::<(UserId, AccessToken), AppError>(
            AppError::UnauthenticatedError,
        ) && final(tokens)@ == old(tokens)@,
{
    match check_verdict(verdict) {
        Err(e) => Err(e),
        Ok(()) => match tokens.create_token(user_id, new_token, now) {
            Ok(t) => Ok((user_id, t)),
            Err(e) => Err(e),
        },
    }
}

/// Logs a user in by email and password at time `now`: not found for an
/// unknown email, unauthenticated unless the password matches the stored
/// hash, and otherwise `new_token` is issued for the user.
pub fn login(
    scope: &UnitOfWorkScopeImpl,
    tokens: &mut AuthRepositoryImpl,
    email: &str,
    password: &str,
    new_token: AccessToken,
    now: i64,
) -> (r: AppResult<(UserId, AccessToken)>)
    requires
        scope.wf(),
        old(tokens).wf(),
    ensures
        final(tokens).wf(),
        final(tokens).spec_ttl() == old(tokens).spec_ttl(),
        !has_email(scope@.tables.users, email@) ==> r == Err::<(UserId, AccessToken), AppError>(
            AppError::EntityNotFound,
        ) && final(tokens)@ == old(tokens)@,
        has_email(scope@.tables.users, email@) ==> ({
            let row = scope@.tables.users[email_pos(scope@.tables.users, email@)];
            match verdict_outcome(bcrypt_verdict(password@, row.password_hash@)) {
                Err(e) => r == Err::<(UserId, AccessToken), AppError>(e) && final(tokens)@ == old(
                    tokens,
                )@,
                Ok(_) => r == Ok::<(UserId, AccessToken), AppError>((row.user_id, new_token))
                    && final(tokens)@ == old(tokens)@.insert(
                    new_token.0@,
                    (row.user_id, expiry(now, old(tokens).spec_ttl())),
                ),
            }
        }),
{
    let uow = scope.begin();
    let (user_id, password_hash) = match uow.acquire().find_password_hash_by_email(email) {
        Ok(found) => found,
        Err(e) => return Err(e),
    };
    let verdict = match verify_password(password, password_hash.as_str()) {
        Ok(()) => Some(true),
        Err(_) => None,
    };
    finish_login(tokens, user_id, verdict, new_token, now)
}

/// Logs out: the token no longer stands for anyone.
pub fn logout(tokens: &mut AuthRepositoryImpl, access_token: AccessToken) -> (r: AppResult<()>)
    requires
        old(tokens).wf(),
    ensures
        final(tokens).wf(),
        final(tokens).spec_ttl() == old(tokens).spec_ttl(),
        final(tokens)@ == old(tokens)@.remove(access_token.0@),
        r is Ok,
{
    tokens.delete_token(access_token)
}

} // verus!
