//! Registration and maintenance of users, and the checkouts a user holds.

use crate::error::{AppError, AppResult};
use crate::ids::UserId;
use crate::model::checkout::Checkout;
use crate::model::user::{CreateUser, DeleteUser, Role, UpdateUserPassword, UpdateUserRole, User};
use crate::password::{bcrypt_verdict, hash_password, verdict_outcome, verify_password};
use crate::store::{
    has_email, has_user, unreturned_by_user, user_pos, users_latest_first, with_password_hash,
    with_role, with_user, without_user,
};
use crate::unit_of_work::{StoreState, UnitOfWorkScopeImpl};
use vstd::prelude::*;

verus! {

/// Registers a user with the id `user_id`, storing a fresh hash of the password.
pub fn register_user(scope: &mut UnitOfWorkScopeImpl, event: CreateUser, user_id: UserId) -> (r:
    AppResult<User>)
    requires
        old(scope).wf(),
    ensures
        final(scope).wf(),
        r == Err::<User, AppError>(AppError::PasswordHashError) ==> final(scope)@ == old(scope)@,
        r is Ok ==> r->Ok_0 == (User {
            id: user_id,
            name: event.name,
            email: event.email,
            role: Role::User,
        }) && exists|h: String|
            h@.len() == 60 && bcrypt_verdict(event.password@, h@) == Some(true) && final(scope)@
                == (StoreState {
                tables: with_user(old(scope)@.tables, event, user_id, h),
                version: (old(scope)@.version + 1) as u64,
            }),
        r is Ok ==> !has_user(old(scope)@.tables.users, user_id) && !has_email(
            old(scope)@.tables.users,
            event.email@,
        ),
        old(scope)@.version < u64::MAX && (has_user(old(scope)@.tables.users, user_id) || has_email(
            old(scope)@.tables.users,
            event.email@,
        )) ==> (r == Err::<User, AppError>(AppError::NoRowsAffectedError) || r == Err::<
            User,
            AppError,
        >(AppError::PasswordHashError)),
        old(scope)@.version == u64::MAX ==> (r == Err::<User, AppError>(AppError::TransactionError)
            || r == Err::<User, AppError>(AppError::PasswordHashError)),
        old(scope)@.version < u64::MAX && !has_user(old(scope)@.tables.users, user_id) && !has_email(
            old(scope)@.tables.users,
            event.email@,
        ) ==> (r is Ok || r == Err::<User, AppError>(AppError::PasswordHashError)),
        r is Err ==> final(scope)@ == old(scope)@,
{
    let hash = match hash_password(event.password.as_str()) {
        Ok(h) => h,
        Err(e) => return Err(e),
    };
    scope.create_user(event, user_id, hash)
}

/// Changes a user's password: the current password must match the stored
/// hash, and the new one is stored as a fresh hash.
pub fn change_password(scope: &mut UnitOfWorkScopeImpl, event: UpdateUserPassword) -> (r:
    AppResult<()>)
    requires
        old(scope).wf(),
    ensures
        final(scope).wf(),
        !has_user(old(scope)@.tables.users, event.user_id) ==> r == Err::<(), AppError>(
            AppError::EntityNotFound,
        ) && final(scope)@ == old(scope)@,
        has_user(old(scope)@.tables.users, event.user_id) && verdict_outcome(
            bcrypt_verdict(
                event.current_password@,
                old(scope)@.tables.users[user_pos(
                    old(scope)@.tables.users,
                    event.user_id,
                )].password_hash@,
            ),
        ) is Err ==> r == Err::<(), AppError>(AppError::UnauthenticatedError) && final(scope)@
            == old(scope)@,
        old(scope)@.version < u64::MAX && has_user(old(scope)@.tables.users, event.user_id)
            && verdict_outcome(
            bcrypt_verdict(
                event.current_password@,
                old(scope)@.tables.users[user_pos(
                    old(scope)@.tables.users,
                    event.user_id,
                )].password_hash@,
            ),
        ) is Ok ==> (r is Ok || r == Err::<(), AppError>(AppError::PasswordHashError)),
        r is Ok ==> exists|h: String|
            h@.len() == 60 && bcrypt_verdict(event.new_password@, h@) == Some(true)
                && final(scope)@ == (StoreState {
                tables: with_password_hash(old(scope)@.tables, event.user_id, h),
                version: (old(scope)@.version + 1) as u64,
            }),
        r is Err ==> final(scope)@ == old(scope)@,
{
    let stored = match scope.acquire().find_password_hash_by_user_id(event.user_id) {
        Ok(h) => h,
        Err(e) => return Err(e),
    };
    match verify_password(event.current_password.as_str(), stored.as_str()) {
        Ok(()) => {},
        Err(e) => return Err(e),
    }
    let hash = match hash_password(event.new_password.as_str()) {
        Ok(h) => h,
        Err(e) => return Err(e),
    };
    scope.update_password_hash(event.user_id, hash)
}

/// Changes a user's role.
pub fn change_role(scope: &mut UnitOfWorkScopeImpl, event: UpdateUserRole) -> (r: AppResult<()>)
    requires
        old(scope).wf(),
    ensures
        final(scope).wf(),
        old(scope)@.version < u64::MAX ==> (r is Ok <==> has_user(
            old(scope)@.tables.users,
            event.user_id,
        )),
        r is Ok ==> final(scope)@ == (StoreState {
            tables: with_role(old(scope)@.tables, event.user_id, event.role),
            version: (old(scope)@.version + 1) as u64,
        }),
        r is Err ==> final(scope)@ == old(scope)@,
{
    scope.update_role(event)
}

/// Removes a user.
pub fn delete_user(scope: &mut UnitOfWorkScopeImpl, event: DeleteUser) -> (r: AppResult<()>)
    requires
        old(scope).wf(),
    ensures
        final(scope).wf(),
        old(scope)@.version < u64::MAX ==> (r is Ok <==> has_user(
            old(scope)@.tables.users,
            event.user_id,
        )),
        r is Ok ==> final(scope)@ == (StoreState {
            tables: without_user(old(scope)@.tables, event.user_id),
            version: (old(scope)@.version + 1) as u64,
        }),
        r is Err ==> final(scope)@ == old(scope)@,
{
    scope.delete_user(event)
}

/// Every user, latest registration first.
pub fn list_users(scope: &UnitOfWorkScopeImpl) -> (r: Vec<User>)
    requires
        scope.wf(),
    ensures
        r@ == users_latest_first(scope@.tables.users),
{
    scope.acquire().find_all_users()
}

/// The active checkouts a user holds, earliest first.
pub fn get_checkouts(scope: &UnitOfWorkScopeImpl, user_id: UserId) -> (r: Vec<Checkout>)
    requires
        scope.wf(),
    ensures
        r@ == unreturned_by_user(scope@.tables, user_id),
{
    let uow = scope.begin();
    uow.acquire().find_unreturned_by_user_id(user_id)
}

} // verus!
