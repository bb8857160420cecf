use lending::auth::{AccessToken, AuthRepositoryImpl, AuthorizedUser};
use lending::error::AppError;
use lending::ids::UserId;
use lending::model::user::{CreateUser, DeleteUser, Role, UpdateUserPassword, UpdateUserRole, User};
use lending::password::{check_verdict, hash_password, verify_password};
use lending::unit_of_work::UnitOfWorkScopeImpl;
use lending::use_case::auth::{find_authorized_user, finish_login, login, logout};
use lending::use_case::user::{change_password, change_role, delete_user, list_users, register_user};
use lending::value::{UserEmail, UserName};

fn token(text: &str) -> AccessToken {
    AccessToken(text.to_string())
}

fn create_user_event(name: &str, email: &str, password: &str) -> CreateUser {
    CreateUser {
        name: UserName::new(name.to_string()).unwrap(),
        email: UserEmail::new(email.to_string()).unwrap(),
        password: password.to_string(),
    }
}

#[test]
fn token_lookup_respects_ttl() {
    let mut tokens = AuthRepositoryImpl::new(100);
    assert_eq!(tokens.ttl(), 100);
    tokens.create_token(UserId(1), token("t1"), 1_000).unwrap();
    assert_eq!(tokens.fetch_user_id_from_token(&token("t1"), 1_000), Ok(Some(UserId(1))));
    assert_eq!(tokens.fetch_user_id_from_token(&token("t1"), 1_099), Ok(Some(UserId(1))));
    assert_eq!(tokens.fetch_user_id_from_token(&token("t1"), 1_100), Ok(None));
    assert_eq!(tokens.fetch_user_id_from_token(&token("other"), 1_000), Ok(None));
}

#[test]
fn token_recreation_overwrites() {
    let mut tokens = AuthRepositoryImpl::new(10);
    tokens.create_token(UserId(1), token("t"), 0).unwrap();
    tokens.create_token(UserId(2), token("t"), 100).unwrap();
    assert_eq!(tokens.fetch_user_id_from_token(&token("t"), 105), Ok(Some(UserId(2))));
}

#[test]
fn token_expiry_saturates() {
    let mut tokens = AuthRepositoryImpl::new(u64::MAX);
    tokens.create_token(UserId(3), token("t"), i64::MAX - 1).unwrap();
    assert_eq!(tokens.fetch_user_id_from_token(&token("t"), i64::MAX - 1), Ok(Some(UserId(3))));
    assert_eq!(tokens.fetch_user_id_from_token(&token("t"), i64::MAX), Ok(None));
}

#[test]
fn token_delete_is_idempotent() {
    let mut tokens = AuthRepositoryImpl::new(100);
    tokens.create_token(UserId(1), token("a"), 0).unwrap();
    tokens.create_token(UserId(2), token("b"), 0).unwrap();
    assert_eq!(tokens.delete_token(token("a")), Ok(()));
    assert_eq!(tokens.delete_token(token("a")), Ok(()));
    assert_eq!(tokens.fetch_user_id_from_token(&token("a"), 1), Ok(None));
    assert_eq!(tokens.fetch_user_id_from_token(&token("b"), 1), Ok(Some(UserId(2))));
}

#[test]
fn login_issues_token_only_for_matching_password() {
    let mut scope = UnitOfWorkScopeImpl::new();
    let mut tokens = AuthRepositoryImpl::new(1_000);
    let uid = UserId(42);
    register_user(&mut scope, create_user_event("Eleazar Fig", "eleazar.fig@example.com", "pw"), uid)
        .unwrap();
    let bad = login(&scope, &mut tokens, "eleazar.fig@example.com", "nope", token("x"), 0);
    assert_eq!(bad, Err(AppError::UnauthenticatedError));
    assert_eq!(tokens.fetch_user_id_from_token(&token("x"), 0), Ok(None));
    let unknown = login(&scope, &mut tokens, "nobody@example.com", "pw", token("y"), 0);
    assert_eq!(unknown, Err(AppError::EntityNotFound));
    let (who, t) = login(&scope, &mut tokens, "eleazar.fig@example.com", "pw", token("z"), 0)
        .unwrap();
    assert_eq!(who, uid);
    assert_eq!(t, token("z"));
    let user = find_authorized_user(&scope, &tokens, &token("z"), 10).unwrap();
    assert_eq!(user.id, uid);
    assert_eq!(user.name.as_str(), "Eleazar Fig");
    assert_eq!(user.role, Role::User);
    assert_eq!(
        find_authorized_user(&scope, &tokens, &token("z"), 1_000),
        Err(AppError::UnauthenticatedError)
    );
    assert_eq!(logout(&mut tokens, token("z")), Ok(()));
    assert_eq!(
        find_authorized_user(&scope, &tokens, &token("z"), 10),
        Err(AppError::UnauthenticatedError)
    );
}

#[test]
fn token_of_removed_user_is_unauthenticated() {
    let mut scope = UnitOfWorkScopeImpl::new();
    let mut tokens = AuthRepositoryImpl::new(1_000);
    scope.create_user(create_user_event("A", "a@example.com", "pw"), UserId(1), "h".into()).unwrap();
    tokens.create_token(UserId(1), token("t"), 0).unwrap();
    assert!(find_authorized_user(&scope, &tokens, &token("t"), 1).is_ok());
    delete_user(&mut scope, DeleteUser { user_id: UserId(1) }).unwrap();
    assert_eq!(
        find_authorized_user(&scope, &tokens, &token("t"), 1),
        Err(AppError::UnauthenticatedError)
    );
}

#[test]
fn finish_login_by_verdict() {
    let mut tokens = AuthRepositoryImpl::new(5);
    assert_eq!(
        finish_login(&mut tokens, UserId(1), Some(false), token("a"), 0),
        Err(AppError::UnauthenticatedError)
    );
    assert_eq!(
        finish_login(&mut tokens, UserId(1), None, token("a"), 0),
        Err(AppError::UnauthenticatedError)
    );
    assert_eq!(tokens.fetch_user_id_from_token(&token("a"), 0), Ok(None));
    assert_eq!(
        finish_login(&mut tokens, UserId(1), Some(true), token("a"), 0),
        Ok((UserId(1), token("a")))
    );
    assert_eq!(tokens.fetch_user_id_from_token(&token("a"), 4), Ok(Some(UserId(1))));
    assert_eq!(tokens.fetch_user_id_from_token(&token("a"), 5), Ok(None));
}

#[test]
fn verdicts_and_hashes() {
    assert_eq!(check_verdict(Some(true)), Ok(()));
    assert_eq!(check_verdict(Some(false)), Err(AppError::UnauthenticatedError));
    assert_eq!(check_verdict(None), Err(AppError::UnauthenticatedError));
    let h = hash_password("secret").unwrap();
    assert_eq!(h.chars().count(), 60);
    assert_ne!(h, "secret");
    assert_eq!(verify_password("secret", &h), Ok(()));
    assert_eq!(verify_password("other", &h), Err(AppError::UnauthenticatedError));
    assert_eq!(verify_password("secret", "not a hash"), Err(AppError::UnauthenticatedError));
}

#[test]
fn test_find_current_user() {
    let mut scope = UnitOfWorkScopeImpl::new();
    let current_user_id = UserId(uuid::Uuid::parse_str("5b4c96ac-316a-4bee-8e69-cac5eb84ff4c").unwrap().as_u128());
    scope
        .create_user(
            create_user_event("Eleazar Fig", "eleazar.fig@example.com", "pw"),
            current_user_id,
            "h".into(),
        )
        .unwrap();
    change_role(&mut scope, UpdateUserRole { user_id: current_user_id, role: Role::Admin }).unwrap();
    let me = scope.acquire().find_current_user(current_user_id);
    assert!(me.is_some());
    assert_eq!(
        me,
        Some(User {
            id: current_user_id,
            email: UserEmail::new("eleazar.fig@example.com".into()).unwrap(),
            name: UserName::new("Eleazar Fig".into()).unwrap(),
            role: Role::Admin,
        })
    );
}

#[test]
fn test_users() {
    let mut scope = UnitOfWorkScopeImpl::new();
    let user = register_user(&mut scope, create_user_event("Test", "test@example.com", "dummy"), UserId(77))
        .unwrap();
    change_password(
        &mut scope,
        UpdateUserPassword {
            user_id: user.id,
            current_password: "dummy".into(),
            new_password: "new_password".into(),
        },
    )
    .unwrap();
    change_role(&mut scope, UpdateUserRole { user_id: user.id, role: Role::Admin }).unwrap();

    let user_found = scope.acquire().find_current_user(user.id);
    assert_eq!(user_found.unwrap().id, user.id);

    let users = list_users(&scope);
    assert!(!users.is_empty());

    delete_user(&mut scope, DeleteUser { user_id: user.id }).unwrap();
    assert!(scope.acquire().find_current_user(user.id).is_none());
}

#[test]
fn change_password_requires_current_password() {
    let mut scope = UnitOfWorkScopeImpl::new();
    register_user(&mut scope, create_user_event("T", "t@example.com", "old"), UserId(5)).unwrap();
    let wrong = UpdateUserPassword {
        user_id: UserId(5),
        current_password: "bad".into(),
        new_password: "new".into(),
    };
    assert_eq!(change_password(&mut scope, wrong), Err(AppError::UnauthenticatedError));
    let missing = UpdateUserPassword {
        user_id: UserId(6),
        current_password: "old".into(),
        new_password: "new".into(),
    };
    assert_eq!(change_password(&mut scope, missing), Err(AppError::EntityNotFound));
    let right = UpdateUserPassword {
        user_id: UserId(5),
        current_password: "old".into(),
        new_password: "new".into(),
    };
    assert_eq!(change_password(&mut scope, right), Ok(()));
    let (_, stored) = scope.acquire().find_password_hash_by_email("t@example.com").unwrap();
    assert_eq!(verify_password("new", &stored), Ok(()));
    assert_eq!(verify_password("old", &stored), Err(AppError::UnauthenticatedError));
}

#[test]
fn duplicate_user_id_or_email_is_refused() {
    let mut scope = UnitOfWorkScopeImpl::new();
    scope.create_user(create_user_event("A", "a@example.com", "p"), UserId(1), "h".into()).unwrap();
    assert_eq!(
        scope.create_user(create_user_event("B", "b@example.com", "p"), UserId(1), "h".into()),
        Err(AppError::NoRowsAffectedError)
    );
    assert_eq!(
        scope.create_user(create_user_event("C", "a@example.com", "p"), UserId(2), "h".into()),
        Err(AppError::NoRowsAffectedError)
    );
    assert_eq!(
        change_role(&mut scope, UpdateUserRole { user_id: UserId(9), role: Role::Admin }),
        Err(AppError::EntityNotFound)
    );
    assert_eq!(delete_user(&mut scope, DeleteUser { user_id: UserId(9) }), Err(AppError::EntityNotFound));
}

#[test]
fn list_users_latest_first() {
    let mut scope = UnitOfWorkScopeImpl::new();
    scope.create_user(create_user_event("A", "a@example.com", "p"), UserId(1), "h".into()).unwrap();
    scope.create_user(create_user_event("B", "b@example.com", "p"), UserId(2), "h".into()).unwrap();
    let ids: Vec<UserId> = list_users(&scope).iter().map(|u| u.id).collect();
    assert_eq!(ids, vec![UserId(2), UserId(1)]);
}

#[test]
fn authorized_user_admin_flag() {
    let admin = AuthorizedUser {
        access_token: token("t"),
        user: User::new(
            UserId(1),
            UserName::new("Root".into()).unwrap(),
            UserEmail::new("root@example.com".into()).unwrap(),
            Role::Admin,
        ),
    };
    assert!(admin.is_admin());
    assert_eq!(admin.id(), UserId(1));
    let plain = AuthorizedUser {
        access_token: token("u"),
        user: User::new(
            UserId(2),
            UserName::new("Plain".into()).unwrap(),
            UserEmail::new("plain@example.com".into()).unwrap(),
            Role::User,
        ),
    };
    assert!(!plain.is_admin());
}

#[test]
fn eviction_drops_only_expired_tokens() {
    let mut tokens = AuthRepositoryImpl::new(100);
    tokens.create_token(UserId(1), token("old"), 0).unwrap();
    tokens.create_token(UserId(2), token("new"), 50).unwrap();
    tokens.evict_expired(120);
    assert_eq!(tokens.fetch_user_id_from_token(&token("old"), 0), Ok(None));
    assert_eq!(tokens.fetch_user_id_from_token(&token("new"), 120), Ok(Some(UserId(2))));
    tokens.evict_expired(150);
    assert_eq!(tokens.fetch_user_id_from_token(&token("new"), 100), Ok(None));
}
