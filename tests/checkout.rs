use lending::error::AppError;
use lending::ids::{BookId, CheckoutId, UserId};
use lending::model::book::CreateBook;
use lending::model::checkout::{CheckoutState, CreateCheckout, UpdateReturned};
use lending::model::user::CreateUser;
use lending::store::{history_with_active, require_rows};
use lending::unit_of_work::UnitOfWorkScopeImpl;
use lending::use_case::checkout::{
    checkout_book, checkout_history, checkout_in_scope, decide_checkout, decide_return,
    return_book, show_checked_out_list,
};
use lending::use_case::user::get_checkouts;
use lending::value::{BookAuthor, BookDescription, BookIsbn, BookTitle, UserEmail, UserName};

fn id_of(text: &str) -> u128 {
    uuid::Uuid::parse_str(text).unwrap().as_u128()
}

fn new_user(scope: &mut UnitOfWorkScopeImpl, id: UserId, name: &str, email: &str) {
    let event = CreateUser {
        name: UserName::new(name.to_string()).unwrap(),
        email: UserEmail::new(email.to_string()).unwrap(),
        password: "dummy".to_string(),
    };
    scope.create_user(event, id, "stored-hash".to_string()).unwrap();
}

fn new_book(scope: &mut UnitOfWorkScopeImpl, id: BookId, owner: UserId, title: &str) {
    let event = CreateBook {
        title: BookTitle::new(title.to_string()).unwrap(),
        author: BookAuthor::new("Yuki Toyoda".to_string()).unwrap(),
        isbn: BookIsbn::new("978-4-00-000000-0".to_string()).unwrap(),
        description: BookDescription::new(String::new()).unwrap(),
    };
    scope.create_book(event, id, owner).unwrap();
}

fn init_repo() -> (UnitOfWorkScopeImpl, UserId, UserId, BookId) {
    let mut scope = UnitOfWorkScopeImpl::new();
    let user_id1 = UserId(id_of("9582f9de-0fd1-4892-b20c-70139a7eb95b"));
    let user_id2 = UserId(id_of("050afe56-c3da-4448-8e4d-6f44007d2ca5"));
    let book_id1 = BookId(id_of("9890736e-a4e4-461a-a77d-eac3517ef11b"));
    new_user(&mut scope, user_id1, "User One", "one@example.com");
    new_user(&mut scope, user_id2, "User Two", "two@example.com");
    new_book(&mut scope, book_id1, user_id1, "RustによるWebアプリケーション開発");
    (scope, user_id1, user_id2, book_id1)
}

fn checkout(book_id: BookId, user_id: UserId, at: i64) -> CreateCheckout {
    CreateCheckout { book_id, checked_out_by: user_id, checked_out_at: at }
}

fn give_back(checkout_id: CheckoutId, book_id: BookId, user_id: UserId, at: i64) -> UpdateReturned {
    UpdateReturned { checkout_id, book_id, returned_by: user_id, returned_at: at }
}

fn active_rows_of(scope: &UnitOfWorkScopeImpl, book_id: BookId) -> usize {
    show_checked_out_list(scope).iter().filter(|c| c.book.book_id == book_id).count()
}

#[test]
fn test_checkout_and_return() {
    let (mut repo, user_id1, user_id2, book_id1) = init_repo();

    assert!(get_checkouts(&repo, user_id1).is_empty());
    assert!(get_checkouts(&repo, user_id2).is_empty());
    assert!(repo.acquire().find_unreturned_by_book_id(book_id1).is_none());

    let res = checkout_book(&mut repo, checkout(BookId(1), user_id1, 100), CheckoutId(10));
    assert!(matches!(res, Err(AppError::EntityNotFound)));

    checkout_book(&mut repo, checkout(book_id1, user_id1, 100), CheckoutId(11)).unwrap();
    let co = repo.acquire().find_unreturned_by_book_id(book_id1);
    assert!(matches!(&co, Some(c) if c.book.book_id == book_id1 && c.checked_out_by == user_id1));

    let res = checkout_book(&mut repo, checkout(book_id1, user_id2, 101), CheckoutId(12));
    assert!(res.is_err());

    let co = co.unwrap();

    let res = return_book(&mut repo, give_back(co.id, BookId(2), user_id1, 102));
    assert!(matches!(res, Err(AppError::EntityNotFound)));

    let res = return_book(&mut repo, give_back(CheckoutId(99), book_id1, user_id1, 102));
    assert!(matches!(res, Err(AppError::UnprocessableEntity)));

    let res = return_book(&mut repo, give_back(co.id, book_id1, user_id2, 102));
    assert!(matches!(res, Err(AppError::UnprocessableEntity)));

    return_book(&mut repo, give_back(co.id, book_id1, user_id1, 102)).unwrap();
}

#[test]
fn test_checkout_list() {
    let (mut repo, user_id1, user_id2, book_id1) = init_repo();

    checkout_book(&mut repo, checkout(book_id1, user_id1, 100), CheckoutId(1)).unwrap();
    let co = repo.acquire().find_unreturned_by_book_id(book_id1).unwrap();
    assert_eq!(show_checked_out_list(&repo).len(), 1);
    assert_eq!(get_checkouts(&repo, user_id1).len(), 1);
    assert_eq!(get_checkouts(&repo, user_id2).len(), 0);
    assert_eq!(checkout_history(&repo, book_id1).len(), 1);

    return_book(&mut repo, give_back(co.id, book_id1, user_id1, 150)).unwrap();
    assert_eq!(show_checked_out_list(&repo).len(), 0);
    assert_eq!(get_checkouts(&repo, user_id1).len(), 0);
    assert_eq!(get_checkouts(&repo, user_id2).len(), 0);
    assert_eq!(checkout_history(&repo, book_id1).len(), 1);

    checkout_book(&mut repo, checkout(book_id1, user_id2, 200), CheckoutId(2)).unwrap();
    let co = repo.acquire().find_unreturned_by_book_id(book_id1).unwrap();
    assert_eq!(show_checked_out_list(&repo).len(), 1);
    assert_eq!(get_checkouts(&repo, user_id1).len(), 0);
    assert_eq!(get_checkouts(&repo, user_id2).len(), 1);
    assert_eq!(checkout_history(&repo, book_id1).len(), 2);

    return_book(&mut repo, give_back(co.id, book_id1, user_id2, 250)).unwrap();
    assert_eq!(show_checked_out_list(&repo).len(), 0);
    assert_eq!(get_checkouts(&repo, user_id1).len(), 0);
    assert_eq!(get_checkouts(&repo, user_id2).len(), 0);
    assert_eq!(checkout_history(&repo, book_id1).len(), 2);
}

#[test]
fn scenario_checkout_conflict_wrong_return_then_return() {
    let (mut repo, u1, u2, b1) = init_repo();
    checkout_book(&mut repo, checkout(b1, u1, 1), CheckoutId(500)).unwrap();
    assert_eq!(
        checkout_book(&mut repo, checkout(b1, u2, 2), CheckoutId(501)),
        Err(AppError::UnprocessableEntity)
    );
    assert_eq!(
        return_book(&mut repo, give_back(CheckoutId(777), b1, u1, 3)),
        Err(AppError::UnprocessableEntity)
    );
    assert_eq!(return_book(&mut repo, give_back(CheckoutId(500), b1, u1, 3)), Ok(()));
    assert_eq!(checkout_book(&mut repo, checkout(b1, u2, 4), CheckoutId(502)), Ok(()));
    let current = repo.acquire().find_unreturned_by_book_id(b1).unwrap();
    assert_eq!(current.id, CheckoutId(502));
    assert_eq!(current.checked_out_by, u2);
}

#[test]
fn round_trip_leaves_one_history_row() {
    let (mut repo, u1, _, b1) = init_repo();
    checkout_book(&mut repo, checkout(b1, u1, 1_000), CheckoutId(7)).unwrap();
    return_book(&mut repo, give_back(CheckoutId(7), b1, u1, 2_000)).unwrap();
    assert_eq!(active_rows_of(&repo, b1), 0);
    let history = checkout_history(&repo, b1);
    assert_eq!(history.len(), 1);
    assert_eq!(history[0].id, CheckoutId(7));
    assert_eq!(history[0].checked_out_by, u1);
    assert_eq!(history[0].book.book_id, b1);
    assert_eq!(history[0].checked_out_at, 1_000);
    assert_eq!(history[0].returned_at, Some(2_000));
}

#[test]
fn concurrent_checkouts_one_wins() {
    let (mut repo, u1, u2, b1) = init_repo();
    let mut first = repo.begin_serializable();
    let mut second = repo.begin_serializable();
    assert_eq!(checkout_in_scope(&mut first, &checkout(b1, u1, 10), CheckoutId(1)), Ok(()));
    assert_eq!(checkout_in_scope(&mut second, &checkout(b1, u2, 11), CheckoutId(2)), Ok(()));
    assert_eq!(repo.commit(first), Ok(()));
    assert_eq!(repo.commit(second), Err(AppError::SpecificOperationError));
    assert_eq!(active_rows_of(&repo, b1), 1);
    let current = repo.acquire().find_unreturned_by_book_id(b1).unwrap();
    assert_eq!(current.id, CheckoutId(1));
    // a later attempt sees the checkout and is refused as a conflict
    assert_eq!(
        checkout_book(&mut repo, checkout(b1, u2, 12), CheckoutId(3)),
        Err(AppError::UnprocessableEntity)
    );
}

#[test]
fn default_isolation_replay_hits_integrity_failure() {
    let (mut repo, u1, u2, b1) = init_repo();
    let mut first = repo.begin();
    let mut second = repo.begin();
    checkout_in_scope(&mut first, &checkout(b1, u1, 10), CheckoutId(1)).unwrap();
    checkout_in_scope(&mut second, &checkout(b1, u2, 11), CheckoutId(2)).unwrap();
    assert_eq!(repo.commit(first), Ok(()));
    assert_eq!(repo.commit(second), Err(AppError::NoRowsAffectedError));
    assert_eq!(active_rows_of(&repo, b1), 1);
}

#[test]
fn default_isolation_replays_independent_writes() {
    let (mut repo, u1, u2, b1) = init_repo();
    let b2 = BookId(2);
    new_book(&mut repo, b2, u2, "Second");
    let mut first = repo.begin();
    let mut second = repo.begin();
    checkout_in_scope(&mut first, &checkout(b1, u1, 10), CheckoutId(1)).unwrap();
    checkout_in_scope(&mut second, &checkout(b2, u2, 5), CheckoutId(2)).unwrap();
    assert_eq!(repo.commit(first), Ok(()));
    assert_eq!(repo.commit(second), Ok(()));
    let all = show_checked_out_list(&repo);
    assert_eq!(all.len(), 2);
    assert_eq!(all[0].id, CheckoutId(2));
    assert_eq!(all[1].id, CheckoutId(1));
}

#[test]
fn dropped_scope_writes_nothing() {
    let (repo, u1, _, b1) = init_repo();
    let mut scope = repo.begin_serializable();
    checkout_in_scope(&mut scope, &checkout(b1, u1, 10), CheckoutId(1)).unwrap();
    assert_eq!(scope.rollback(), Ok(()));
    assert_eq!(active_rows_of(&repo, b1), 0);
}

#[test]
fn wrong_holder_return_writes_no_history() {
    let (mut repo, u1, u2, b1) = init_repo();
    checkout_book(&mut repo, checkout(b1, u1, 10), CheckoutId(1)).unwrap();
    assert_eq!(
        return_book(&mut repo, give_back(CheckoutId(1), b1, u2, 20)),
        Err(AppError::UnprocessableEntity)
    );
    assert_eq!(checkout_history(&repo, b1).len(), 1);
    assert_eq!(active_rows_of(&repo, b1), 1);
}

#[test]
fn return_of_unknown_book_is_not_found() {
    let (mut repo, u1, _, _) = init_repo();
    assert_eq!(
        return_book(&mut repo, give_back(CheckoutId(1), BookId(404), u1, 20)),
        Err(AppError::EntityNotFound)
    );
}

#[test]
fn return_of_available_book_is_integrity_failure() {
    let (mut repo, u1, _, b1) = init_repo();
    assert_eq!(
        return_book(&mut repo, give_back(CheckoutId(1), b1, u1, 20)),
        Err(AppError::NoRowsAffectedError)
    );
}

#[test]
fn reused_checkout_id_is_integrity_failure() {
    let (mut repo, u1, u2, b1) = init_repo();
    let b2 = BookId(2);
    new_book(&mut repo, b2, u2, "Second");
    checkout_book(&mut repo, checkout(b1, u1, 10), CheckoutId(1)).unwrap();
    assert_eq!(
        checkout_book(&mut repo, checkout(b2, u2, 11), CheckoutId(1)),
        Err(AppError::NoRowsAffectedError)
    );
}

#[test]
fn history_lists_active_first_then_latest_returns() {
    let (mut repo, u1, u2, b1) = init_repo();
    checkout_book(&mut repo, checkout(b1, u1, 100), CheckoutId(1)).unwrap();
    return_book(&mut repo, give_back(CheckoutId(1), b1, u1, 150)).unwrap();
    checkout_book(&mut repo, checkout(b1, u2, 200), CheckoutId(2)).unwrap();
    return_book(&mut repo, give_back(CheckoutId(2), b1, u2, 250)).unwrap();
    checkout_book(&mut repo, checkout(b1, u1, 300), CheckoutId(3)).unwrap();
    let history = checkout_history(&repo, b1);
    let ids: Vec<CheckoutId> = history.iter().map(|c| c.id).collect();
    assert_eq!(ids, vec![CheckoutId(3), CheckoutId(2), CheckoutId(1)]);
    assert_eq!(history[0].returned_at, None);
    assert_eq!(history[1].returned_at, Some(250));
    assert_eq!(history[2].returned_at, Some(150));
}

#[test]
fn history_orders_returns_by_checkout_time_not_insertion() {
    let (mut repo, u1, _, b1) = init_repo();
    checkout_book(&mut repo, checkout(b1, u1, 500), CheckoutId(1)).unwrap();
    return_book(&mut repo, give_back(CheckoutId(1), b1, u1, 600)).unwrap();
    checkout_book(&mut repo, checkout(b1, u1, 100), CheckoutId(2)).unwrap();
    return_book(&mut repo, give_back(CheckoutId(2), b1, u1, 700)).unwrap();
    let ids: Vec<CheckoutId> = checkout_history(&repo, b1).iter().map(|c| c.id).collect();
    assert_eq!(ids, vec![CheckoutId(1), CheckoutId(2)]);
}

#[test]
fn lists_join_book_fields() {
    let (mut repo, u1, _, b1) = init_repo();
    checkout_book(&mut repo, checkout(b1, u1, 100), CheckoutId(1)).unwrap();
    let list = get_checkouts(&repo, u1);
    assert_eq!(list[0].book.title.as_str(), "RustによるWebアプリケーション開発");
    assert_eq!(list[0].book.author.as_str(), "Yuki Toyoda");
    assert_eq!(list[0].book.isbn.as_str(), "978-4-00-000000-0");
}

#[test]
fn decisions_follow_the_projection() {
    let b = BookId(1);
    assert_eq!(decide_checkout(None), Err(AppError::EntityNotFound));
    let free = CheckoutState { book_id: b, checkout_id: None, user_id: None };
    assert_eq!(decide_checkout(Some(free)), Ok(()));
    let lent =
        CheckoutState { book_id: b, checkout_id: Some(CheckoutId(5)), user_id: Some(UserId(9)) };
    assert_eq!(decide_checkout(Some(lent)), Err(AppError::UnprocessableEntity));
    let ok = give_back(CheckoutId(5), b, UserId(9), 1);
    assert_eq!(decide_return(Some(lent), &ok), Ok(()));
    let wrong_user = give_back(CheckoutId(5), b, UserId(8), 1);
    assert_eq!(decide_return(Some(lent), &wrong_user), Err(AppError::UnprocessableEntity));
    let wrong_id = give_back(CheckoutId(6), b, UserId(9), 1);
    assert_eq!(decide_return(Some(lent), &wrong_id), Err(AppError::UnprocessableEntity));
    assert_eq!(decide_return(None, &ok), Err(AppError::EntityNotFound));
    assert_eq!(decide_return(Some(free), &ok), Ok(()));
}

#[test]
fn checkout_by_unknown_user_is_storage_error() {
    let (mut repo, _, _, b1) = init_repo();
    assert_eq!(
        checkout_book(&mut repo, checkout(b1, UserId(12345), 1), CheckoutId(1)),
        Err(AppError::SpecificOperationError)
    );
    assert_eq!(active_rows_of(&repo, b1), 0);
}

#[test]
fn store_is_reachable() {
    assert!(UnitOfWorkScopeImpl::new().check_db());
}

#[test]
fn return_naming_another_books_checkout_moves_nothing() {
    let (mut repo, u1, u2, b1) = init_repo();
    let b2 = BookId(2);
    new_book(&mut repo, b2, u2, "Second");
    checkout_book(&mut repo, checkout(b1, u1, 10), CheckoutId(1)).unwrap();
    assert_eq!(
        return_book(&mut repo, give_back(CheckoutId(1), b2, u2, 20)),
        Err(AppError::NoRowsAffectedError)
    );
    assert_eq!(active_rows_of(&repo, b1), 1);
    assert_eq!(checkout_history(&repo, b1).len(), 1);
    assert_eq!(checkout_history(&repo, b1)[0].returned_at, None);
    assert!(checkout_history(&repo, b2).is_empty());
}

#[test]
fn rows_affected_check() {
    assert_eq!(require_rows(0), Err(AppError::NoRowsAffectedError));
    assert_eq!(require_rows(1), Ok(()));
    assert_eq!(require_rows(3), Ok(()));
}

#[test]
fn return_dated_before_checkout_is_refused() {
    let (mut repo, u1, _, b1) = init_repo();
    checkout_book(&mut repo, checkout(b1, u1, 1_000), CheckoutId(1)).unwrap();
    assert_eq!(
        return_book(&mut repo, give_back(CheckoutId(1), b1, u1, 999)),
        Err(AppError::UnprocessableEntity)
    );
    assert_eq!(active_rows_of(&repo, b1), 1);
    assert_eq!(return_book(&mut repo, give_back(CheckoutId(1), b1, u1, 1_000)), Ok(()));
    let history = checkout_history(&repo, b1);
    assert_eq!(history.len(), 1);
    assert_eq!(history[0].returned_at, Some(1_000));
}

#[test]
fn history_parts_are_joined_active_first() {
    let (mut repo, u1, _, b1) = init_repo();
    checkout_book(&mut repo, checkout(b1, u1, 10), CheckoutId(1)).unwrap();
    return_book(&mut repo, give_back(CheckoutId(1), b1, u1, 20)).unwrap();
    checkout_book(&mut repo, checkout(b1, u1, 30), CheckoutId(2)).unwrap();
    let current = repo.acquire().find_unreturned_by_book_id(b1);
    let mut past = checkout_history(&repo, b1);
    past.remove(0);
    let joined = history_with_active(current, past);
    let ids: Vec<CheckoutId> = joined.iter().map(|c| c.id).collect();
    assert_eq!(ids, vec![CheckoutId(2), CheckoutId(1)]);
    let only_past = history_with_active(None, checkout_history(&repo, b1));
    assert_eq!(only_past.len(), 2);
}
