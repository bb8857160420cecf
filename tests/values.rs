use lending::api::{
    default_limit, BookListQuery, CheckoutBookResponse, CreateBookRequest, UpdateBookRequest,
    UpdateBookRequestWithIds,
};
use lending::error::AppError;
use lending::ids::{BookId, CheckoutId, UserId};
use lending::model::book::{BookListOptions, CreateBook, UpdateBook};
use lending::model::checkout::CheckoutBook;
use lending::row::{BookCheckoutRow, BookRow, CheckoutRow, CheckoutStateRow, ReturnedCheckoutRow};
use lending::value::{BookAuthor, BookDescription, BookIsbn, BookTitle, UserEmail, UserName};

#[test]
fn non_empty_values() {
    assert_eq!(BookTitle::new(String::new()), Err(AppError::ValidationError));
    assert_eq!(BookAuthor::new(String::new()), Err(AppError::ValidationError));
    assert_eq!(BookIsbn::new(String::new()), Err(AppError::ValidationError));
    assert_eq!(UserName::new(String::new()), Err(AppError::ValidationError));
    assert_eq!(BookTitle::new("T".into()).unwrap().into_inner(), "T");
    assert_eq!(BookDescription::new(String::new()).unwrap().as_str(), "");
}

#[test]
fn email_values() {
    assert_eq!(UserEmail::new("test@example.com".into()).unwrap().as_str(), "test@example.com");
    assert_eq!(UserEmail::new("no-at-sign".into()), Err(AppError::ValidationError));
    assert_eq!(UserEmail::new(String::new()), Err(AppError::ValidationError));
}

#[test]
fn create_book_request_validation() {
    let ok = CreateBookRequest {
        title: "T".into(),
        author: "A".into(),
        isbn: "I".into(),
        description: String::new(),
    };
    let event = CreateBook::from_request(ok).unwrap();
    assert_eq!(event.title.as_str(), "T");
    assert_eq!(event.description.as_str(), "");
    let bad = CreateBookRequest {
        title: "T".into(),
        author: String::new(),
        isbn: "I".into(),
        description: "D".into(),
    };
    assert!(matches!(CreateBook::from_request(bad), Err(AppError::ValidationError)));
}

#[test]
fn update_book_request_carries_ids() {
    let req = UpdateBookRequest {
        title: "T".into(),
        author: "A".into(),
        isbn: "I".into(),
        description: "D".into(),
    };
    let event = UpdateBook::from_request(UpdateBookRequestWithIds::new(BookId(3), UserId(4), req))
        .unwrap();
    assert_eq!(event.book_id, BookId(3));
    assert_eq!(event.requested_user, UserId(4));
    assert_eq!(event.isbn.as_str(), "I");
    let bad = UpdateBookRequest {
        title: String::new(),
        author: "A".into(),
        isbn: "I".into(),
        description: "D".into(),
    };
    assert!(UpdateBook::from_request(UpdateBookRequestWithIds::new(BookId(3), UserId(4), bad))
        .is_err());
}

#[test]
fn list_query_paging() {
    assert_eq!(default_limit(), 20);
    let q = BookListQuery::new();
    assert_eq!(q, BookListQuery { limit: 20, offset: 0 });
    assert_eq!(q.validate(), Ok(()));
    assert_eq!(BookListQuery { limit: -1, offset: 0 }.validate(), Err(AppError::ValidationError));
    assert_eq!(BookListQuery { limit: 50, offset: -3 }.validate(), Err(AppError::ValidationError));
    let opts = BookListOptions::from_query(BookListQuery { limit: 50, offset: 20 });
    assert_eq!(opts, BookListOptions { limit: 50, offset: 20 });
}

#[test]
fn checkout_book_response_fields() {
    let book = CheckoutBook::new(
        BookId(1),
        BookTitle::new("T".into()).unwrap(),
        BookAuthor::new("A".into()).unwrap(),
        BookIsbn::new("I".into()).unwrap(),
    );
    let r = CheckoutBookResponse::from_book(book);
    assert_eq!(r.id, BookId(1));
    assert_eq!((r.title.as_str(), r.author.as_str(), r.isbn.as_str()), ("T", "A", "I"));
}

#[test]
fn rows_convert_with_validation() {
    let state = CheckoutStateRow { book_id: BookId(1), checkout_id: Some(CheckoutId(2)), user_id: None }
        .into_state();
    assert_eq!(state.checkout_id, Some(CheckoutId(2)));
    assert_eq!(state.user_id, None);

    let row = CheckoutRow {
        checkout_id: CheckoutId(2),
        book_id: BookId(1),
        user_id: UserId(3),
        checked_out_at: 10,
        title: "T".into(),
        author: "A".into(),
        isbn: "I".into(),
    };
    let c = row.try_into_checkout().unwrap();
    assert_eq!((c.id, c.checked_out_by, c.checked_out_at, c.returned_at), (CheckoutId(2), UserId(3), 10, None));

    let returned = ReturnedCheckoutRow {
        checkout_id: CheckoutId(2),
        book_id: BookId(1),
        user_id: UserId(3),
        checked_out_at: 10,
        returned_at: 20,
        title: "T".into(),
        author: "A".into(),
        isbn: String::new(),
    };
    assert!(matches!(returned.try_into_checkout(), Err(AppError::ValidationError)));

    let holder = BookCheckoutRow {
        checkout_id: CheckoutId(2),
        book_id: BookId(1),
        user_id: UserId(3),
        user_name: "Holder".into(),
        checked_out_at: 10,
    }
    .try_into_checkout()
    .unwrap();
    assert_eq!(holder.checked_out_by.name.as_str(), "Holder");

    let book = BookRow {
        book_id: BookId(1),
        title: "T".into(),
        author: "A".into(),
        isbn: "I".into(),
        description: String::new(),
        owned_by: UserId(3),
        owner_name: "Owner".into(),
    }
    .try_into_book(Some(holder))
    .unwrap();
    assert_eq!(book.owner.name.as_str(), "Owner");
    assert_eq!(book.checkout().unwrap().id(), CheckoutId(2));

    let nameless = BookRow {
        book_id: BookId(1),
        title: "T".into(),
        author: "A".into(),
        isbn: "I".into(),
        description: String::new(),
        owned_by: UserId(3),
        owner_name: String::new(),
    };
    assert!(matches!(nameless.try_into_book(None), Err(AppError::ValidationError)));
}
