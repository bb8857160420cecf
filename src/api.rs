//! Request and response shapes at the boundary, and their conversion into
//! the library's events.

use crate::error::{AppError, AppResult};
use crate::ids::{BookId, UserId};
use crate::model::book::{BookListOptions, CreateBook, UpdateBook};
use crate::model::checkout::CheckoutBook;
use crate::value::{BookAuthor, BookDescription, BookIsbn, BookTitle};
use vstd::prelude::*;

verus! {

/// The page size used when a listing names none.
pub const DEFAULT_LIMIT: i64 = 20;

/// The page size used when a listing names none.
pub fn default_limit() -> (r: i64)
    ensures
        r == DEFAULT_LIMIT,
{
    DEFAULT_LIMIT
}

/// A request to register a book.
#[derive(Debug)]
pub struct CreateBookRequest {
    pub title: String,
    pub author: String,
    pub isbn: String,
    pub description: String,
}

/// A request to change a book's fields.
#[derive(Debug)]
pub struct UpdateBookRequest {
    pub title: String,
    pub author: String,
    pub isbn: String,
    pub description: String,
}

/// An update request with the book it targets and the user who sent it.
pub struct UpdateBookRequestWithIds(pub BookId, pub UserId, pub UpdateBookRequest);

impl UpdateBookRequestWithIds {
    pub fn new(book_id: BookId, user_id: UserId, request: UpdateBookRequest) -> (r:
        UpdateBookRequestWithIds)
        ensures
            r.0 == book_id,
            r.1 == user_id,
            r.2 == request,
    {
        UpdateBookRequestWithIds(book_id, user_id, request)
    }
}

/// Paging of the book list.
#[derive(Debug, Clone, Copy, PartialEq, Eq, Structural)]
pub struct BookListQuery {
    pub limit: i64,
    pub offset: i64,
}

/// A body that passed validation.
pub struct ValidatedJson<T>(pub T);

/// A query that passed validation.
pub struct ValidatedQuery<T>(pub T);

/// The book fields shown with a checkout.
#[derive(Debug)]
pub struct CheckoutBookResponse {
    pub id: BookId,
    pub title: String,
    pub author: String,
    pub isbn: String,
}

/// Title, author and ISBN are non-empty.
pub open spec fn book_request_valid(title: Seq<char>, author: Seq<char>, isbn: Seq<char>) -> bool {
    title.len() > 0 && author.len() > 0 && isbn.len() > 0
}

impl CreateBook {
    /// Validates a registration request.
    pub fn from_request(value: CreateBookRequest) -> (r: AppResult<CreateBook>)
        ensures
            r is Ok <==> book_request_valid(value.title@, value.author@, value.isbn@),
            r matches Ok(e) ==> e.title@ == value.title@ && e.author@ == value.author@ && e.isbn@
                == value.isbn@ && e.description@ == value.description@,
            r is Err ==> r->Err_0 == AppError::ValidationError,
    {
        let title = match BookTitle::new(value.title) {
            Ok(v) => v,
            Err(e) => return Err(e),
        };
        let author = match BookAuthor::new(value.author) {
            Ok(v) => v,
            Err(e) => return Err(e),
        };
        let isbn = match BookIsbn::new(value.isbn) {
            Ok(v) => v,
            Err(e) => return Err(e),
        };
        let description = match BookDescription::new(value.description) {
            Ok(v) => v,
            Err(e) => return Err(e),
        };
        Ok(CreateBook { title, author, isbn, description })
    }
}

impl UpdateBook {
    /// Validates an update request and attaches its book and user.
    pub fn from_request(value: UpdateBookRequestWithIds) -> (r: AppResult<UpdateBook>)
        ensures
            r is Ok <==> book_request_valid(value.2.title@, value.2.author@, value.2.isbn@),
            r matches Ok(e) ==> e.book_id == value.0 && e.requested_user == value.1 && e.title@
                == value.2.title@ && e.author@ == value.2.author@ && e.isbn@ == value.2.isbn@
                && e.description@ == value.2.description@,
            r is Err ==> r->Err_0 == AppError::ValidationError,
    {
        let UpdateBookRequestWithIds(book_id, user_id, request) = value;
        let title = match BookTitle::new(request.title) {
            Ok(v) => v,
            Err(e) => return Err(e),
        };
        let author = match BookAuthor::new(request.author) {
            Ok(v) => v,
            Err(e) => return Err(e),
        };
        let isbn = match BookIsbn::new(request.isbn) {
            Ok(v) => v,
            Err(e) => return Err(e),
        };
        let description = match BookDescription::new(request.description) {
            Ok(v) => v,
            Err(e) => return Err(e),
        };
        Ok(UpdateBook { book_id, title, author, isbn, description, requested_user: user_id })
    }
}

impl BookListQuery {
    /// A query with the default paging.
    pub fn new() -> (r: BookListQuery)
        ensures
            r == (BookListQuery { limit: DEFAULT_LIMIT, offset: 0 }),
    {
        BookListQuery { limit: default_limit(), offset: 0 }
    }

    /// Neither the limit nor the offset may be negative.
    pub fn validate(&self) -> (r: AppResult<()>)
        ensures
            r is Ok <==> self.limit >= 0 && self.offset >= 0,
            r is Err ==> r->Err_0 == AppError::ValidationError,
    {
        if self.limit < 0 || self.offset < 0 {
            Err(AppError::ValidationError)
        } else {
            Ok(())
        }
    }
}

impl BookListOptions {
    /// The paging a query asks for.
    pub fn from_query(value: BookListQuery) -> (r: BookListOptions)
        ensures
            r == (BookListOptions { limit: value.limit, offset: value.offset }),
    {
        BookListOptions { limit: value.limit, offset: value.offset }
    }
}

impl CheckoutBookResponse {
    /// The response shape of a checkout's book.
    pub fn from_book(value: CheckoutBook) -> (r: CheckoutBookResponse)
        ensures
            r.id == value.book_id,
            r.title@ == value.title@,
            r.author@ == value.author@,
            r.isbn@ == value.isbn@,
    {
        let (id, title, author, isbn) = value.into_parts();
        CheckoutBookResponse {
            id,
            title: title.into_inner(),
            author: author.into_inner(),
            isbn: isbn.into_inner(),
        }
    }
}

} // verus!
