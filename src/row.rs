//! Rows as a relational backend returns them, and their conversion into the
//! library's validated types. Times are microseconds since the Unix epoch.

use crate::error::{AppError, AppResult};
use crate::ids::{BookId, CheckoutId, UserId};
use crate::model::book::{Book, Checkout as BookCheckout};
use crate::model::checkout::{Checkout, CheckoutBook, CheckoutState};
use crate::model::user::{BookOwner, CheckoutUser};
use crate::value::{BookAuthor, BookDescription, BookIsbn, BookTitle, UserName};
use vstd::prelude::*;

verus! {

/// A book joined with its owner's name.
pub struct BookRow {
    pub book_id: BookId,
    pub title: String,
    pub author: String,
    pub isbn: String,
    pub description: String,
    pub owned_by: UserId,
    pub owner_name: String,
}

/// The total count of a listing, with one id of it.
#[derive(Debug, Clone, Copy, PartialEq, Eq, Structural)]
pub struct PaginatedBookRow {
    pub total: i64,
    pub id: BookId,
}

/// A book's active checkout joined with its holder's name.
pub struct BookCheckoutRow {
    pub checkout_id: CheckoutId,
    pub book_id: BookId,
    pub user_id: UserId,
    pub user_name: String,
    pub checked_out_at: i64,
}

/// The projection that decides a transition, as read.
#[derive(Debug, Clone, Copy, PartialEq, Eq, Structural)]
pub struct CheckoutStateRow {
    pub book_id: BookId,
    pub checkout_id: Option<CheckoutId>,
    pub user_id: Option<UserId>,
}

/// An active checkout joined with its book.
pub struct CheckoutRow {
    pub checkout_id: CheckoutId,
    pub book_id: BookId,
    pub user_id: UserId,
    pub checked_out_at: i64,
    pub title: String,
    pub author: String,
    pub isbn: String,
}

/// A returned checkout joined with its book.
pub struct ReturnedCheckoutRow {
    pub checkout_id: CheckoutId,
    pub book_id: BookId,
    pub user_id: UserId,
    pub checked_out_at: i64,
    pub returned_at: i64,
    pub title: String,
    pub author: String,
    pub isbn: String,
}

/// The three book fields shown with a checkout are all non-empty.
pub open spec fn book_fields_valid(title: Seq<char>, author: Seq<char>, isbn: Seq<char>) -> bool {
    title.len() > 0 && author.len() > 0 && isbn.len() > 0
}

fn checkout_book_from(book_id: BookId, title: String, author: String, isbn: String) -> (r:
    AppResult<CheckoutBook>)
    ensures
        r is Ok <==> book_fields_valid(title@, author@, isbn@),
        r matches Ok(b) ==> b.book_id == book_id && b.title@ == title@ && b.author@ == author@
            && b.isbn@ == isbn@,
        r is Err ==> r->Err_0 == AppError::ValidationError,
{
    let title = match BookTitle::new(title) {
        Ok(v) => v,
        Err(e) => return Err(e),
    };
    let author = match BookAuthor::new(author) {
        Ok(v) => v,
        Err(e) => return Err(e),
    };
    let isbn = match BookIsbn::new(isbn) {
        Ok(v) => v,
        Err(e) => return Err(e),
    };
    Ok(CheckoutBook { book_id, title, author, isbn })
}

impl BookRow {
    /// The book this row describes, with the given current checkout; fails
    /// validation when the title, author, ISBN or owner name is empty.
    pub fn try_into_book(self, checkout: Option<BookCheckout>) -> (r: AppResult<Book>)
        ensures
            r is Ok <==> book_fields_valid(self.title@, self.author@, self.isbn@)
                && self.owner_name@.len() > 0,
            r matches Ok(b) ==> b.id == self.book_id && b.title@ == self.title@ && b.author@
                == self.author@ && b.isbn@ == self.isbn@ && b.description@ == self.description@
                && b.owner.id == self.owned_by && b.owner.name@ == self.owner_name@ && b.checkout
                == checkout,
            r is Err ==> r->Err_0 == AppError::ValidationError,
    {
        let title = match BookTitle::new(self.title) {
            Ok(v) => v,
            Err(e) => return Err(e),
        };
        let author = match BookAuthor::new(self.author) {
            Ok(v) => v,
            Err(e) => return Err(e),
        };
        let isbn = match BookIsbn::new(self.isbn) {
            Ok(v) => v,
            Err(e) => return Err(e),
        };
        let description = match BookDescription::new(self.description) {
            Ok(v) => v,
            Err(e) => return Err(e),
        };
        let owner_name = match UserName::new(self.owner_name) {
            Ok(v) => v,
            Err(e) => return Err(e),
        };
        Ok(
            Book {
                id: self.book_id,
                title,
                author,
                isbn,
                description,
                owner: BookOwner { id: self.owned_by, name: owner_name },
                checkout,
            },
        )
    }
}

impl BookCheckoutRow {
    /// The checkout shown with a book; fails validation when the holder's
    /// name is empty.
    pub fn try_into_checkout(self) -> (r: AppResult<BookCheckout>)
        ensures
            r is Ok <==> self.user_name@.len() > 0,
            r matches Ok(c) ==> c.checkout_id == self.checkout_id && c.checked_out_by.id
                == self.user_id && c.checked_out_by.name@ == self.user_name@ && c.checked_out_at
                == self.checked_out_at,
            r is Err ==> r->Err_0 == AppError::ValidationError,
    {
        let name = match UserName::new(self.user_name) {
            Ok(v) => v,
            Err(e) => return Err(e),
        };
        Ok(
            BookCheckout {
                checkout_id: self.checkout_id,
                checked_out_by: CheckoutUser { id: self.user_id, name },
                checked_out_at: self.checked_out_at,
            },
        )
    }
}

impl CheckoutStateRow {
    /// The projection this row holds.
    pub fn into_state(self) -> (r: CheckoutState)
        ensures
            r == (CheckoutState {
                book_id: self.book_id,
                checkout_id: self.checkout_id,
                user_id: self.user_id,
            }),
    {
        CheckoutState { book_id: self.book_id, checkout_id: self.checkout_id, user_id: self.user_id }
    }
}

impl CheckoutRow {
    /// The active checkout this row describes; fails validation when a book
    /// field is empty.
    pub fn try_into_checkout(self) -> (r: AppResult<Checkout>)
        ensures
            r is Ok <==> book_fields_valid(self.title@, self.author@, self.isbn@),
            r matches Ok(c) ==> c.id == self.checkout_id && c.checked_out_by == self.user_id
                && c.checked_out_at == self.checked_out_at && c.returned_at is None
                && c.book.book_id == self.book_id && c.book.title@ == self.title@
                && c.book.author@ == self.author@ && c.book.isbn@ == self.isbn@,
            r is Err ==> r->Err_0 == AppError::ValidationError,
    {
        let book = match checkout_book_from(self.book_id, self.title, self.author, self.isbn) {
            Ok(b) => b,
            Err(e) => return Err(e),
        };
        Ok(
            Checkout {
                id: self.checkout_id,
                checked_out_by: self.user_id,
                checked_out_at: self.checked_out_at,
                returned_at: None,
                book,
            },
        )
    }
}

impl ReturnedCheckoutRow {
    /// The returned checkout this row describes; fails validation when a book
    /// field is empty.
    pub fn try_into_checkout(self) -> (r: AppResult<Checkout>)
        ensures
            r is Ok <==> book_fields_valid(self.title@, self.author@, self.isbn@),
            r matches Ok(c) ==> c.id == self.checkout_id && c.checked_out_by == self.user_id
                && c.checked_out_at == self.checked_out_at && c.returned_at == Some(
                self.returned_at,
            ) && c.book.book_id == self.book_id && c.book.title@ == self.title@
                && c.book.author@ == self.author@ && c.book.isbn@ == self.isbn@,
            r is Err ==> r->Err_0 == AppError::ValidationError,
    {
        let book = match checkout_book_from(self.book_id, self.title, self.author, self.isbn) {
            Ok(b) => b,
            Err(e) => return Err(e),
        };
        Ok(
            Checkout {
                id: self.checkout_id,
                checked_out_by: self.user_id,
                checked_out_at: self.checked_out_at,
                returned_at: Some(self.returned_at),
                book,
            },
        )
    }
}

} // verus!
