use crate::ids::{BookId, CheckoutId, UserId};
use crate::value::{BookAuthor, BookIsbn, BookTitle};
use vstd::prelude::*;

verus! {

/// A checkout as read back: active when `returned_at` is `None`.
/// Times are microseconds since the Unix epoch.
#[derive(Debug)]
pub struct Checkout {
    pub id: CheckoutId,
    pub checked_out_by: UserId,
    pub checked_out_at: i64,
    pub returned_at: Option<i64>,
    pub book: CheckoutBook,
}

impl Checkout {
    pub fn new(
        id: CheckoutId,
        checked_out_by: UserId,
        checked_out_at: i64,
        returned_at: Option<i64>,
        book: CheckoutBook,
    ) -> (r: Checkout)
        ensures
            r == (Checkout { id, checked_out_by, checked_out_at, returned_at, book }),
    {
        Checkout { id, checked_out_by, checked_out_at, returned_at, book }
    }

    pub fn id(&self) -> (r: CheckoutId)
        ensures
            r == self.id,
    {
        self.id
    }

    pub fn checked_out_by(&self) -> (r: UserId)
        ensures
            r == self.checked_out_by,
    {
        self.checked_out_by
    }

    pub fn checked_out_at(&self) -> (r: i64)
        ensures
            r == self.checked_out_at,
    {
        self.checked_out_at
    }

    pub fn returned_at(&self) -> (r: Option<i64>)
        ensures
            r == self.returned_at,
    {
        self.returned_at
    }

    pub fn book(&self) -> (r: &CheckoutBook)
        ensures
            *r == self.book,
    {
        &self.book
    }
}

/// The book a checkout refers to, with the fields shown in lists.
#[derive(Debug, PartialEq, Eq)]
pub struct CheckoutBook {
    pub book_id: BookId,
    pub title: BookTitle,
    pub author: BookAuthor,
    pub isbn: BookIsbn,
}

impl Clone for CheckoutBook {
    fn clone(&self) -> (r: Self)
        ensures
            r == *self,
    {
        CheckoutBook {
            book_id: self.book_id,
            title: self.title.clone(),
            author: self.author.clone(),
            isbn: self.isbn.clone(),
        }
    }
}

impl CheckoutBook {
    pub fn new(book_id: BookId, title: BookTitle, author: BookAuthor, isbn: BookIsbn) -> (r:
        CheckoutBook)
        ensures
            r == (CheckoutBook { book_id, title, author, isbn }),
    {
        CheckoutBook { book_id, title, author, isbn }
    }

    pub fn book_id(&self) -> (r: BookId)
        ensures
            r == self.book_id,
    {
        self.book_id
    }

    pub fn title(&self) -> (r: &BookTitle)
        ensures
            *r == self.title,
    {
        &self.title
    }

    pub fn author(&self) -> (r: &BookAuthor)
        ensures
            *r == self.author,
    {
        &self.author
    }

    pub fn isbn(&self) -> (r: &BookIsbn)
        ensures
            *r == self.isbn,
    {
        &self.isbn
    }

    pub fn into_parts(self) -> (r: (BookId, BookTitle, BookAuthor, BookIsbn))
        ensures
            r == (self.book_id, self.title, self.author, self.isbn),
    {
        (self.book_id, self.title, self.author, self.isbn)
    }
}

/// The projection that decides a transition: the book exists, and, when it is
/// checked out, by which checkout and which holder.
#[derive(Debug, Clone, Copy, PartialEq, Eq, Structural)]
pub struct CheckoutState {
    pub book_id: BookId,
    pub checkout_id: Option<CheckoutId>,
    pub user_id: Option<UserId>,
}

/// A request to check a book out to a user at a time.
#[derive(Debug, Clone, Copy, PartialEq, Eq, Structural)]
pub struct CreateCheckout {
    pub book_id: BookId,
    pub checked_out_by: UserId,
    pub checked_out_at: i64,
}

/// A request to return the checkout `checkout_id` of a book, by its holder.
#[derive(Debug, Clone, Copy, PartialEq, Eq, Structural)]
pub struct UpdateReturned {
    pub checkout_id: CheckoutId,
    pub book_id: BookId,
    pub returned_by: UserId,
    pub returned_at: i64,
}

} // verus!
