use crate::ids::{BookId, CheckoutId, UserId};
use crate::model::user::{BookOwner, CheckoutUser};
use crate::value::{BookAuthor, BookDescription, BookIsbn, BookTitle};
use vstd::prelude::*;

verus! {

/// Registration of a new book.
#[derive(Debug)]
pub struct CreateBook {
    pub title: BookTitle,
    pub author: BookAuthor,
    pub isbn: BookIsbn,
    pub description: BookDescription,
}

/// A change of a book's fields, requested by a user.
#[derive(Debug)]
pub struct UpdateBook {
    pub book_id: BookId,
    pub title: BookTitle,
    pub author: BookAuthor,
    pub isbn: BookIsbn,
    pub description: BookDescription,
    pub requested_user: UserId,
}

/// Removal of a book, requested by a user.
#[derive(Debug)]
pub struct DeleteBook {
    pub book_id: BookId,
    pub requested_user: UserId,
}

/// A page of the book list.
#[derive(Debug, Clone, Copy, PartialEq, Eq, Structural)]
pub struct BookListOptions {
    pub limit: i64,
    pub offset: i64,
}

/// A book with its owner and, when it is lent, the current checkout.
#[derive(Debug, PartialEq, Eq)]
pub struct Book {
    pub id: BookId,
    pub title: BookTitle,
    pub author: BookAuthor,
    pub isbn: BookIsbn,
    pub description: BookDescription,
    pub owner: BookOwner,
    pub checkout: Option<Checkout>,
}

impl Book {
    pub fn new(
        id: BookId,
        title: BookTitle,
        author: BookAuthor,
        isbn: BookIsbn,
        description: BookDescription,
        owner: BookOwner,
        checkout: Option<Checkout>,
    ) -> (r: Book)
        ensures
            r == (Book { id, title, author, isbn, description, owner, checkout }),
    {
        Book { id, title, author, isbn, description, owner, checkout }
    }

    /// A newly registered book, with the id `id`, owned by `owner`, not lent.
    pub fn from_create(event: CreateBook, owner: BookOwner, id: BookId) -> (r: Book)
        ensures
            r == (Book {
                id,
                title: event.title,
                author: event.author,
                isbn: event.isbn,
                description: event.description,
                owner,
                checkout: None,
            }),
    {
        Book {
            id,
            title: event.title,
            author: event.author,
            isbn: event.isbn,
            description: event.description,
            owner,
            checkout: None,
        }
    }

    pub fn id(&self) -> (r: BookId)
        ensures
            r == self.id,
    {
        self.id
    }

    pub fn title(&self) -> (r: &BookTitle)
        ensures
            *r == self.title,
    {
        &self.title
    }

    pub fn author(&self) -> (r: &BookAuthor)
        ensures
            *r == self.author,
    {
        &self.author
    }

    pub fn isbn(&self) -> (r: &BookIsbn)
        ensures
            *r == self.isbn,
    {
        &self.isbn
    }

    pub fn description(&self) -> (r: &BookDescription)
        ensures
            *r == self.description,
    {
        &self.description
    }

    pub fn owner(&self) -> (r: &BookOwner)
        ensures
            *r == self.owner,
    {
        &self.owner
    }

    pub fn checkout(&self) -> (r: Option<&Checkout>)
        ensures
            r == match self.checkout {
                Some(c) => Some(&c),
                None => None::<&Checkout>,
            },
    {
        match &self.checkout {
            Some(c) => Some(c),
            None => None,
        }
    }

    pub fn into_parts(self) -> (r: (
        BookId,
        BookTitle,
        BookAuthor,
        BookIsbn,
        BookDescription,
        BookOwner,
        Option<Checkout>,
    ))
        ensures
            r == (
                self.id,
                self.title,
                self.author,
                self.isbn,
                self.description,
                self.owner,
                self.checkout,
            ),
    {
        (self.id, self.title, self.author, self.isbn, self.description, self.owner, self.checkout)
    }
}

/// The active checkout shown with a book.
#[derive(Debug, PartialEq, Eq)]
pub struct Checkout {
    pub checkout_id: CheckoutId,
    pub checked_out_by: CheckoutUser,
    pub checked_out_at: i64,
}

impl Checkout {
    pub fn new(checkout_id: CheckoutId, checked_out_by: CheckoutUser, checked_out_at: i64) -> (r:
        Checkout)
        ensures
            r == (Checkout { checkout_id, checked_out_by, checked_out_at }),
    {
        Checkout { checkout_id, checked_out_by, checked_out_at }
    }

    pub fn id(&self) -> (r: CheckoutId)
        ensures
            r == self.checkout_id,
    {
        self.checkout_id
    }

    pub fn checked_out_by(&self) -> (r: &CheckoutUser)
        ensures
            *r == self.checked_out_by,
    {
        &self.checked_out_by
    }

    pub fn checked_out_at(&self) -> (r: i64)
        ensures
            r == self.checked_out_at,
    {
        self.checked_out_at
    }

    pub fn into_parts(self) -> (r: (CheckoutId, CheckoutUser, i64))
        ensures
            r == (self.checkout_id, self.checked_out_by, self.checked_out_at),
    {
        (self.checkout_id, self.checked_out_by, self.checked_out_at)
    }
}

} // verus!
