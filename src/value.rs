use crate::error::AppError;
use vstd::prelude::*;
use vstd::string::*;

verus! {

/// Name for what garde's email rule decides of an address.
pub uninterp spec fn email_accepted(s: Seq<char>) -> bool;

/// Relies on garde::rules::email::parse_email: it accepts or rejects an address
/// by its text alone, and rejects the empty string.
#[verifier::external_body]
fn email_syntax_ok(s: &str) -> (r: bool)
    ensures
        r == email_accepted(s@),
        s@.len() == 0 ==> !r,
{
    garde::rules::email::parse_email(s).is_ok()
}

/// A user's display name, never empty.
#[derive(Debug, PartialEq, Eq)]
pub struct UserName(String);

impl Clone for UserName {
    fn clone(&self) -> (r: Self)
        ensures
            r == *self,
    {
        proof {
            use_type_invariant(self);
        }
        UserName(self.0.clone())
    }
}

impl View for UserName {
    type V = Seq<char>;

    closed spec fn view(&self) -> Seq<char> {
        self.0@
    }
}

impl UserName {
    #[verifier::type_invariant]
    spec fn well_formed(&self) -> bool {
        self.0@.len() > 0
    }

    /// Validates `value`: it must not be empty.
    pub fn new(value: String) -> (r: Result<UserName, AppError>)
        ensures
            r is Ok <==> value@.len() > 0,
            r is Ok ==> r->Ok_0@ == value@,
            r is Err ==> r->Err_0 == AppError::ValidationError,
    {
        if value.as_str().unicode_len() == 0 {
            Err(AppError::ValidationError)
        } else {
            Ok(UserName(value))
        }
    }

    /// The text held.
    pub fn as_str(&self) -> (r: &str)
        ensures
            r@ == self@,
    {
        self.0.as_str()
    }

    /// Gives the text back.
    pub fn into_inner(self) -> (r: String)
        ensures
            r@ == self@,
    {
        self.0
    }
}

/// A user's email address, of valid syntax.
#[derive(Debug, PartialEq, Eq)]
pub struct UserEmail(String);

impl Clone for UserEmail {
    fn clone(&self) -> (r: Self)
        ensures
            r == *self,
    {
        proof {
            use_type_invariant(self);
        }
        UserEmail(self.0.clone())
    }
}

impl View for UserEmail {
    type V = Seq<char>;

    closed spec fn view(&self) -> Seq<char> {
        self.0@
    }
}

impl UserEmail {
    /// The address held, as a `String`.
    pub fn as_string(&self) -> (r: &String)
        ensures
            r@ == self@,
    {
        &self.0
    }

    #[verifier::type_invariant]
    spec fn well_formed(&self) -> bool {
        email_accepted(self.0@)
    }

    /// Validates `value`: it must be an email address.
    pub fn new(value: String) -> (r: Result<UserEmail, AppError>)
        ensures
            r is Ok <==> email_accepted(value@),
            r is Ok ==> r->Ok_0@ == value@,
            r is Err ==> r->Err_0 == AppError::ValidationError,
    {
        if email_syntax_ok(value.as_str()) {
            Ok(UserEmail(value))
        } else {
            Err(AppError::ValidationError)
        }
    }

    /// The text held.
    pub fn as_str(&self) -> (r: &str)
        ensures
            r@ == self@,
    {
        self.0.as_str()
    }

    /// Gives the text back.
    pub fn into_inner(self) -> (r: String)
        ensures
            r@ == self@,
    {
        self.0
    }
}

/// A book's title, never empty.
#[derive(Debug, PartialEq, Eq)]
pub struct BookTitle(String);

impl Clone for BookTitle {
    fn clone(&self) -> (r: Self)
        ensures
            r == *self,
    {
        proof {
            use_type_invariant(self);
        }
        BookTitle(self.0.clone())
    }
}

impl View for BookTitle {
    type V = Seq<char>;

    closed spec fn view(&self) -> Seq<char> {
        self.0@
    }
}

impl BookTitle {
    #[verifier::type_invariant]
    spec fn well_formed(&self) -> bool {
        self.0@.len() > 0
    }

    /// Validates `value`: it must not be empty.
    pub fn new(value: String) -> (r: Result<BookTitle, AppError>)
        ensures
            r is Ok <==> value@.len() > 0,
            r is Ok ==> r->Ok_0@ == value@,
            r is Err ==> r->Err_0 == AppError::ValidationError,
    {
        if value.as_str().unicode_len() == 0 {
            Err(AppError::ValidationError)
        } else {
            Ok(BookTitle(value))
        }
    }

    /// The text held.
    pub fn as_str(&self) -> (r: &str)
        ensures
            r@ == self@,
    {
        self.0.as_str()
    }

    /// Gives the text back.
    pub fn into_inner(self) -> (r: String)
        ensures
            r@ == self@,
    {
        self.0
    }
}

/// A book's author, never empty.
#[derive(Debug, PartialEq, Eq)]
pub struct BookAuthor(String);

impl Clone for BookAuthor {
    fn clone(&self) -> (r: Self)
        ensures
            r == *self,
    {
        proof {
            use_type_invariant(self);
        }
        BookAuthor(self.0.clone())
    }
}

impl View for BookAuthor {
    type V = Seq<char>;

    closed spec fn view(&self) -> Seq<char> {
        self.0@
    }
}

impl BookAuthor {
    #[verifier::type_invariant]
    spec fn well_formed(&self) -> bool {
        self.0@.len() > 0
    }

    /// Validates `value`: it must not be empty.
    pub fn new(value: String) -> (r: Result<BookAuthor, AppError>)
        ensures
            r is Ok <==> value@.len() > 0,
            r is Ok ==> r->Ok_0@ == value@,
            r is Err ==> r->Err_0 == AppError::ValidationError,
    {
        if value.as_str().unicode_len() == 0 {
            Err(AppError::ValidationError)
        } else {
            Ok(BookAuthor(value))
        }
    }

    /// The text held.
    pub fn as_str(&self) -> (r: &str)
        ensures
            r@ == self@,
    {
        self.0.as_str()
    }

    /// Gives the text back.
    pub fn into_inner(self) -> (r: String)
        ensures
            r@ == self@,
    {
        self.0
    }
}

/// A book's ISBN as text, never empty.
#[derive(Debug, PartialEq, Eq)]
pub struct BookIsbn(String);

impl Clone for BookIsbn {
    fn clone(&self) -> (r: Self)
        ensures
            r == *self,
    {
        proof {
            use_type_invariant(self);
        }
        BookIsbn(self.0.clone())
    }
}

impl View for BookIsbn {
    type V = Seq<char>;

    closed spec fn view(&self) -> Seq<char> {
        self.0@
    }
}

impl BookIsbn {
    #[verifier::type_invariant]
    spec fn well_formed(&self) -> bool {
        self.0@.len() > 0
    }

    /// Validates `value`: it must not be empty.
    pub fn new(value: String) -> (r: Result<BookIsbn, AppError>)
        ensures
            r is Ok <==> value@.len() > 0,
            r is Ok ==> r->Ok_0@ == value@,
            r is Err ==> r->Err_0 == AppError::ValidationError,
    {
        if value.as_str().unicode_len() == 0 {
            Err(AppError::ValidationError)
        } else {
            Ok(BookIsbn(value))
        }
    }

    /// The text held.
    pub fn as_str(&self) -> (r: &str)
        ensures
            r@ == self@,
    {
        self.0.as_str()
    }

    /// Gives the text back.
    pub fn into_inner(self) -> (r: String)
        ensures
            r@ == self@,
    {
        self.0
    }
}

/// A book's free-form description.
#[derive(Debug, PartialEq, Eq)]
pub struct BookDescription(String);

impl Clone for BookDescription {
    fn clone(&self) -> (r: Self)
        ensures
            r == *self,
    {
        BookDescription(self.0.clone())
    }
}

impl View for BookDescription {
    type V = Seq<char>;

    closed spec fn view(&self) -> Seq<char> {
        self.0@
    }
}

impl BookDescription {
    /// Validates `value`: any text is accepted.
    pub fn new(value: String) -> (r: Result<BookDescription, AppError>)
        ensures
            r is Ok,
            r is Ok ==> r->Ok_0@ == value@,
            r is Err ==> r->Err_0 == AppError::ValidationError,
    {
        Ok(BookDescription(value))
    }

    /// The text held.
    pub fn as_str(&self) -> (r: &str)
        ensures
            r@ == self@,
    {
        self.0.as_str()
    }

    /// Gives the text back.
    pub fn into_inner(self) -> (r: String)
        ensures
            r@ == self@,
    {
        self.0
    }
}

} // verus!
