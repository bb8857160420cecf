use vstd::prelude::*;

verus! {

/// Identity of a book.
#[derive(Debug, Clone, Copy, PartialEq, Eq, Structural, Hash)]
pub struct BookId(pub u128);

/// Identity of a checkout, active or returned.
#[derive(Debug, Clone, Copy, PartialEq, Eq, Structural, Hash)]
pub struct CheckoutId(pub u128);

/// Identity of a user.
#[derive(Debug, Clone, Copy, PartialEq, Eq, Structural, Hash)]
pub struct UserId(pub u128);

} // verus!
