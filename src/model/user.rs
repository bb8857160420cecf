use crate::ids::UserId;
use crate::value::{UserEmail, UserName};
use vstd::prelude::*;

verus! {

/// What a user may do: every user borrows, an admin also manages.
#[derive(Debug, Clone, Copy, PartialEq, Eq, Structural)]
pub enum Role {
    Admin,
    User,
}

/// A registered user as the rest of the system sees it; the password hash is
/// never part of it.
#[derive(Debug, PartialEq, Eq)]
pub struct User {
    pub id: UserId,
    pub name: UserName,
    pub email: UserEmail,
    pub role: Role,
}

impl User {
    pub fn new(id: UserId, name: UserName, email: UserEmail, role: Role) -> (r: User)
        ensures
            r == (User { id, name, email, role }),
    {
        User { id, name, email, role }
    }

    pub fn id(&self) -> (r: UserId)
        ensures
            r == self.id,
    {
        self.id
    }

    pub fn name(&self) -> (r: &UserName)
        ensures
            *r == self.name,
    {
        &self.name
    }

    pub fn email(&self) -> (r: &UserEmail)
        ensures
            *r == self.email,
    {
        &self.email
    }

    pub fn role(&self) -> (r: &Role)
        ensures
            *r == self.role,
    {
        &self.role
    }

    pub fn into_parts(self) -> (r: (UserId, UserName, UserEmail, Role))
        ensures
            r == (self.id, self.name, self.email, self.role),
    {
        (self.id, self.name, self.email, self.role)
    }
}

/// The owner of a book, as shown with the book.
#[derive(Debug, PartialEq, Eq)]
pub struct BookOwner {
    pub id: UserId,
    pub name: UserName,
}

impl BookOwner {
    pub fn new(id: UserId, name: UserName) -> (r: BookOwner)
        ensures
            r == (BookOwner { id, name }),
    {
        BookOwner { id, name }
    }

    pub fn id(&self) -> (r: UserId)
        ensures
            r == self.id,
    {
        self.id
    }

    pub fn name(&self) -> (r: &UserName)
        ensures
            *r == self.name,
    {
        &self.name
    }

    pub fn into_parts(self) -> (r: (UserId, UserName))
        ensures
            r == (self.id, self.name),
    {
        (self.id, self.name)
    }
}

/// The holder of a book's active checkout, as shown with the book.
#[derive(Debug, PartialEq, Eq)]
pub struct CheckoutUser {
    pub id: UserId,
    pub name: UserName,
}

impl CheckoutUser {
    pub fn new(id: UserId, name: UserName) -> (r: CheckoutUser)
        ensures
            r == (CheckoutUser { id, name }),
    {
        CheckoutUser { id, name }
    }

    pub fn id(&self) -> (r: UserId)
        ensures
            r == self.id,
    {
        self.id
    }

    pub fn name(&self) -> (r: &UserName)
        ensures
            *r == self.name,
    {
        &self.name
    }

    pub fn into_parts(self) -> (r: (UserId, UserName))
        ensures
            r == (self.id, self.name),
    {
        (self.id, self.name)
    }
}

impl Clone for User {
    fn clone(&self) -> (r: Self)
        ensures
            r == *self,
    {
        User { id: self.id, name: self.name.clone(), email: self.email.clone(), role: self.role }
    }
}

impl Clone for BookOwner {
    fn clone(&self) -> (r: Self)
        ensures
            r == *self,
    {
        BookOwner { id: self.id, name: self.name.clone() }
    }
}

impl Clone for CheckoutUser {
    fn clone(&self) -> (r: Self)
        ensures
            r == *self,
    {
        CheckoutUser { id: self.id, name: self.name.clone() }
    }
}

/// Registration of a new user, with the password in clear.
#[derive(Debug)]
pub struct CreateUser {
    pub name: UserName,
    pub email: UserEmail,
    pub password: String,
}

/// A change of a user's role.
#[derive(Debug)]
pub struct UpdateUserRole {
    pub user_id: UserId,
    pub role: Role,
}

/// A change of password, which the current password must authorise.
#[derive(Debug)]
pub struct UpdateUserPassword {
    pub user_id: UserId,
    pub current_password: String,
    pub new_password: String,
}

/// Removal of a user.
#[derive(Debug)]
pub struct DeleteUser {
    pub user_id: UserId,
}

} // verus!
