//! The tables of the lending store, their invariant, and the row-level
//! operations that repositories perform on them.

use crate::error::{AppError, AppResult};
use crate::ids::{BookId, CheckoutId, UserId};
use crate::model::checkout::{Checkout, CheckoutBook, CheckoutState, CreateCheckout, UpdateReturned};
use crate::model::book::CreateBook;
use crate::model::user::{CreateUser, DeleteUser, Role, UpdateUserRole, User};
use crate::value::{BookAuthor, BookDescription, BookIsbn, BookTitle, UserEmail, UserName};
use vstd::prelude::*;
use vstd::string::*;

verus! {

/// A row of the active store: a book currently lent to a user.
#[derive(Debug, Clone, Copy, PartialEq, Eq, Structural)]
pub struct ActiveRow {
    pub checkout_id: CheckoutId,
    pub book_id: BookId,
    pub user_id: UserId,
    pub checked_out_at: i64,
}

/// A row of the history store: a loan that has been returned.
#[derive(Debug, Clone, Copy, PartialEq, Eq, Structural)]
pub struct ReturnedRow {
    pub checkout_id: CheckoutId,
    pub book_id: BookId,
    pub user_id: UserId,
    pub checked_out_at: i64,
    pub returned_at: i64,
}

/// A row of the book table.
#[derive(Debug, PartialEq, Eq)]
pub struct BookRecord {
    pub book_id: BookId,
    pub title: BookTitle,
    pub author: BookAuthor,
    pub isbn: BookIsbn,
    pub description: BookDescription,
    pub owner: UserId,
}

impl Clone for BookRecord {
    fn clone(&self) -> (r: Self)
        ensures
            r == *self,
    {
        BookRecord {
            book_id: self.book_id,
            title: self.title.clone(),
            author: self.author.clone(),
            isbn: self.isbn.clone(),
            description: self.description.clone(),
            owner: self.owner,
        }
    }
}

/// A row of the user table, with the stored password hash.
#[derive(Debug, PartialEq, Eq)]
pub struct UserRecord {
    pub user_id: UserId,
    pub name: UserName,
    pub email: UserEmail,
    pub password_hash: String,
    pub role: Role,
}

impl Clone for UserRecord {
    fn clone(&self) -> (r: Self)
        ensures
            r == *self,
    {
        UserRecord {
            user_id: self.user_id,
            name: self.name.clone(),
            email: self.email.clone(),
            password_hash: self.password_hash.clone(),
            role: self.role,
        }
    }
}

/// The contents of the store, as sequences of rows.
pub ghost struct StoreView {
    pub books: Seq<BookRecord>,
    pub users: Seq<UserRecord>,
    pub active: Seq<ActiveRow>,
    pub history: Seq<ReturnedRow>,
}

pub open spec fn has_book(books: Seq<BookRecord>, id: BookId) -> bool {
    exists|i: int| 0 <= i < books.len() && #[trigger] books[i].book_id == id
}

pub open spec fn has_user(users: Seq<UserRecord>, id: UserId) -> bool {
    exists|i: int| 0 <= i < users.len() && #[trigger] users[i].user_id == id
}

pub open spec fn has_email(users: Seq<UserRecord>, email: Seq<char>) -> bool {
    exists|i: int| 0 <= i < users.len() && #[trigger] users[i].email@ == email
}

/// The book has an active checkout.
pub open spec fn is_lent(active: Seq<ActiveRow>, id: BookId) -> bool {
    exists|i: int| 0 <= i < active.len() && #[trigger] active[i].book_id == id
}

pub open spec fn active_has_checkout(active: Seq<ActiveRow>, id: CheckoutId) -> bool {
    exists|i: int| 0 <= i < active.len() && #[trigger] active[i].checkout_id == id
}

pub open spec fn history_has_checkout(history: Seq<ReturnedRow>, id: CheckoutId) -> bool {
    exists|i: int| 0 <= i < history.len() && #[trigger] history[i].checkout_id == id
}

/// Number of active rows of a book.
pub open spec fn active_count(active: Seq<ActiveRow>, id: BookId) -> nat
    decreases active.len(),
{
    if active.len() == 0 {
        0
    } else {
        active_count(active.drop_last(), id) + (if active.last().book_id == id {
            1nat
        } else {
            0nat
        })
    }
}

/// The invariant of the store.
pub open spec fn store_wf(v: StoreView) -> bool {
    &&& forall|i: int, j: int|
        0 <= i < j < v.books.len() ==> #[trigger] v.books[i].book_id != #[trigger] v.books[j].book_id
    &&& forall|i: int, j: int|
        0 <= i < j < v.users.len() ==> #[trigger] v.users[i].user_id != #[trigger] v.users[j].user_id
    &&& forall|i: int, j: int|
        0 <= i < j < v.users.len() ==> #[trigger] v.users[i].email@ != #[trigger] v.users[j].email@
    // a book has at most one active checkout
    &&& forall|i: int, j: int|
        0 <= i < j < v.active.len() ==> #[trigger] v.active[i].book_id
            != #[trigger] v.active[j].book_id
    &&& forall|i: int, j: int|
        0 <= i < j < v.active.len() ==> #[trigger] v.active[i].checkout_id
            != #[trigger] v.active[j].checkout_id
    &&& forall|i: int| 0 <= i < v.active.len() ==> has_book(v.books, #[trigger] v.active[i].book_id)
    &&& forall|i: int, j: int|
        0 <= i < j < v.active.len() ==> #[trigger] v.active[i].checked_out_at
            <= #[trigger] v.active[j].checked_out_at
    &&& forall|i: int, j: int|
        0 <= i < j < v.history.len() ==> #[trigger] v.history[i].checkout_id
            != #[trigger] v.history[j].checkout_id
    &&& forall|i: int|
        0 <= i < v.history.len() ==> has_book(v.books, #[trigger] v.history[i].book_id)
    &&& forall|i: int, j: int|
        0 <= i < j < v.history.len() ==> #[trigger] v.history[i].checked_out_at
            >= #[trigger] v.history[j].checked_out_at
    // no loan is returned before it was checked out
    &&& forall|i: int|
        0 <= i < v.history.len() ==> #[trigger] v.history[i].returned_at
            >= v.history[i].checked_out_at
}

/// Index of the book's row; meaningful when the book exists.
pub open spec fn book_pos(books: Seq<BookRecord>, id: BookId) -> int {
    choose|i: int| 0 <= i < books.len() && #[trigger] books[i].book_id == id
}

/// Index of the book's active row; meaningful when the book is lent.
pub open spec fn lent_pos(active: Seq<ActiveRow>, id: BookId) -> int {
    choose|i: int| 0 <= i < active.len() && #[trigger] active[i].book_id == id
}

/// Index of the active row of a checkout; meaningful when it is present.
pub open spec fn checkout_pos(active: Seq<ActiveRow>, id: CheckoutId) -> int {
    choose|i: int| 0 <= i < active.len() && #[trigger] active[i].checkout_id == id
}

/// The projection that decides a checkout or a return of the book.
pub open spec fn state_of(v: StoreView, id: BookId) -> Option<CheckoutState> {
    if !has_book(v.books, id) {
        None
    } else if is_lent(v.active, id) {
        let row = v.active[lent_pos(v.active, id)];
        Some(
            CheckoutState {
                book_id: id,
                checkout_id: Some(row.checkout_id),
                user_id: Some(row.user_id),
            },
        )
    } else {
        Some(CheckoutState { book_id: id, checkout_id: None, user_id: None })
    }
}

/// Where a row checked out at `t` goes in the active store, which is kept in
/// ascending order of checkout time: after every row of time `t` or earlier.
pub open spec fn asc_pos(s: Seq<ActiveRow>, t: i64) -> int
    decreases s.len(),
{
    if s.len() == 0 {
        0
    } else if s.last().checked_out_at > t {
        asc_pos(s.drop_last(), t)
    } else {
        s.len() as int
    }
}

/// Where a row checked out at `t` goes in the history store, which is kept in
/// descending order of checkout time: after every row of time `t` or later.
pub open spec fn desc_pos(s: Seq<ReturnedRow>, t: i64) -> int
    decreases s.len(),
{
    if s.len() == 0 {
        0
    } else if s.last().checked_out_at < t {
        desc_pos(s.drop_last(), t)
    } else {
        s.len() as int
    }
}

/// What inserting an active row answers. No row is affected unless the book
/// exists, is not lent, and the checkout id is new to both stores; a holder
/// that is not a user breaks the foreign key, a storage error.
pub open spec fn checkout_insert_result(v: StoreView, e: CreateCheckout, id: CheckoutId) -> Result<
    (),
    AppError,
> {
    if !has_book(v.books, e.book_id) || is_lent(v.active, e.book_id) || active_has_checkout(
        v.active,
        id,
    ) || history_has_checkout(v.history, id) {
        Err(AppError::NoRowsAffectedError)
    } else if !has_user(v.users, e.checked_out_by) {
        Err(AppError::SpecificOperationError)
    } else {
        Ok(())
    }
}

/// The insert of an active row succeeds.
pub open spec fn checkout_insertable(v: StoreView, e: CreateCheckout, id: CheckoutId) -> bool {
    checkout_insert_result(v, e, id) is Ok
}

/// The store after inserting an active row.
pub open spec fn after_insert_checkout(v: StoreView, e: CreateCheckout, id: CheckoutId) -> StoreView {
    let row = ActiveRow {
        checkout_id: id,
        book_id: e.book_id,
        user_id: e.checked_out_by,
        checked_out_at: e.checked_out_at,
    };
    StoreView { active: v.active.insert(asc_pos(v.active, e.checked_out_at), row), ..v }
}

/// The history row that returning checkout `id` at time `at` writes.
pub open spec fn returned_row(v: StoreView, id: CheckoutId, at: i64) -> ReturnedRow {
    let row = v.active[checkout_pos(v.active, id)];
    ReturnedRow {
        checkout_id: id,
        book_id: row.book_id,
        user_id: row.user_id,
        checked_out_at: row.checked_out_at,
        returned_at: at,
    }
}

/// Checkout `id` is the active checkout of book `book`.
pub open spec fn active_of_book(active: Seq<ActiveRow>, id: CheckoutId, book: BookId) -> bool {
    active_has_checkout(active, id) && active[checkout_pos(active, id)].book_id == book
}

/// The copy into history affects one row: the checkout is the active
/// checkout of that book, and not yet in history.
pub open spec fn return_insertable(v: StoreView, book: BookId, id: CheckoutId) -> bool {
    active_of_book(v.active, id, book) && !history_has_checkout(v.history, id)
}

/// What copying checkout `id` of book `book` into history, returned at `at`,
/// answers: no row is affected unless the copy is insertable, and a return
/// dated before its checkout is refused.
pub open spec fn return_insert_result(v: StoreView, book: BookId, id: CheckoutId, at: i64) -> Result<
    (),
    AppError,
> {
    if !return_insertable(v, book, id) {
        Err(AppError::NoRowsAffectedError)
    } else if at < v.active[checkout_pos(v.active, id)].checked_out_at {
        Err(AppError::UnprocessableEntity)
    } else {
        Ok(())
    }
}

/// The store after copying an active checkout into history.
pub open spec fn after_insert_returned(v: StoreView, id: CheckoutId, at: i64) -> StoreView {
    let row = returned_row(v, id, at);
    StoreView { history: v.history.insert(desc_pos(v.history, row.checked_out_at), row), ..v }
}

/// The store after deleting an active checkout.
pub open spec fn after_delete_checkout(v: StoreView, id: CheckoutId) -> StoreView {
    StoreView { active: v.active.remove(checkout_pos(v.active, id)), ..v }
}

/// The fields of a book shown with a checkout of it.
pub open spec fn book_info(books: Seq<BookRecord>, id: BookId) -> CheckoutBook {
    let b = books[book_pos(books, id)];
    CheckoutBook { book_id: b.book_id, title: b.title, author: b.author, isbn: b.isbn }
}

/// An active row as read back, joined with its book.
pub open spec fn active_checkout(books: Seq<BookRecord>, r: ActiveRow) -> Checkout {
    Checkout {
        id: r.checkout_id,
        checked_out_by: r.user_id,
        checked_out_at: r.checked_out_at,
        returned_at: None,
        book: book_info(books, r.book_id),
    }
}

/// A history row as read back, joined with its book.
pub open spec fn returned_checkout(books: Seq<BookRecord>, r: ReturnedRow) -> Checkout {
    Checkout {
        id: r.checkout_id,
        checked_out_by: r.user_id,
        checked_out_at: r.checked_out_at,
        returned_at: Some(r.returned_at),
        book: book_info(books, r.book_id),
    }
}

/// The active rows held by a user, in store order.
pub open spec fn active_of_user(active: Seq<ActiveRow>, u: UserId) -> Seq<ActiveRow>
    decreases active.len(),
{
    if active.len() == 0 {
        Seq::empty()
    } else {
        let prev = active_of_user(active.drop_last(), u);
        if active.last().user_id == u {
            prev.push(active.last())
        } else {
            prev
        }
    }
}

/// The history rows of a book, in store order.
pub open spec fn history_of_book(history: Seq<ReturnedRow>, b: BookId) -> Seq<ReturnedRow>
    decreases history.len(),
{
    if history.len() == 0 {
        Seq::empty()
    } else {
        let prev = history_of_book(history.drop_last(), b);
        if history.last().book_id == b {
            prev.push(history.last())
        } else {
            prev
        }
    }
}

/// Active rows as read back.
pub open spec fn active_checkouts(books: Seq<BookRecord>, rows: Seq<ActiveRow>) -> Seq<Checkout> {
    rows.map_values(|r: ActiveRow| active_checkout(books, r))
}

/// History rows as read back.
pub open spec fn returned_checkouts(books: Seq<BookRecord>, rows: Seq<ReturnedRow>) -> Seq<
    Checkout,
> {
    rows.map_values(|r: ReturnedRow| returned_checkout(books, r))
}

/// Every active checkout, earliest first.
pub open spec fn unreturned_all(v: StoreView) -> Seq<Checkout> {
    active_checkouts(v.books, v.active)
}

/// The active checkouts of a user, earliest first.
pub open spec fn unreturned_by_user(v: StoreView, u: UserId) -> Seq<Checkout> {
    active_checkouts(v.books, active_of_user(v.active, u))
}

/// The active checkout of a book, if it is lent.
pub open spec fn unreturned_by_book(v: StoreView, b: BookId) -> Option<Checkout> {
    if is_lent(v.active, b) {
        Some(active_checkout(v.books, v.active[lent_pos(v.active, b)]))
    } else {
        None
    }
}

/// The returns of a book, latest checkout first.
pub open spec fn returns_of_book(v: StoreView, b: BookId) -> Seq<Checkout> {
    returned_checkouts(v.books, history_of_book(v.history, b))
}

/// The full history of a book: its active checkout, if any, then its returns,
/// latest checkout first.
pub open spec fn history_by_book(v: StoreView, b: BookId) -> Seq<Checkout> {
    match unreturned_by_book(v, b) {
        Some(c) => seq![c] + returns_of_book(v, b),
        None => returns_of_book(v, b),
    }
}

/// In an ascending store, rows before `asc_pos` are at or before `t`, the rest
/// after it.
pub proof fn lemma_asc_pos(s: Seq<ActiveRow>, t: i64)
    requires
        forall|i: int, j: int|
            0 <= i < j < s.len() ==> #[trigger] s[i].checked_out_at <= #[trigger] s[j].checked_out_at,
    ensures
        0 <= asc_pos(s, t) <= s.len(),
        forall|k: int| 0 <= k < asc_pos(s, t) ==> #[trigger] s[k].checked_out_at <= t,
        forall|k: int| asc_pos(s, t) <= k < s.len() ==> #[trigger] s[k].checked_out_at > t,
    decreases s.len(),
{
    if s.len() > 0 {
        let d = s.drop_last();
        lemma_asc_pos(d, t);
        if s.last().checked_out_at > t {
            assert forall|k: int| asc_pos(s, t) <= k < s.len() implies #[trigger] s[k].checked_out_at
                > t by {
                if k < s.len() - 1 {
                    assert(s[k] == d[k]);
                }
            }
            assert forall|k: int| 0 <= k < asc_pos(s, t) implies #[trigger] s[k].checked_out_at
                <= t by {
                assert(s[k] == d[k]);
            }
        } else {
            assert forall|k: int| 0 <= k < asc_pos(s, t) implies #[trigger] s[k].checked_out_at
                <= t by {
                if k < s.len() - 1 {
                    assert(s[k].checked_out_at <= s[s.len() - 1].checked_out_at);
                }
            }
        }
    }
}

/// In a descending store, rows before `desc_pos` are at or after `t`, the
/// rest before it.
pub proof fn lemma_desc_pos(s: Seq<ReturnedRow>, t: i64)
    requires
        forall|i: int, j: int|
            0 <= i < j < s.len() ==> #[trigger] s[i].checked_out_at >= #[trigger] s[j].checked_out_at,
    ensures
        0 <= desc_pos(s, t) <= s.len(),
        forall|k: int| 0 <= k < desc_pos(s, t) ==> #[trigger] s[k].checked_out_at >= t,
        forall|k: int| desc_pos(s, t) <= k < s.len() ==> #[trigger] s[k].checked_out_at < t,
    decreases s.len(),
{
    if s.len() > 0 {
        let d = s.drop_last();
        lemma_desc_pos(d, t);
        if s.last().checked_out_at < t {
            assert forall|k: int| desc_pos(s, t) <= k < s.len() implies #[trigger] s[k].checked_out_at
                < t by {
                if k < s.len() - 1 {
                    assert(s[k] == d[k]);
                }
            }
            assert forall|k: int| 0 <= k < desc_pos(s, t) implies #[trigger] s[k].checked_out_at
                >= t by {
                assert(s[k] == d[k]);
            }
        } else {
            assert forall|k: int| 0 <= k < desc_pos(s, t) implies #[trigger] s[k].checked_out_at
                >= t by {
                if k < s.len() - 1 {
                    assert(s[k].checked_out_at >= s[s.len() - 1].checked_out_at);
                }
            }
        }
    }
}

/// Inserting an insertable active row keeps the invariant.
pub proof fn lemma_insert_checkout_wf(v: StoreView, e: CreateCheckout, id: CheckoutId)
    requires
        store_wf(v),
        checkout_insertable(v, e, id),
    ensures
        store_wf(after_insert_checkout(v, e, id)),
{
    let s = v.active;
    let t = e.checked_out_at;
    lemma_asc_pos(s, t);
    let i = asc_pos(s, t);
    let row = ActiveRow {
        checkout_id: id,
        book_id: e.book_id,
        user_id: e.checked_out_by,
        checked_out_at: t,
    };
    let a = after_insert_checkout(v, e, id).active;
    assert(a == s.insert(i, row));
    assert forall|k: int| 0 <= k < a.len() implies has_book(v.books, #[trigger] a[k].book_id) by {
        if k < i {
            assert(a[k] == s[k]);
        } else if k > i {
            assert(a[k] == s[k - 1]);
        }
    }
    assert forall|k: int, l: int|
        0 <= k < l < a.len() implies #[trigger] a[k].book_id != #[trigger] a[l].book_id
            && a[k].checkout_id != a[l].checkout_id && a[k].checked_out_at
            <= a[l].checked_out_at by {
        if l < i {
            assert(a[k] == s[k] && a[l] == s[l]);
        } else if l == i {
            assert(a[k] == s[k]);
        } else if k < i {
            assert(a[k] == s[k]);
            assert(a[l] == s[l - 1]);
        } else if k == i {
            assert(a[l] == s[l - 1]);
        } else {
            assert(a[k] == s[k - 1]);
            assert(a[l] == s[l - 1]);
        }
    }
}

/// Copying an insertable return into history keeps the invariant.
pub proof fn lemma_insert_returned_wf(v: StoreView, book: BookId, id: CheckoutId, at: i64)
    requires
        store_wf(v),
        return_insert_result(v, book, id, at) is Ok,
    ensures
        store_wf(after_insert_returned(v, id, at)),
{
    let s = v.history;
    let row = returned_row(v, id, at);
    let t = row.checked_out_at;
    lemma_desc_pos(s, t);
    let i = desc_pos(s, t);
    let a = after_insert_returned(v, id, at).history;
    assert(a == s.insert(i, row));
    let p = checkout_pos(v.active, id);
    assert(has_book(v.books, v.active[p].book_id));
    assert forall|k: int| 0 <= k < a.len() implies has_book(v.books, #[trigger] a[k].book_id)
        && a[k].returned_at >= a[k].checked_out_at by {
        if k < i {
            assert(a[k] == s[k]);
        } else if k > i {
            assert(a[k] == s[k - 1]);
        }
    }
    assert forall|k: int| 0 <= k < a.len() implies #[trigger] a[k].returned_at
        >= a[k].checked_out_at by {
        assert(has_book(v.books, a[k].book_id));
    }
    assert forall|k: int, l: int|
        0 <= k < l < a.len() implies #[trigger] a[k].checkout_id != #[trigger] a[l].checkout_id
            && a[k].checked_out_at >= a[l].checked_out_at by {
        if l < i {
            assert(a[k] == s[k] && a[l] == s[l]);
        } else if l == i {
            assert(a[k] == s[k]);
        } else if k < i {
            assert(a[k] == s[k]);
            assert(a[l] == s[l - 1]);
        } else if k == i {
            assert(a[l] == s[l - 1]);
        } else {
            assert(a[k] == s[k - 1]);
            assert(a[l] == s[l - 1]);
        }
    }
}

/// Deleting an active row keeps the invariant.
pub proof fn lemma_delete_checkout_wf(v: StoreView, id: CheckoutId)
    requires
        store_wf(v),
        active_has_checkout(v.active, id),
    ensures
        store_wf(after_delete_checkout(v, id)),
{
    let s = v.active;
    let idx = checkout_pos(s, id);
    let a = after_delete_checkout(v, id).active;
    assert(a == s.remove(idx));
    assert forall|k: int| 0 <= k < a.len() implies has_book(v.books, #[trigger] a[k].book_id) by {
        if k < idx {
            assert(a[k] == s[k]);
        } else {
            assert(a[k] == s[k + 1]);
        }
    }
    assert forall|k: int, l: int|
        0 <= k < l < a.len() implies #[trigger] a[k].book_id != #[trigger] a[l].book_id
            && a[k].checkout_id != a[l].checkout_id && a[k].checked_out_at
            <= a[l].checked_out_at by {
        if l < idx {
            assert(a[k] == s[k] && a[l] == s[l]);
        } else if k < idx {
            assert(a[k] == s[k]);
            assert(a[l] == s[l + 1]);
        } else {
            assert(a[k] == s[k + 1]);
            assert(a[l] == s[l + 1]);
        }
    }
}

/// Index of the user's row; meaningful when the user exists.
pub open spec fn user_pos(users: Seq<UserRecord>, id: UserId) -> int {
    choose|i: int| 0 <= i < users.len() && #[trigger] users[i].user_id == id
}

/// Index of the row with that email; meaningful when there is one.
pub open spec fn email_pos(users: Seq<UserRecord>, email: Seq<char>) -> int {
    choose|i: int| 0 <= i < users.len() && #[trigger] users[i].email@ == email
}

/// A user row as the rest of the system sees it.
pub open spec fn user_view(r: UserRecord) -> User {
    User { id: r.user_id, name: r.name, email: r.email, role: r.role }
}

/// The user with that id, if any.
pub open spec fn user_of(users: Seq<UserRecord>, id: UserId) -> Option<User> {
    if has_user(users, id) {
        Some(user_view(users[user_pos(users, id)]))
    } else {
        None
    }
}

/// Every user, latest registration first.
pub open spec fn users_latest_first(users: Seq<UserRecord>) -> Seq<User> {
    Seq::new(users.len(), |i: int| user_view(users[users.len() - 1 - i]))
}

/// The store after registering a book.
pub open spec fn with_book(v: StoreView, e: CreateBook, id: BookId, owner: UserId) -> StoreView {
    StoreView {
        books: v.books.push(
            BookRecord {
                book_id: id,
                title: e.title,
                author: e.author,
                isbn: e.isbn,
                description: e.description,
                owner,
            },
        ),
        ..v
    }
}

/// The store after registering a user.
pub open spec fn with_user(v: StoreView, e: CreateUser, id: UserId, hash: String) -> StoreView {
    StoreView {
        users: v.users.push(
            UserRecord {
                user_id: id,
                name: e.name,
                email: e.email,
                password_hash: hash,
                role: Role::User,
            },
        ),
        ..v
    }
}

/// The store after replacing a user's password hash.
pub open spec fn with_password_hash(v: StoreView, id: UserId, hash: String) -> StoreView {
    let p = user_pos(v.users, id);
    StoreView { users: v.users.update(p, UserRecord { password_hash: hash, ..v.users[p] }), ..v }
}

/// The store after changing a user's role.
pub open spec fn with_role(v: StoreView, id: UserId, role: Role) -> StoreView {
    let p = user_pos(v.users, id);
    StoreView { users: v.users.update(p, UserRecord { role, ..v.users[p] }), ..v }
}

/// The store after removing a user.
pub open spec fn without_user(v: StoreView, id: UserId) -> StoreView {
    StoreView { users: v.users.remove(user_pos(v.users, id)), ..v }
}

/// Replacing the user table by one with distinct ids and emails keeps the
/// invariant.
proof fn lemma_users_wf(v: StoreView, users: Seq<UserRecord>)
    requires
        store_wf(v),
        forall|i: int, j: int|
            0 <= i < j < users.len() ==> #[trigger] users[i].user_id != #[trigger] users[j].user_id,
        forall|i: int, j: int|
            0 <= i < j < users.len() ==> #[trigger] users[i].email@ != #[trigger] users[j].email@,
    ensures
        store_wf(StoreView { users, ..v }),
{
}

/// Replacing the book table by one with distinct ids that keeps every book
/// keeps the invariant.
proof fn lemma_books_wf(v: StoreView, books: Seq<BookRecord>)
    requires
        store_wf(v),
        forall|i: int, j: int|
            0 <= i < j < books.len() ==> #[trigger] books[i].book_id != #[trigger] books[j].book_id,
        forall|b: BookId| has_book(v.books, b) ==> has_book(books, b),
    ensures
        store_wf(StoreView { books, ..v }),
{
    let w = StoreView { books, ..v };
    assert forall|i: int| 0 <= i < w.active.len() implies has_book(w.books, #[trigger] w.active[i].book_id) by {
        assert(has_book(v.books, v.active[i].book_id));
    }
    assert forall|i: int| 0 <= i < w.history.len() implies has_book(w.books, #[trigger] w.history[i].book_id) by {
        assert(has_book(v.books, v.history[i].book_id));
    }
}

/// A book's history from its parts: the active checkout, if any, followed by
/// the returns in the order given.
pub fn history_with_active(active: Option<Checkout>, returned: Vec<Checkout>) -> (r: Vec<Checkout>)
    ensures
        r@ == match active {
            Some(c) => seq![c] + returned@,
            None => returned@,
        },
{
    let mut returned = returned;
    match active {
        Some(c) => {
            let ghost rest = returned@;
            let mut all: Vec<Checkout> = Vec::new();
            all.push(c);
            all.append(&mut returned);
            assert(all@ =~= seq![c] + rest);
            all
        },
        None => returned,
    }
}

/// A write that was expected to affect a row: affecting none is an integrity
/// failure.
pub fn require_rows(affected: u64) -> (r: AppResult<()>)
    ensures
        r is Ok <==> affected >= 1,
        r is Err ==> r == Err::<(), AppError>(AppError::NoRowsAffectedError),
{
    if affected < 1 {
        Err(AppError::NoRowsAffectedError)
    } else {
        Ok(())
    }
}

/// The tables of one store.
pub struct Tables {
    books: Vec<BookRecord>,
    users: Vec<UserRecord>,
    active: Vec<ActiveRow>,
    history: Vec<ReturnedRow>,
}

impl View for Tables {
    type V = StoreView;

    closed spec fn view(&self) -> StoreView {
        StoreView {
            books: self.books@,
            users: self.users@,
            active: self.active@,
            history: self.history@,
        }
    }
}

impl Tables {
    /// The store's invariant holds.
    pub open spec fn wf(&self) -> bool {
        store_wf(self@)
    }

    /// An empty store.
    pub fn new() -> (r: Tables)
        ensures
            r.wf(),
            r@.books.len() == 0,
            r@.users.len() == 0,
            r@.active.len() == 0,
            r@.history.len() == 0,
    {
        Tables { books: Vec::new(), users: Vec::new(), active: Vec::new(), history: Vec::new() }
    }

    /// A copy of the store, row for row.
    pub fn copy(&self) -> (r: Tables)
        requires
            self.wf(),
        ensures
            r@ == self@,
    {
        let mut books: Vec<BookRecord> = Vec::new();
        let mut i: usize = 0;
        while i < self.books.len()
            invariant
                i <= self.books@.len(),
                books@ == self.books@.subrange(0, i as int),
            decreases self.books@.len() - i,
        {
            books.push(self.books[i].clone());
            i = i + 1;
            assert(books@ =~= self.books@.subrange(0, i as int));
        }
        let mut users: Vec<UserRecord> = Vec::new();
        let mut i: usize = 0;
        while i < self.users.len()
            invariant
                i <= self.users@.len(),
                users@ == self.users@.subrange(0, i as int),
            decreases self.users@.len() - i,
        {
            users.push(self.users[i].clone());
            i = i + 1;
            assert(users@ =~= self.users@.subrange(0, i as int));
        }
        let mut active: Vec<ActiveRow> = Vec::new();
        let mut i: usize = 0;
        while i < self.active.len()
            invariant
                i <= self.active@.len(),
                active@ == self.active@.subrange(0, i as int),
            decreases self.active@.len() - i,
        {
            active.push(self.active[i]);
            i = i + 1;
            assert(active@ =~= self.active@.subrange(0, i as int));
        }
        let mut history: Vec<ReturnedRow> = Vec::new();
        let mut i: usize = 0;
        while i < self.history.len()
            invariant
                i <= self.history@.len(),
                history@ == self.history@.subrange(0, i as int),
            decreases self.history@.len() - i,
        {
            history.push(self.history[i]);
            i = i + 1;
            assert(history@ =~= self.history@.subrange(0, i as int));
        }
        assert(books@ =~= self.books@);
        assert(users@ =~= self.users@);
        assert(active@ =~= self.active@);
        assert(history@ =~= self.history@);
        Tables { books, users, active, history }
    }

    /// Position of the book's active row, if it is lent.
    fn find_active_by_book(&self, book_id: BookId) -> (r: Option<usize>)
        ensures
            r is None <==> !is_lent(self@.active, book_id),
            r matches Some(i) ==> i < self@.active.len() && self@.active[i as int].book_id
                == book_id,
    {
        let mut i: usize = 0;
        while i < self.active.len()
            invariant
                i <= self.active@.len(),
                forall|k: int| 0 <= k < i ==> #[trigger] self.active@[k].book_id != book_id,
            decreases self.active@.len() - i,
        {
            if self.active[i].book_id == book_id {
                return Some(i);
            }
            i = i + 1;
        }
        None
    }

    /// Position of the active row of a checkout, if present.
    fn find_active_by_checkout(&self, id: CheckoutId) -> (r: Option<usize>)
        ensures
            r is None <==> !active_has_checkout(self@.active, id),
            r matches Some(i) ==> i < self@.active.len() && self@.active[i as int].checkout_id
                == id,
    {
        let mut i: usize = 0;
        while i < self.active.len()
            invariant
                i <= self.active@.len(),
                forall|k: int| 0 <= k < i ==> #[trigger] self.active@[k].checkout_id != id,
            decreases self.active@.len() - i,
        {
            if self.active[i].checkout_id == id {
                return Some(i);
            }
            i = i + 1;
        }
        None
    }

    fn history_contains(&self, id: CheckoutId) -> (r: bool)
        ensures
            r == history_has_checkout(self@.history, id),
    {
        let mut i: usize = 0;
        while i < self.history.len()
            invariant
                i <= self.history@.len(),
                forall|k: int| 0 <= k < i ==> #[trigger] self.history@[k].checkout_id != id,
            decreases self.history@.len() - i,
        {
            if self.history[i].checkout_id == id {
                return true;
            }
            i = i + 1;
        }
        false
    }

    /// Reads the projection that decides a checkout or a return of the book.
    pub fn find_checkout_state(&self, book_id: BookId) -> (r: Option<CheckoutState>)
        requires
            self.wf(),
        ensures
            r == state_of(self@, book_id),
    {
        if self.find_book_index(book_id).is_none() {
            return None;
        }
        match self.find_active_by_book(book_id) {
            Some(i) => {
                let row = self.active[i];
                assert(lent_pos(self@.active, book_id) == i as int);
                Some(
                    CheckoutState {
                        book_id,
                        checkout_id: Some(row.checkout_id),
                        user_id: Some(row.user_id),
                    },
                )
            },
            None => Some(CheckoutState { book_id, checkout_id: None, user_id: None }),
        }
    }

    /// Inserts the active row of a new checkout with the id `checkout_id`; see
    /// `checkout_insert_result` for when it fails. A failure leaves the store
    /// unchanged.
    pub fn insert_checkout(&mut self, event: &CreateCheckout, checkout_id: CheckoutId) -> (r:
        AppResult<()>)
        requires
            old(self).wf(),
        ensures
            final(self).wf(),
            r == checkout_insert_result(old(self)@, *event, checkout_id),
            r is Ok ==> final(self)@ == after_insert_checkout(old(self)@, *event, checkout_id),
            r is Err ==> final(self)@ == old(self)@,
    {
        if self.find_book_index(event.book_id).is_none() || self.find_active_by_book(
            event.book_id,
        ).is_some() || self.find_active_by_checkout(checkout_id).is_some()
            || self.history_contains(checkout_id) {
            return Err(AppError::NoRowsAffectedError);
        }
        if self.find_user_index(event.checked_out_by).is_none() {
            return Err(AppError::SpecificOperationError);
        }
        let t = event.checked_out_at;
        let ghost s = self.active@;
        let mut i: usize = self.active.len();
        assert(s.subrange(0, s.len() as int) =~= s);
        while i > 0 && self.active[i - 1].checked_out_at > t
            invariant
                i <= s.len(),
                self.active@ == s,
                asc_pos(s, t) == asc_pos(s.subrange(0, i as int), t),
                forall|k: int| i <= k < s.len() ==> #[trigger] s[k].checked_out_at > t,
            decreases i,
        {
            assert(s.subrange(0, i as int).drop_last() =~= s.subrange(0, i - 1));
            i = i - 1;
        }
        if i > 0 {
            assert(s.subrange(0, i as int).drop_last() =~= s.subrange(0, i - 1));
        }
        assert(asc_pos(s, t) == i);
        let row = ActiveRow {
            checkout_id,
            book_id: event.book_id,
            user_id: event.checked_out_by,
            checked_out_at: t,
        };
        self.active.insert(i, row);
        proof {
            lemma_insert_checkout_wf(old(self)@, *event, checkout_id);
        }
        Ok(())
    }

    /// Copies the active checkout `event.checkout_id` of book `event.book_id`
    /// into history with the return time; see `return_insert_result` for when
    /// it fails. A failure leaves the store unchanged.
    pub fn insert_returned_checkout(&mut self, event: &UpdateReturned) -> (r: AppResult<()>)
        requires
            old(self).wf(),
        ensures
            final(self).wf(),
            r == return_insert_result(
                old(self)@,
                event.book_id,
                event.checkout_id,
                event.returned_at,
            ),
            r is Ok ==> final(self)@ == after_insert_returned(
                old(self)@,
                event.checkout_id,
                event.returned_at,
            ),
            r is Err ==> final(self)@ == old(self)@,
    {
        let idx = match self.find_active_by_checkout(event.checkout_id) {
            Some(idx) => idx,
            None => return Err(AppError::NoRowsAffectedError),
        };
        assert(checkout_pos(self@.active, event.checkout_id) == idx as int);
        if self.active[idx].book_id != event.book_id || self.history_contains(event.checkout_id) {
            return Err(AppError::NoRowsAffectedError);
        }
        if event.returned_at < self.active[idx].checked_out_at {
            return Err(AppError::UnprocessableEntity);
        }
        let src = self.active[idx];
        let row = ReturnedRow {
            checkout_id: event.checkout_id,
            book_id: src.book_id,
            user_id: src.user_id,
            checked_out_at: src.checked_out_at,
            returned_at: event.returned_at,
        };
        assert(row == returned_row(self@, event.checkout_id, event.returned_at));
        let t = src.checked_out_at;
        let ghost s = self.history@;
        let mut i: usize = self.history.len();
        assert(s.subrange(0, s.len() as int) =~= s);
        while i > 0 && self.history[i - 1].checked_out_at < t
            invariant
                i <= s.len(),
                self.history@ == s,
                desc_pos(s, t) == desc_pos(s.subrange(0, i as int), t),
                forall|k: int| i <= k < s.len() ==> #[trigger] s[k].checked_out_at < t,
            decreases i,
        {
            assert(s.subrange(0, i as int).drop_last() =~= s.subrange(0, i - 1));
            i = i - 1;
        }
        if i > 0 {
            assert(s.subrange(0, i as int).drop_last() =~= s.subrange(0, i - 1));
        }
        assert(desc_pos(s, t) == i);
        self.history.insert(i, row);
        proof {
            lemma_insert_returned_wf(old(self)@, event.book_id, event.checkout_id, event.returned_at);
        }
        Ok(())
    }

    /// Deletes the active row of checkout `checkout_id` of book `book_id`; no
    /// row is affected, and the store is unchanged, unless that checkout is the
    /// book's active one.
    pub fn delete_checkout(&mut self, checkout_id: CheckoutId, book_id: BookId) -> (r: AppResult<
        (),
    >)
        requires
            old(self).wf(),
        ensures
            final(self).wf(),
            r is Ok <==> active_of_book(old(self)@.active, checkout_id, book_id),
            r is Ok ==> final(self)@ == after_delete_checkout(old(self)@, checkout_id),
            r is Err ==> r == Err::<(), AppError>(AppError::NoRowsAffectedError) && final(self)@
                == old(self)@,
    {
        let idx = match self.find_active_by_checkout(checkout_id) {
            Some(idx) => idx,
            None => return Err(AppError::NoRowsAffectedError),
        };
        assert(checkout_pos(self@.active, checkout_id) == idx as int);
        if self.active[idx].book_id != book_id {
            return Err(AppError::NoRowsAffectedError);
        }
        self.active.remove(idx);
        proof {
            lemma_delete_checkout_wf(old(self)@, checkout_id);
            assert(self@ == after_delete_checkout(old(self)@, checkout_id));
        }
        Ok(())
    }

    /// The fields of an existing book shown with a checkout of it.
    fn checkout_book_of(&self, book_id: BookId) -> (r: CheckoutBook)
        requires
            self.wf(),
            has_book(self@.books, book_id),
        ensures
            r == book_info(self@.books, book_id),
    {
        let i = match self.find_book_index(book_id) {
            Some(i) => i,
            None => {
                assert(false);
                0
            },
        };
        assert(book_pos(self@.books, book_id) == i as int);
        let b = &self.books[i];
        CheckoutBook {
            book_id: b.book_id,
            title: b.title.clone(),
            author: b.author.clone(),
            isbn: b.isbn.clone(),
        }
    }

    fn active_to_checkout(&self, row: ActiveRow) -> (r: Checkout)
        requires
            self.wf(),
            has_book(self@.books, row.book_id),
        ensures
            r == active_checkout(self@.books, row),
    {
        Checkout {
            id: row.checkout_id,
            checked_out_by: row.user_id,
            checked_out_at: row.checked_out_at,
            returned_at: None,
            book: self.checkout_book_of(row.book_id),
        }
    }

    /// Every active checkout, earliest first.
    pub fn find_unreturned_all(&self) -> (r: Vec<Checkout>)
        requires
            self.wf(),
        ensures
            r@ == unreturned_all(self@),
    {
        let mut out: Vec<Checkout> = Vec::new();
        let mut i: usize = 0;
        while i < self.active.len()
            invariant
                self.wf(),
                i <= self@.active.len(),
                out@ == active_checkouts(self@.books, self@.active.subrange(0, i as int)),
            decreases self@.active.len() - i,
        {
            let c = self.active_to_checkout(self.active[i]);
            out.push(c);
            i = i + 1;
            assert(out@ =~= active_checkouts(self@.books, self@.active.subrange(0, i as int)));
        }
        assert(self@.active.subrange(0, i as int) =~= self@.active);
        out
    }

    /// The active checkouts of a user, earliest first.
    pub fn find_unreturned_by_user_id(&self, user_id: UserId) -> (r: Vec<Checkout>)
        requires
            self.wf(),
        ensures
            r@ == unreturned_by_user(self@, user_id),
    {
        let ghost s = self@.active;
        let mut out: Vec<Checkout> = Vec::new();
        let mut i: usize = 0;
        while i < self.active.len()
            invariant
                self.wf(),
                s == self@.active,
                i <= s.len(),
                out@ == active_checkouts(self@.books, active_of_user(s.subrange(0, i as int), user_id)),
            decreases s.len() - i,
        {
            let row = self.active[i];
            assert(s.subrange(0, i + 1).drop_last() =~= s.subrange(0, i as int));
            if row.user_id == user_id {
                let c = self.active_to_checkout(row);
                out.push(c);
            }
            i = i + 1;
            assert(out@ =~= active_checkouts(self@.books, active_of_user(s.subrange(0, i as int), user_id)));
        }
        assert(s.subrange(0, i as int) =~= s);
        out
    }

    /// The active checkout of a book, if it is lent.
    pub fn find_unreturned_by_book_id(&self, book_id: BookId) -> (r: Option<Checkout>)
        requires
            self.wf(),
        ensures
            r == unreturned_by_book(self@, book_id),
    {
        match self.find_active_by_book(book_id) {
            Some(i) => {
                assert(lent_pos(self@.active, book_id) == i as int);
                Some(self.active_to_checkout(self.active[i]))
            },
            None => None,
        }
    }

    /// The full history of a book: its active checkout, if any, then its
    /// returns, latest checkout first.
    pub fn find_history_by_book_id(&self, book_id: BookId) -> (r: Vec<Checkout>)
        requires
            self.wf(),
        ensures
            r@ == history_by_book(self@, book_id),
    {
        let current = self.find_unreturned_by_book_id(book_id);
        let ghost s = self@.history;
        let mut out: Vec<Checkout> = Vec::new();
        let mut i: usize = 0;
        while i < self.history.len()
            invariant
                self.wf(),
                s == self@.history,
                i <= s.len(),
                out@ == returned_checkouts(self@.books, history_of_book(s.subrange(0, i as int), book_id)),
            decreases s.len() - i,
        {
            let row = self.history[i];
            assert(s.subrange(0, i + 1).drop_last() =~= s.subrange(0, i as int));
            if row.book_id == book_id {
                let c = Checkout {
                    id: row.checkout_id,
                    checked_out_by: row.user_id,
                    checked_out_at: row.checked_out_at,
                    returned_at: Some(row.returned_at),
                    book: self.checkout_book_of(row.book_id),
                };
                out.push(c);
            }
            i = i + 1;
            assert(out@ =~= returned_checkouts(self@.books, history_of_book(s.subrange(0, i as int), book_id)));
        }
        assert(s.subrange(0, i as int) =~= s);
        assert(out@ == returns_of_book(self@, book_id));
        history_with_active(current, out)
    }

    fn find_user_index(&self, user_id: UserId) -> (r: Option<usize>)
        ensures
            r is None <==> !has_user(self@.users, user_id),
            r matches Some(i) ==> i < self@.users.len() && self@.users[i as int].user_id == user_id,
    {
        let mut i: usize = 0;
        while i < self.users.len()
            invariant
                i <= self.users@.len(),
                forall|k: int| 0 <= k < i ==> #[trigger] self.users@[k].user_id != user_id,
            decreases self.users@.len() - i,
        {
            if self.users[i].user_id == user_id {
                return Some(i);
            }
            i = i + 1;
        }
        None
    }

    fn find_email_index(&self, email: &str) -> (r: Option<usize>)
        ensures
            r is None <==> !has_email(self@.users, email@),
            r matches Some(i) ==> i < self@.users.len() && self@.users[i as int].email@ == email@,
    {
        let key = String::from_str(email);
        let mut i: usize = 0;
        while i < self.users.len()
            invariant
                i <= self.users@.len(),
                key@ == email@,
                forall|k: int| 0 <= k < i ==> #[trigger] self.users@[k].email@ != email@,
            decreases self.users@.len() - i,
        {
            if *self.users[i].email.as_string() == key {
                return Some(i);
            }
            i = i + 1;
        }
        None
    }

    fn user_at(&self, i: usize) -> (r: User)
        requires
            i < self@.users.len(),
        ensures
            r == user_view(self@.users[i as int]),
    {
        let u = &self.users[i];
        User { id: u.user_id, name: u.name.clone(), email: u.email.clone(), role: u.role }
    }

    /// Registers a user with the role `User` and the given password hash; no
    /// row is affected, and the store is unchanged, when the id or the email
    /// is already taken.
    pub fn create_user(&mut self, event: CreateUser, user_id: UserId, password_hash: String) -> (r:
        AppResult<User>)
        requires
            old(self).wf(),
        ensures
            final(self).wf(),
            r is Ok <==> !has_user(old(self)@.users, user_id) && !has_email(
                old(self)@.users,
                event.email@,
            ),
            r is Ok ==> r->Ok_0 == (User {
                id: user_id,
                name: event.name,
                email: event.email,
                role: Role::User,
            }) && final(self)@ == with_user(old(self)@, event, user_id, password_hash),
            r is Err ==> r == Err::<User, AppError>(AppError::NoRowsAffectedError) && final(self)@
                == old(self)@,
    {
        if self.find_user_index(user_id).is_some() || self.find_email_index(
            event.email.as_str(),
        ).is_some() {
            return Err(AppError::NoRowsAffectedError);
        }
        let user = User {
            id: user_id,
            name: event.name.clone(),
            email: event.email.clone(),
            role: Role::User,
        };
        let ghost s = self.users@;
        let ghost v0 = self@;
        self.users.push(
            UserRecord {
                user_id,
                name: event.name,
                email: event.email,
                password_hash,
                role: Role::User,
            },
        );
        proof {
            let a = self.users@;
            assert forall|k: int, l: int| 0 <= k < l < a.len() implies #[trigger] a[k].user_id
                != #[trigger] a[l].user_id && a[k].email@ != a[l].email@ by {
                assert(a[k] == s[k]);
                if l < s.len() {
                    assert(a[l] == s[l]);
                }
            }
            lemma_users_wf(v0, a);
            assert(self@ == StoreView { users: a, ..v0 });
        }
        Ok(user)
    }

    /// The user with that id, if any.
    pub fn find_current_user(&self, current_user_id: UserId) -> (r: Option<User>)
        requires
            self.wf(),
        ensures
            r == user_of(self@.users, current_user_id),
    {
        match self.find_user_index(current_user_id) {
            Some(i) => {
                assert(user_pos(self@.users, current_user_id) == i as int);
                Some(self.user_at(i))
            },
            None => None,
        }
    }

    /// Every user, latest registration first.
    pub fn find_all_users(&self) -> (r: Vec<User>)
        ensures
            r@ == users_latest_first(self@.users),
    {
        let ghost s = self@.users;
        let mut out: Vec<User> = Vec::new();
        let mut i: usize = self.users.len();
        while i > 0
            invariant
                i <= s.len(),
                s == self@.users,
                out@.len() == s.len() - i,
                forall|k: int|
                    0 <= k < out@.len() ==> #[trigger] out@[k] == user_view(s[s.len() - 1 - k]),
            decreases i,
        {
            i = i - 1;
            let u = self.user_at(i);
            out.push(u);
        }
        assert(out@ =~= users_latest_first(s));
        out
    }

    /// The id and password hash of the user with that email; not found when
    /// no user has it.
    pub fn find_password_hash_by_email(&self, email: &str) -> (r: AppResult<(UserId, String)>)
        requires
            self.wf(),
        ensures
            has_email(self@.users, email@) ==> r is Ok && r->Ok_0.0 == self@.users[email_pos(
                self@.users,
                email@,
            )].user_id && r->Ok_0.1@ == self@.users[email_pos(self@.users, email@)].password_hash@,
            !has_email(self@.users, email@) ==> r == Err::<(UserId, String), AppError>(
                AppError::EntityNotFound,
            ),
    {
        match self.find_email_index(email) {
            Some(i) => {
                assert(email_pos(self@.users, email@) == i as int);
                Ok((self.users[i].user_id, self.users[i].password_hash.clone()))
            },
            None => Err(AppError::EntityNotFound),
        }
    }

    /// The password hash of a user; not found when there is no such user.
    pub fn find_password_hash_by_user_id(&self, user_id: UserId) -> (r: AppResult<String>)
        requires
            self.wf(),
        ensures
            has_user(self@.users, user_id) ==> r is Ok && r->Ok_0@ == self@.users[user_pos(
                self@.users,
                user_id,
            )].password_hash@,
            !has_user(self@.users, user_id) ==> r == Err::<String, AppError>(
                AppError::EntityNotFound,
            ),
    {
        match self.find_user_index(user_id) {
            Some(i) => {
                assert(user_pos(self@.users, user_id) == i as int);
                Ok(self.users[i].password_hash.clone())
            },
            None => Err(AppError::EntityNotFound),
        }
    }

    /// Replaces a user's password hash; a user that does not exist leaves the
    /// store unchanged.
    pub fn update_password_hash(&mut self, user_id: UserId, password_hash: String) -> (r: AppResult<
        (),
    >)
        requires
            old(self).wf(),
        ensures
            final(self).wf(),
            r is Ok,
            has_user(old(self)@.users, user_id) ==> final(self)@ == with_password_hash(
                old(self)@,
                user_id,
                password_hash,
            ),
            !has_user(old(self)@.users, user_id) ==> final(self)@ == old(self)@,
    {
        match self.find_user_index(user_id) {
            Some(i) => {
                assert(user_pos(self@.users, user_id) == i as int);
                let ghost s = self.users@;
                let ghost v0 = self@;
                let old_rec = &self.users[i];
                let rec = UserRecord {
                    user_id: old_rec.user_id,
                    name: old_rec.name.clone(),
                    email: old_rec.email.clone(),
                    password_hash,
                    role: old_rec.role,
                };
                self.users.set(i, rec);
                proof {
                    let a = self.users@;
                    assert forall|k: int, l: int| 0 <= k < l < a.len() implies #[trigger] a[k].user_id
                        != #[trigger] a[l].user_id && a[k].email@ != a[l].email@ by {
                        assert(a[k].user_id == s[k].user_id && a[k].email == s[k].email);
                        assert(a[l].user_id == s[l].user_id && a[l].email == s[l].email);
                    }
                    lemma_users_wf(v0, a);
                    assert(self@ == StoreView { users: a, ..v0 });
                }
                Ok(())
            },
            None => Ok(()),
        }
    }

    /// Changes a user's role; not found when there is no such user.
    pub fn update_role(&mut self, event: UpdateUserRole) -> (r: AppResult<()>)
        requires
            old(self).wf(),
        ensures
            final(self).wf(),
            r is Ok <==> has_user(old(self)@.users, event.user_id),
            r is Ok ==> final(self)@ == with_role(old(self)@, event.user_id, event.role),
            r is Err ==> r == Err::<(), AppError>(AppError::EntityNotFound) && final(self)@
                == old(self)@,
    {
        match self.find_user_index(event.user_id) {
            Some(i) => {
                assert(user_pos(self@.users, event.user_id) == i as int);
                let ghost s = self.users@;
                let ghost v0 = self@;
                let old_rec = &self.users[i];
                let rec = UserRecord {
                    user_id: old_rec.user_id,
                    name: old_rec.name.clone(),
                    email: old_rec.email.clone(),
                    password_hash: old_rec.password_hash.clone(),
                    role: event.role,
                };
                self.users.set(i, rec);
                proof {
                    let a = self.users@;
                    assert forall|k: int, l: int| 0 <= k < l < a.len() implies #[trigger] a[k].user_id
                        != #[trigger] a[l].user_id && a[k].email@ != a[l].email@ by {
                        assert(a[k].user_id == s[k].user_id && a[k].email == s[k].email);
                        assert(a[l].user_id == s[l].user_id && a[l].email == s[l].email);
                    }
                    lemma_users_wf(v0, a);
                    assert(self@ == StoreView { users: a, ..v0 });
                }
                Ok(())
            },
            None => Err(AppError::EntityNotFound),
        }
    }

    /// Removes a user; not found when there is no such user.
    pub fn delete_user(&mut self, event: DeleteUser) -> (r: AppResult<()>)
        requires
            old(self).wf(),
        ensures
            final(self).wf(),
            r is Ok <==> has_user(old(self)@.users, event.user_id),
            r is Ok ==> final(self)@ == without_user(old(self)@, event.user_id),
            r is Err ==> r == Err::<(), AppError>(AppError::EntityNotFound) && final(self)@
                == old(self)@,
    {
        match self.find_user_index(event.user_id) {
            Some(i) => {
                assert(user_pos(self@.users, event.user_id) == i as int);
                let ghost s = self.users@;
                let ghost v0 = self@;
                self.users.remove(i);
                proof {
                    let a = self.users@;
                    assert forall|k: int, l: int| 0 <= k < l < a.len() implies #[trigger] a[k].user_id
                        != #[trigger] a[l].user_id && a[k].email@ != a[l].email@ by {
                        let k0 = if k < i { k } else { k + 1 };
                        let l0 = if l < i { l } else { l + 1 };
                        assert(a[k] == s[k0] && a[l] == s[l0]);
                    }
                    lemma_users_wf(v0, a);
                    assert(self@ == StoreView { users: a, ..v0 });
                }
                Ok(())
            },
            None => Err(AppError::EntityNotFound),
        }
    }

    /// Registers a book owned by `owner` with the id `book_id`; no row is
    /// affected, and the store is unchanged, when the id is taken or the owner
    /// is not a user.
    pub fn create_book(&mut self, event: CreateBook, book_id: BookId, owner: UserId) -> (r:
        AppResult<()>)
        requires
            old(self).wf(),
        ensures
            final(self).wf(),
            r is Ok <==> !has_book(old(self)@.books, book_id) && has_user(old(self)@.users, owner),
            r is Ok ==> final(self)@ == with_book(old(self)@, event, book_id, owner),
            r is Err ==> r == Err::<(), AppError>(AppError::NoRowsAffectedError) && final(self)@
                == old(self)@,
    {
        if self.find_book_index(book_id).is_some() || self.find_user_index(owner).is_none() {
            return Err(AppError::NoRowsAffectedError);
        }
        let ghost s = self.books@;
        let ghost v0 = self@;
        self.books.push(
            BookRecord {
                book_id,
                title: event.title,
                author: event.author,
                isbn: event.isbn,
                description: event.description,
                owner,
            },
        );
        proof {
            let a = self.books@;
            assert forall|k: int, l: int| 0 <= k < l < a.len() implies #[trigger] a[k].book_id
                != #[trigger] a[l].book_id by {
                assert(a[k] == s[k]);
                if l < s.len() {
                    assert(a[l] == s[l]);
                }
            }
            assert forall|b: BookId| has_book(s, b) implies has_book(a, b) by {
                let k = choose|k: int| 0 <= k < s.len() && #[trigger] s[k].book_id == b;
                assert(a[k] == s[k]);
            }
            lemma_books_wf(v0, a);
            assert(self@ == StoreView { books: a, ..v0 });
        }
        Ok(())
    }

    /// Position of the book's row, if the book exists.
    pub fn find_book_index(&self, book_id: BookId) -> (r: Option<usize>)
        ensures
            r is None <==> !has_book(self@.books, book_id),
            r matches Some(i) ==> i < self@.books.len() && self@.books[i as int].book_id == book_id,
    {
        let mut i: usize = 0;
        while i < self.books.len()
            invariant
                i <= self.books@.len(),
                forall|k: int| 0 <= k < i ==> #[trigger] self.books@[k].book_id != book_id,
            decreases self.books@.len() - i,
        {
            if self.books[i].book_id == book_id {
                return Some(i);
            }
            i = i + 1;
        }
        None
    }
}

} // verus!
