//! The unit-of-work layer: a store of committed tables, and scopes that work on
//! a private copy of them and commit all of their writes at once or none.
//!
//! Each commit that writes moves the store to a new version. A scope remembers
//! the version it was begun on. At commit, a scope that wrote nothing leaves the
//! store as it is; one begun on the current version installs its tables; one
//! whose version is stale is aborted at serializable isolation, and at default
//! isolation has its writes replayed, statement by statement, on the current
//! tables.

use crate::error::{AppError, AppResult};
use crate::ids::{BookId, CheckoutId, UserId};
use crate::model::book::CreateBook;
use crate::model::user::{CreateUser, DeleteUser, Role, UpdateUserRole, User};
use crate::model::checkout::{CheckoutState, CreateCheckout, UpdateReturned};
use crate::store::{
    active_of_book, after_delete_checkout, after_insert_checkout, after_insert_returned,
    checkout_insert_result, has_book, has_email, has_user, return_insert_result, state_of, store_wf,
    with_book, with_password_hash, with_role, with_user, without_user, StoreView, Tables,
};
use vstd::prelude::*;

verus! {

/// Isolation level of a scope.
#[derive(Debug, Clone, Copy, PartialEq, Eq, Structural)]
pub enum IsolationLevel {
    /// The store's default: a stale scope's writes are replayed on commit.
    Default,
    /// The strictest level: a stale scope that wrote is aborted on commit.
    Serializable,
}

/// A write performed in a scope, kept so that it can be replayed.
#[derive(Debug, Clone, Copy, PartialEq, Eq, Structural)]
pub enum WriteOp {
    InsertCheckout { event: CreateCheckout, checkout_id: CheckoutId },
    InsertReturned { event: UpdateReturned },
    DeleteCheckout { checkout_id: CheckoutId, book_id: BookId },
}

/// The store after one write, or the error the write answers.
pub open spec fn apply_op(v: StoreView, op: WriteOp) -> Result<StoreView, AppError> {
    match op {
        WriteOp::InsertCheckout { event, checkout_id } => {
            match checkout_insert_result(v, event, checkout_id) {
                Ok(_) => Ok(after_insert_checkout(v, event, checkout_id)),
                Err(e) => Err(e),
            }
        },
        WriteOp::InsertReturned { event } => {
            match return_insert_result(v, event.book_id, event.checkout_id, event.returned_at) {
                Ok(_) => Ok(after_insert_returned(v, event.checkout_id, event.returned_at)),
                Err(e) => Err(e),
            }
        },
        WriteOp::DeleteCheckout { checkout_id, book_id } => {
            if active_of_book(v.active, checkout_id, book_id) {
                Ok(after_delete_checkout(v, checkout_id))
            } else {
                Err(AppError::NoRowsAffectedError)
            }
        },
    }
}

/// The store after a sequence of writes, or the error of the first write
/// that fails.
pub open spec fn apply_log(v: StoreView, log: Seq<WriteOp>) -> Result<StoreView, AppError>
    decreases log.len(),
{
    if log.len() == 0 {
        Ok(v)
    } else {
        match apply_log(v, log.drop_last()) {
            Ok(w) => apply_op(w, log.last()),
            Err(e) => Err(e),
        }
    }
}

/// Once a write of the log fails, the whole log fails with its error.
proof fn lemma_log_fails_from(v: StoreView, log: Seq<WriteOp>, i: int, e: AppError)
    requires
        0 <= i <= log.len(),
        apply_log(v, log.subrange(0, i)) == Err::<StoreView, AppError>(e),
    ensures
        apply_log(v, log) == Err::<StoreView, AppError>(e),
    decreases log.len() - i,
{
    if i < log.len() {
        assert(log.subrange(0, i + 1).drop_last() =~= log.subrange(0, i));
        lemma_log_fails_from(v, log, i + 1, e);
    } else {
        assert(log.subrange(0, i) =~= log);
    }
}

/// The committed state of a store.
pub ghost struct StoreState {
    pub tables: StoreView,
    pub version: u64,
}

/// The state of a scope.
pub ghost struct ScopeState {
    pub tables: StoreView,
    pub base_version: u64,
    pub isolation: IsolationLevel,
    pub log: Seq<WriteOp>,
}

/// What committing scope `s` into store `d` returns, and the store after it.
pub open spec fn commit_outcome(d: StoreState, s: ScopeState) -> (AppResult<()>, StoreState) {
    if s.log.len() == 0 {
        (Ok(()), d)
    } else if d.version == u64::MAX {
        (Err(AppError::TransactionError), d)
    } else if d.version == s.base_version {
        (Ok(()), StoreState { tables: s.tables, version: (d.version + 1) as u64 })
    } else if s.isolation == IsolationLevel::Serializable {
        (Err(AppError::SpecificOperationError), d)
    } else {
        match apply_log(d.tables, s.log) {
            Ok(w) => (Ok(()), StoreState { tables: w, version: (d.version + 1) as u64 }),
            Err(e) => (Err(e), d),
        }
    }
}

/// The scope factory: the committed tables of one store, and their version.
pub struct UnitOfWorkScopeImpl {
    tables: Tables,
    version: u64,
}

impl View for UnitOfWorkScopeImpl {
    type V = StoreState;

    closed spec fn view(&self) -> StoreState {
        StoreState { tables: self.tables@, version: self.version }
    }
}

impl UnitOfWorkScopeImpl {
    /// The store's invariant holds.
    pub closed spec fn wf(&self) -> bool {
        self.tables.wf()
    }

    /// The tables of a well-formed store satisfy the store's invariant.
    pub proof fn lemma_tables_wf(&self)
        requires
            self.wf(),
        ensures
            store_wf(self@.tables),
    {
    }

    /// An empty store.
    pub fn new() -> (r: UnitOfWorkScopeImpl)
        ensures
            r.wf(),
            r@.version == 0,
            r@.tables.books.len() == 0,
            r@.tables.users.len() == 0,
            r@.tables.active.len() == 0,
            r@.tables.history.len() == 0,
    {
        UnitOfWorkScopeImpl { tables: Tables::new(), version: 0 }
    }

    /// A store holding `tables`, at version 0.
    pub fn from_tables(tables: Tables) -> (r: UnitOfWorkScopeImpl)
        requires
            tables.wf(),
        ensures
            r.wf(),
            r@ == (StoreState { tables: tables@, version: 0 }),
    {
        UnitOfWorkScopeImpl { tables, version: 0 }
    }

    /// The committed tables, for reads outside any scope.
    pub fn acquire(&self) -> (r: &Tables)
        requires
            self.wf(),
        ensures
            r.wf(),
            r@ == self@.tables,
    {
        &self.tables
    }

    /// Registers a book as a single write committed at once.
    pub fn create_book(&mut self, event: CreateBook, book_id: BookId, owner: UserId) -> (r:
        AppResult<()>)
        requires
            old(self).wf(),
        ensures
            final(self).wf(),
            old(self)@.version == u64::MAX ==> r == Err::<(), AppError>(
                AppError::TransactionError,
            ) && final(self)@ == old(self)@,
            old(self)@.version < u64::MAX ==> (r is Ok <==> !has_book(
                old(self)@.tables.books,
                book_id,
            ) && has_user(old(self)@.tables.users, owner)),
            old(self)@.version < u64::MAX && r is Ok ==> final(self)@ == (StoreState {
                tables: with_book(old(self)@.tables, event, book_id, owner),
                version: (old(self)@.version + 1) as u64,
            }),
            old(self)@.version < u64::MAX && r is Err ==> r == Err::<(), AppError>(
                AppError::NoRowsAffectedError,
            ) && final(self)@ == old(self)@,
    {
        if self.version == u64::MAX {
            return Err(AppError::TransactionError);
        }
        let r = self.tables.create_book(event, book_id, owner);
        if r.is_ok() {
            self.version = self.version + 1;
        }
        r
    }

    /// Registers a user, with the role `User` and the given password hash, as
    /// a single write committed at once.
    pub fn create_user(&mut self, event: CreateUser, user_id: UserId, password_hash: String) -> (r:
        AppResult<User>)
        requires
            old(self).wf(),
        ensures
            final(self).wf(),
            old(self)@.version == u64::MAX ==> r == Err::<User, AppError>(
                AppError::TransactionError,
            ) && final(self)@ == old(self)@,
            old(self)@.version < u64::MAX ==> (r is Ok <==> !has_user(
                old(self)@.tables.users,
                user_id,
            ) && !has_email(old(self)@.tables.users, event.email@)),
            old(self)@.version < u64::MAX && r is Ok ==> r->Ok_0 == (User {
                id: user_id,
                name: event.name,
                email: event.email,
                role: Role::User,
            }) && final(self)@ == (StoreState {
                tables: with_user(old(self)@.tables, event, user_id, password_hash),
                version: (old(self)@.version + 1) as u64,
            }),
            old(self)@.version < u64::MAX && r is Err ==> r == Err::<User, AppError>(
                AppError::NoRowsAffectedError,
            ) && final(self)@ == old(self)@,
    {
        if self.version == u64::MAX {
            return Err(AppError::TransactionError);
        }
        let r = self.tables.create_user(event, user_id, password_hash);
        if r.is_ok() {
            self.version = self.version + 1;
        }
        r
    }

    /// Replaces a user's password hash as a single write committed at once; a
    /// user that does not exist leaves the tables unchanged.
    pub fn update_password_hash(&mut self, user_id: UserId, password_hash: String) -> (r: AppResult<
        (),
    >)
        requires
            old(self).wf(),
        ensures
            final(self).wf(),
            old(self)@.version == u64::MAX ==> r == Err::<(), AppError>(
                AppError::TransactionError,
            ) && final(self)@ == old(self)@,
            old(self)@.version < u64::MAX ==> r is Ok,
            old(self)@.version < u64::MAX && has_user(old(self)@.tables.users, user_id)
                ==> final(self)@ == (StoreState {
                tables: with_password_hash(old(self)@.tables, user_id, password_hash),
                version: (old(self)@.version + 1) as u64,
            }),
            old(self)@.version < u64::MAX && !has_user(old(self)@.tables.users, user_id)
                ==> final(self)@ == (StoreState {
                tables: old(self)@.tables,
                version: (old(self)@.version + 1) as u64,
            }),
    {
        if self.version == u64::MAX {
            return Err(AppError::TransactionError);
        }
        let r = self.tables.update_password_hash(user_id, password_hash);
        self.version = self.version + 1;
        r
    }

    /// Changes a user's role as a single write committed at once.
    pub fn update_role(&mut self, event: UpdateUserRole) -> (r: AppResult<()>)
        requires
            old(self).wf(),
        ensures
            final(self).wf(),
            old(self)@.version == u64::MAX ==> r == Err::<(), AppError>(
                AppError::TransactionError,
            ) && final(self)@ == old(self)@,
            old(self)@.version < u64::MAX ==> (r is Ok <==> has_user(
                old(self)@.tables.users,
                event.user_id,
            )),
            old(self)@.version < u64::MAX && r is Ok ==> final(self)@ == (StoreState {
                tables: with_role(old(self)@.tables, event.user_id, event.role),
                version: (old(self)@.version + 1) as u64,
            }),
            old(self)@.version < u64::MAX && r is Err ==> r == Err::<(), AppError>(
                AppError::EntityNotFound,
            ) && final(self)@ == old(self)@,
    {
        if self.version == u64::MAX {
            return Err(AppError::TransactionError);
        }
        let r = self.tables.update_role(event);
        if r.is_ok() {
            self.version = self.version + 1;
        }
        r
    }

    /// Removes a user as a single write committed at once.
    pub fn delete_user(&mut self, event: DeleteUser) -> (r: AppResult<()>)
        requires
            old(self).wf(),
        ensures
            final(self).wf(),
            old(self)@.version == u64::MAX ==> r == Err::<(), AppError>(
                AppError::TransactionError,
            ) && final(self)@ == old(self)@,
            old(self)@.version < u64::MAX ==> (r is Ok <==> has_user(
                old(self)@.tables.users,
                event.user_id,
            )),
            old(self)@.version < u64::MAX && r is Ok ==> final(self)@ == (StoreState {
                tables: without_user(old(self)@.tables, event.user_id),
                version: (old(self)@.version + 1) as u64,
            }),
            old(self)@.version < u64::MAX && r is Err ==> r == Err::<(), AppError>(
                AppError::EntityNotFound,
            ) && final(self)@ == old(self)@,
    {
        if self.version == u64::MAX {
            return Err(AppError::TransactionError);
        }
        let r = self.tables.delete_user(event);
        if r.is_ok() {
            self.version = self.version + 1;
        }
        r
    }

    /// Reports whether the store can be reached: an in-memory store always can.
    pub fn check_db(&self) -> (r: bool)
        ensures
            r,
    {
        true
    }

    /// Opens a scope at the default isolation level.
    pub fn begin(&self) -> (r: UnitOfWorkImpl)
        requires
            self.wf(),
        ensures
            r.wf(),
            r@ == (ScopeState {
                tables: self@.tables,
                base_version: self@.version,
                isolation: IsolationLevel::Default,
                log: Seq::empty(),
            }),
    {
        UnitOfWorkImpl {
            tables: self.tables.copy(),
            base_version: self.version,
            isolation: IsolationLevel::Default,
            log: Vec::new(),
        }
    }

    /// Opens a scope at serializable isolation.
    pub fn begin_serializable(&self) -> (r: UnitOfWorkImpl)
        requires
            self.wf(),
        ensures
            r.wf(),
            r@ == (ScopeState {
                tables: self@.tables,
                base_version: self@.version,
                isolation: IsolationLevel::Serializable,
                log: Seq::empty(),
            }),
    {
        UnitOfWorkImpl {
            tables: self.tables.copy(),
            base_version: self.version,
            isolation: IsolationLevel::Serializable,
            log: Vec::new(),
        }
    }

    /// Replays a log of writes on a copy of the committed tables.
    fn replay(&self, log: &Vec<WriteOp>) -> (r: AppResult<Tables>)
        requires
            self.wf(),
        ensures
            r is Err ==> apply_log(self@.tables, log@) == Err::<StoreView, AppError>(r->Err_0),
            r matches Ok(t) ==> t.wf() && apply_log(self@.tables, log@) == Ok::<
                StoreView,
                AppError,
            >(t@),
    {
        let mut work = self.tables.copy();
        let mut i: usize = 0;
        assert(log@.subrange(0, 0) =~= Seq::<WriteOp>::empty());
        while i < log.len()
            invariant
                self.wf(),
                work.wf(),
                i <= log@.len(),
                apply_log(self@.tables, log@.subrange(0, i as int)) == Ok::<StoreView, AppError>(
                    work@,
                ),
            decreases log@.len() - i,
        {
            let op = log[i];
            assert(log@.subrange(0, i + 1).drop_last() =~= log@.subrange(0, i as int));
            let res = match op {
                WriteOp::InsertCheckout { event, checkout_id } => work.insert_checkout(
                    &event,
                    checkout_id,
                ),
                WriteOp::InsertReturned { event } => work.insert_returned_checkout(&event),
                WriteOp::DeleteCheckout { checkout_id, book_id } => work.delete_checkout(
                    checkout_id,
                    book_id,
                ),
            };
            if let Err(e) = res {
                proof {
                    lemma_log_fails_from(self@.tables, log@, i + 1, e);
                }
                return Err(e);
            }
            i = i + 1;
        }
        assert(log@.subrange(0, i as int) =~= log@);
        Ok(work)
    }

    /// Commits a scope: see the module's description for the outcome.
    pub fn commit(&mut self, uow: UnitOfWorkImpl) -> (r: AppResult<()>)
        requires
            old(self).wf(),
            uow.wf(),
        ensures
            final(self).wf(),
            (r, final(self)@) == commit_outcome(old(self)@, uow@),
    {
        if uow.log.len() == 0 {
            return Ok(());
        }
        if self.version == u64::MAX {
            return Err(AppError::TransactionError);
        }
        if self.version == uow.base_version {
            self.tables = uow.tables;
            self.version = self.version + 1;
            return Ok(());
        }
        if uow.isolation == IsolationLevel::Serializable {
            return Err(AppError::SpecificOperationError);
        }
        match self.replay(&uow.log) {
            Ok(t) => {
                self.tables = t;
                self.version = self.version + 1;
                Ok(())
            },
            Err(e) => Err(e),
        }
    }
}

/// One scope: a private copy of the tables, the version it was begun on, its
/// isolation level, and the writes made so far. Dropping it without a commit
/// discards every write.
pub struct UnitOfWorkImpl {
    tables: Tables,
    base_version: u64,
    isolation: IsolationLevel,
    log: Vec<WriteOp>,
}

impl View for UnitOfWorkImpl {
    type V = ScopeState;

    closed spec fn view(&self) -> ScopeState {
        ScopeState {
            tables: self.tables@,
            base_version: self.base_version,
            isolation: self.isolation,
            log: self.log@,
        }
    }
}

impl UnitOfWorkImpl {
    /// The scope's invariant holds.
    pub closed spec fn wf(&self) -> bool {
        self.tables.wf()
    }

    /// The scope's tables, for reads inside the scope.
    pub fn acquire(&self) -> (r: &Tables)
        requires
            self.wf(),
        ensures
            r.wf(),
            r@ == self@.tables,
    {
        &self.tables
    }

    /// Reads the projection that decides a checkout or a return of the book.
    pub fn find_checkout_state(&self, book_id: crate::ids::BookId) -> (r: Option<CheckoutState>)
        requires
            self.wf(),
        ensures
            r == state_of(self@.tables, book_id),
    {
        self.tables.find_checkout_state(book_id)
    }

    /// Inserts an active row within the scope; see `Tables::insert_checkout`.
    pub fn insert_checkout(&mut self, event: &CreateCheckout, checkout_id: CheckoutId) -> (r:
        AppResult<()>)
        requires
            old(self).wf(),
        ensures
            final(self).wf(),
            final(self)@.base_version == old(self)@.base_version,
            final(self)@.isolation == old(self)@.isolation,
            r == checkout_insert_result(old(self)@.tables, *event, checkout_id),
            r is Ok ==> final(self)@.tables == after_insert_checkout(
                old(self)@.tables,
                *event,
                checkout_id,
            ) && final(self)@.log == old(self)@.log.push(
                WriteOp::InsertCheckout { event: *event, checkout_id },
            ),
            r is Err ==> final(self)@ == old(self)@,
    {
        let r = self.tables.insert_checkout(event, checkout_id);
        if r.is_ok() {
            self.log.push(WriteOp::InsertCheckout { event: *event, checkout_id });
        }
        r
    }

    /// Copies an active checkout into history within the scope; see
    /// `Tables::insert_returned_checkout`.
    pub fn insert_returned_checkout(&mut self, event: &UpdateReturned) -> (r: AppResult<()>)
        requires
            old(self).wf(),
        ensures
            final(self).wf(),
            final(self)@.base_version == old(self)@.base_version,
            final(self)@.isolation == old(self)@.isolation,
            r == return_insert_result(
                old(self)@.tables,
                event.book_id,
                event.checkout_id,
                event.returned_at,
            ),
            r is Ok ==> final(self)@.tables == after_insert_returned(
                old(self)@.tables,
                event.checkout_id,
                event.returned_at,
            ) && final(self)@.log == old(self)@.log.push(WriteOp::InsertReturned { event: *event }),
            r is Err ==> final(self)@ == old(self)@,
    {
        let r = self.tables.insert_returned_checkout(event);
        if r.is_ok() {
            self.log.push(WriteOp::InsertReturned { event: *event });
        }
        r
    }

    /// Deletes an active row within the scope; see `Tables::delete_checkout`.
    pub fn delete_checkout(&mut self, checkout_id: CheckoutId, book_id: BookId) -> (r: AppResult<
        (),
    >)
        requires
            old(self).wf(),
        ensures
            final(self).wf(),
            final(self)@.base_version == old(self)@.base_version,
            final(self)@.isolation == old(self)@.isolation,
            r is Ok <==> active_of_book(old(self)@.tables.active, checkout_id, book_id),
            r is Ok ==> final(self)@.tables == after_delete_checkout(old(self)@.tables, checkout_id)
                && final(self)@.log == old(self)@.log.push(
                WriteOp::DeleteCheckout { checkout_id, book_id },
            ),
            r is Err ==> r == Err::<(), AppError>(AppError::NoRowsAffectedError) && final(self)@
                == old(self)@,
    {
        let r = self.tables.delete_checkout(checkout_id, book_id);
        if r.is_ok() {
            self.log.push(WriteOp::DeleteCheckout { checkout_id, book_id });
        }
        r
    }

    /// Ends the scope without committing: every write of it is discarded.
    pub fn rollback(self) -> (r: AppResult<()>)
        ensures
            r is Ok,
    {
        Ok(())
    }
}

} // verus!
