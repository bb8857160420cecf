//! The checkout state machine. A book is unknown, available, or checked out by
//! one holder; a checkout moves an available book to checked out, and a return
//! by the holder of record moves it back and records the loan in history.
//!
//! Both transitions run at serializable isolation, so that two racing requests
//! cannot both see an available book and both insert. A scope aborted by a
//! concurrent commit is reported as a storage error and is not retried here;
//! whether to run the whole use case again is left to the caller.

use crate::error::{AppError, AppResult};
use crate::ids::{BookId, CheckoutId};
use crate::model::checkout::{Checkout, CheckoutState, CreateCheckout, UpdateReturned};
use crate::store::{
    active_of_book, after_delete_checkout, after_insert_checkout, after_insert_returned,
    checkout_insert_result, history_by_book, return_insert_result, state_of, unreturned_all, StoreView,
};
use crate::unit_of_work::{StoreState, UnitOfWorkImpl, UnitOfWorkScopeImpl, WriteOp};
use vstd::prelude::*;

verus! {

/// Whether the projection allows a checkout: the book must exist and have no
/// active checkout.
pub open spec fn checkout_decision(state: Option<CheckoutState>) -> AppResult<()> {
    match state {
        None => Err(AppError::EntityNotFound),
        Some(s) => if s.checkout_id is Some {
            Err(AppError::UnprocessableEntity)
        } else {
            Ok(())
        },
    }
}

/// Whether the projection allows a return: the book must exist, and an active
/// checkout of it must be the requested one, held by the requesting user.
pub open spec fn return_decision(state: Option<CheckoutState>, event: UpdateReturned) -> AppResult<
    (),
> {
    match state {
        None => Err(AppError::EntityNotFound),
        Some(s) => match (s.checkout_id, s.user_id) {
            (Some(c), Some(u)) => if c != event.checkout_id || u != event.returned_by {
                Err(AppError::UnprocessableEntity)
            } else {
                Ok(())
            },
            _ => Ok(()),
        },
    }
}

/// The tables after a checkout, or the error that stops it.
pub open spec fn checkout_transition(v: StoreView, event: CreateCheckout, id: CheckoutId) -> Result<
    StoreView,
    AppError,
> {
    match checkout_decision(state_of(v, event.book_id)) {
        Err(e) => Err(e),
        Ok(_) => match checkout_insert_result(v, event, id) {
            Ok(_) => Ok(after_insert_checkout(v, event, id)),
            Err(e) => Err(e),
        },
    }
}

/// The tables after a return, or the error that stops it.
pub open spec fn return_transition(v: StoreView, event: UpdateReturned) -> Result<
    StoreView,
    AppError,
> {
    match return_decision(state_of(v, event.book_id), event) {
        Err(e) => Err(e),
        Ok(_) => if let Err(e) = return_insert_result(
            v,
            event.book_id,
            event.checkout_id,
            event.returned_at,
        ) {
            Err(e)
        } else {
            let w = after_insert_returned(v, event.checkout_id, event.returned_at);
            if active_of_book(w.active, event.checkout_id, event.book_id) {
                Ok(after_delete_checkout(w, event.checkout_id))
            } else {
                Err(AppError::NoRowsAffectedError)
            }
        },
    }
}

/// The store after a transition that ran in its own serializable scope, or the
/// error returned.
pub open spec fn committed_transition(d: StoreState, t: Result<StoreView, AppError>) -> (
    AppResult<()>,
    StoreState,
) {
    match t {
        Err(e) => (Err(e), d),
        Ok(w) => if d.version == u64::MAX {
            (Err(AppError::TransactionError), d)
        } else {
            (Ok(()), StoreState { tables: w, version: (d.version + 1) as u64 })
        },
    }
}

/// Decides a checkout from the projection of the book.
pub fn decide_checkout(state: Option<CheckoutState>) -> (r: AppResult<()>)
    ensures
        r == checkout_decision(state),
{
    match state {
        None => Err(AppError::EntityNotFound),
        Some(s) => if s.checkout_id.is_some() {
            Err(AppError::UnprocessableEntity)
        } else {
            Ok(())
        },
    }
}

/// Decides a return from the projection of the book.
pub fn decide_return(state: Option<CheckoutState>, event: &UpdateReturned) -> (r: AppResult<()>)
    ensures
        r == return_decision(state, *event),
{
    match state {
        None => Err(AppError::EntityNotFound),
        Some(s) => match (s.checkout_id, s.user_id) {
            (Some(c), Some(u)) => if c != event.checkout_id || u != event.returned_by {
                Err(AppError::UnprocessableEntity)
            } else {
                Ok(())
            },
            _ => Ok(()),
        },
    }
}

/// Runs a checkout inside an open scope: reads the projection, decides, and
/// inserts the active row with id `checkout_id`. Nothing is committed.
pub fn checkout_in_scope(uow: &mut UnitOfWorkImpl, event: &CreateCheckout, checkout_id: CheckoutId)
    -> (r: AppResult<()>)
    requires
        old(uow).wf(),
    ensures
        final(uow).wf(),
        final(uow)@.base_version == old(uow)@.base_version,
        final(uow)@.isolation == old(uow)@.isolation,
        match checkout_transition(old(uow)@.tables, *event, checkout_id) {
            Ok(w) => r is Ok && final(uow)@.tables == w && final(uow)@.log == old(uow)@.log.push(
                WriteOp::InsertCheckout { event: *event, checkout_id },
            ),
            Err(e) => r == Err::<(), AppError>(e) && final(uow)@ == old(uow)@,
        },
{
    let state = uow.find_checkout_state(event.book_id);
    match decide_checkout(state) {
        Err(e) => return Err(e),
        Ok(()) => {},
    }
    uow.insert_checkout(event, checkout_id)
}

/// Runs a return inside an open scope: reads the projection, decides, copies
/// the checkout into history and deletes its active row. Nothing is committed;
/// after an error the scope is meant to be dropped.
pub fn return_in_scope(uow: &mut UnitOfWorkImpl, event: &UpdateReturned) -> (r: AppResult<()>)
    requires
        old(uow).wf(),
    ensures
        final(uow).wf(),
        final(uow)@.base_version == old(uow)@.base_version,
        final(uow)@.isolation == old(uow)@.isolation,
        match return_transition(old(uow)@.tables, *event) {
            Ok(w) => r is Ok && final(uow)@.tables == w && final(uow)@.log == old(uow)@.log.push(
                WriteOp::InsertReturned { event: *event },
            ).push(WriteOp::DeleteCheckout { checkout_id: event.checkout_id, book_id: event.book_id }),
            Err(e) => r == Err::<(), AppError>(e),
        },
{
    let state = uow.find_checkout_state(event.book_id);
    match decide_return(state, event) {
        Err(e) => return Err(e),
        Ok(()) => {},
    }
    match uow.insert_returned_checkout(event) {
        Err(e) => return Err(e),
        Ok(()) => {},
    }
    uow.delete_checkout(event.checkout_id, event.book_id)
}

/// Checks a book out to a user in a serializable scope of its own, giving the
/// new checkout the id `checkout_id`, and commits.
pub fn checkout_book(
    scope: &mut UnitOfWorkScopeImpl,
    event: CreateCheckout,
    checkout_id: CheckoutId,
) -> (r: AppResult<()>)
    requires
        old(scope).wf(),
    ensures
        final(scope).wf(),
        (r, final(scope)@) == committed_transition(
            old(scope)@,
            checkout_transition(old(scope)@.tables, event, checkout_id),
        ),
{
    let mut uow = scope.begin_serializable();
    match checkout_in_scope(&mut uow, &event, checkout_id) {
        Err(e) => return Err(e),
        Ok(()) => {},
    }
    scope.commit(uow)
}

/// Returns a checkout, by its holder, in a serializable scope of its own, and
/// commits. A return dated before its checkout is refused, so no history row
/// is ever returned before it was checked out.
pub fn return_book(scope: &mut UnitOfWorkScopeImpl, event: UpdateReturned) -> (r: AppResult<()>)
    requires
        old(scope).wf(),
    ensures
        final(scope).wf(),
        (r, final(scope)@) == committed_transition(
            old(scope)@,
            return_transition(old(scope)@.tables, event),
        ),
        forall|i: int|
            0 <= i < final(scope)@.tables.history.len()
                ==> (#[trigger] final(scope)@.tables.history[i]).returned_at
                >= final(scope)@.tables.history[i].checked_out_at,
{
    proof {
        scope.lemma_tables_wf();
    }
    let mut uow = scope.begin_serializable();
    match return_in_scope(&mut uow, &event) {
        Err(e) => return Err(e),
        Ok(()) => {},
    }
    let r = scope.commit(uow);
    proof {
        scope.lemma_tables_wf();
    }
    r
}

/// The full history of a book: its active checkout, if any, then its returns,
/// latest checkout first.
pub fn checkout_history(scope: &UnitOfWorkScopeImpl, book_id: BookId) -> (r: Vec<Checkout>)
    requires
        scope.wf(),
    ensures
        r@ == history_by_book(scope@.tables, book_id),
{
    let uow = scope.begin();
    uow.acquire().find_history_by_book_id(book_id)
}

/// Every active checkout, earliest first.
pub fn show_checked_out_list(scope: &UnitOfWorkScopeImpl) -> (r: Vec<Checkout>)
    requires
        scope.wf(),
    ensures
        r@ == unreturned_all(scope@.tables),
{
    let uow = scope.begin();
    uow.acquire().find_unreturned_all()
}

} // verus!
