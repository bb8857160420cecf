//! Properties of the store and of the checkout state machine that hold for
//! every input, stated over the specifications that the operations meet.

use crate::error::AppError;
use crate::ids::{BookId, CheckoutId};
use crate::model::checkout::{CreateCheckout, UpdateReturned};
use crate::store::{
    active_checkout, active_count, active_has_checkout, after_delete_checkout,
    after_insert_checkout, after_insert_returned, asc_pos, checkout_pos, desc_pos, has_book,
    has_user, history_by_book, history_has_checkout, history_of_book, is_lent, lemma_asc_pos,
    lemma_delete_checkout_wf, lemma_desc_pos, lemma_insert_checkout_wf, lemma_insert_returned_wf,
    lent_pos, returned_row, returns_of_book, state_of, store_wf, ActiveRow, ReturnedRow,
    StoreView,
};
use crate::unit_of_work::{
    commit_outcome, IsolationLevel, ScopeState, StoreState, UnitOfWorkScopeImpl, WriteOp,
};
use crate::use_case::checkout::{checkout_transition, committed_transition, return_transition};
use vstd::prelude::*;

verus! {

/// In a well-formed store a book has at most one active checkout, and none
/// exactly when it is not lent.
pub proof fn lemma_single_holder(v: StoreView, b: BookId)
    requires
        store_wf(v),
    ensures
        active_count(v.active, b) <= 1,
        active_count(v.active, b) == 0 <==> !is_lent(v.active, b),
{
    lemma_count_unique(v.active, b);
}

proof fn lemma_count_unique(s: Seq<ActiveRow>, b: BookId)
    requires
        forall|i: int, j: int|
            0 <= i < j < s.len() ==> #[trigger] s[i].book_id != #[trigger] s[j].book_id,
    ensures
        active_count(s, b) <= 1,
        active_count(s, b) == 0 <==> !is_lent(s, b),
    decreases s.len(),
{
    if s.len() > 0 {
        let d = s.drop_last();
        assert forall|i: int, j: int| 0 <= i < j < d.len() implies #[trigger] d[i].book_id
            != #[trigger] d[j].book_id by {
            assert(d[i] == s[i] && d[j] == s[j]);
        }
        lemma_count_unique(d, b);
        if s.last().book_id == b {
            assert forall|i: int| 0 <= i < d.len() implies #[trigger] d[i].book_id != b by {
                assert(d[i] == s[i]);
            }
            assert(s[s.len() - 1].book_id == b);
        } else {
            if is_lent(s, b) {
                let i = choose|i: int| 0 <= i < s.len() && #[trigger] s[i].book_id == b;
                assert(d[i] == s[i]);
            }
            if is_lent(d, b) {
                let i = choose|i: int| 0 <= i < d.len() && #[trigger] d[i].book_id == b;
                assert(d[i] == s[i]);
            }
        }
    }
}

/// Every committed state of a store has at most one active checkout per book.
pub proof fn lemma_store_single_holder(scope: &UnitOfWorkScopeImpl, b: BookId)
    requires
        scope.wf(),
    ensures
        active_count(scope@.tables.active, b) <= 1,
{
    scope.lemma_tables_wf();
    lemma_single_holder(scope@.tables, b);
}

/// The tables after a successful checkout, and facts about its row.
proof fn lemma_after_checkout(v: StoreView, e: CreateCheckout, id: CheckoutId)
    requires
        store_wf(v),
        checkout_transition(v, e, id) is Ok,
    ensures
        checkout_transition(v, e, id) == Ok::<StoreView, AppError>(after_insert_checkout(v, e, id)),
        store_wf(after_insert_checkout(v, e, id)),
        !is_lent(v.active, e.book_id),
        !history_has_checkout(v.history, id),
        has_book(v.books, e.book_id),
        ({
            let w = after_insert_checkout(v, e, id);
            let p = asc_pos(v.active, e.checked_out_at);
            &&& 0 <= p < w.active.len()
            &&& w.active[p] == (ActiveRow {
                checkout_id: id,
                book_id: e.book_id,
                user_id: e.checked_out_by,
                checked_out_at: e.checked_out_at,
            })
            &&& lent_pos(w.active, e.book_id) == p
            &&& checkout_pos(w.active, id) == p
            &&& w.active.remove(p) == v.active
            &&& is_lent(w.active, e.book_id)
        }),
{
    lemma_insert_checkout_wf(v, e, id);
    lemma_asc_pos(v.active, e.checked_out_at);
    let w = after_insert_checkout(v, e, id);
    let p = asc_pos(v.active, e.checked_out_at);
    assert(w.active[p].book_id == e.book_id);
    let q = lent_pos(w.active, e.book_id);
    if q != p {
        if q < p {
            assert(w.active[q].book_id != w.active[p].book_id);
        } else {
            assert(w.active[p].book_id != w.active[q].book_id);
        }
    }
    let c = checkout_pos(w.active, id);
    if c != p {
        if c < p {
            assert(w.active[c].checkout_id != w.active[p].checkout_id);
        } else {
            assert(w.active[p].checkout_id != w.active[c].checkout_id);
        }
    }
    assert(w.active.remove(p) =~= v.active);
}

/// Round trip: checking an available book out and returning it with the same
/// ids, no earlier than it was checked out, restores the active store, and
/// adds to history exactly one row of that checkout, carrying its ids and both
/// times, the return no earlier than the checkout.
pub proof fn lemma_round_trip(v: StoreView, e: CreateCheckout, id: CheckoutId, returned_at: i64)
    requires
        store_wf(v),
        checkout_transition(v, e, id) is Ok,
        e.checked_out_at <= returned_at,
    ensures
        ({
            let w = checkout_transition(v, e, id)->Ok_0;
            let ret = UpdateReturned {
                checkout_id: id,
                book_id: e.book_id,
                returned_by: e.checked_out_by,
                returned_at,
            };
            let row = ReturnedRow {
                checkout_id: id,
                book_id: e.book_id,
                user_id: e.checked_out_by,
                checked_out_at: e.checked_out_at,
                returned_at,
            };
            &&& return_transition(w, ret) is Ok
            &&& active_count(return_transition(w, ret)->Ok_0.active, e.book_id) == 0
            &&& exists|i: int|
                0 <= i < return_transition(w, ret)->Ok_0.history.len()
                    && #[trigger] return_transition(w, ret)->Ok_0.history[i] == row
            &&& forall|i: int, j: int|
                0 <= i < return_transition(w, ret)->Ok_0.history.len() && 0 <= j
                    < return_transition(w, ret)->Ok_0.history.len()
                    && #[trigger] return_transition(w, ret)->Ok_0.history[i].checkout_id == id
                    && #[trigger] return_transition(w, ret)->Ok_0.history[j].checkout_id == id
                    ==> i == j
            &&& row.returned_at >= row.checked_out_at
            &&& return_transition(w, ret)->Ok_0.active == v.active
            &&& return_transition(w, ret)->Ok_0.books == v.books
            &&& return_transition(w, ret)->Ok_0.users == v.users
            &&& exists|q: int|
                0 <= q <= v.history.len() && return_transition(w, ret)->Ok_0.history
                    == v.history.insert(q, row)
        }),
{
    lemma_after_checkout(v, e, id);
    let w = after_insert_checkout(v, e, id);
    let p = asc_pos(v.active, e.checked_out_at);
    let ret = UpdateReturned {
        checkout_id: id,
        book_id: e.book_id,
        returned_by: e.checked_out_by,
        returned_at,
    };
    let row = ReturnedRow {
        checkout_id: id,
        book_id: e.book_id,
        user_id: e.checked_out_by,
        checked_out_at: e.checked_out_at,
        returned_at,
    };
    assert(has_book(w.books, e.book_id));
    assert(state_of(w, e.book_id) == Some(
        crate::model::checkout::CheckoutState {
            book_id: e.book_id,
            checkout_id: Some(id),
            user_id: Some(e.checked_out_by),
        },
    ));
    assert(w.active[p].checkout_id == id);
    assert(!history_has_checkout(w.history, id));
    lemma_desc_pos(w.history, e.checked_out_at);
    let q = desc_pos(w.history, e.checked_out_at);
    let x = return_transition(w, ret)->Ok_0;
    assert(x.active == v.active);
    lemma_single_holder(v, e.book_id);
    assert(x.history == w.history.insert(q, row));
    assert(x.history[q] == row);
    assert(0 <= q <= v.history.len() && x.history == v.history.insert(q, row));
    assert forall|i: int, j: int|
        0 <= i < x.history.len() && 0 <= j < x.history.len() && #[trigger] x.history[i].checkout_id
            == id && #[trigger] x.history[j].checkout_id == id implies i == j by {
        if i != q {
            let k = if i < q { i } else { i - 1 };
            assert(x.history[i] == w.history[k]);
        }
        if j != q {
            let k = if j < q { j } else { j - 1 };
            assert(x.history[j] == w.history[k]);
        }
    }
}

/// Mutual exclusion: of two serializable scopes begun on the same version that
/// both wrote, the first to commit succeeds, and the second is then refused,
/// leaving the store as the first left it.
pub proof fn lemma_serializable_race(d: StoreState, s1: ScopeState, s2: ScopeState)
    requires
        s1.isolation == IsolationLevel::Serializable,
        s2.isolation == IsolationLevel::Serializable,
        s1.base_version == d.version,
        s2.base_version == d.version,
        s1.log.len() > 0,
        s2.log.len() > 0,
        d.version < u64::MAX,
    ensures
        ({
            let (r1, d1) = commit_outcome(d, s1);
            let (r2, d2) = commit_outcome(d1, s2);
            &&& r1 is Ok
            &&& d1.tables == s1.tables
            &&& r2 is Err
            &&& d2 == d1
            &&& d.version + 1 < u64::MAX ==> r2 == Err::<(), AppError>(
                AppError::SpecificOperationError,
            )
        }),
{
}

/// Two concurrent checkouts of one available book, each in its own
/// serializable scope begun on the same store: the first commit succeeds, the
/// second fails, the book ends with exactly one active checkout (the
/// winner's), and a checkout attempted after the first commit is refused as a
/// conflict.
pub proof fn lemma_concurrent_checkouts(
    d: StoreState,
    e1: CreateCheckout,
    id1: CheckoutId,
    e2: CreateCheckout,
    id2: CheckoutId,
)
    requires
        store_wf(d.tables),
        e1.book_id == e2.book_id,
        checkout_transition(d.tables, e1, id1) is Ok,
        checkout_transition(d.tables, e2, id2) is Ok,
        d.version < u64::MAX,
    ensures
        ({
            let s1 = ScopeState {
                tables: checkout_transition(d.tables, e1, id1)->Ok_0,
                base_version: d.version,
                isolation: IsolationLevel::Serializable,
                log: seq![WriteOp::InsertCheckout { event: e1, checkout_id: id1 }],
            };
            let s2 = ScopeState {
                tables: checkout_transition(d.tables, e2, id2)->Ok_0,
                base_version: d.version,
                isolation: IsolationLevel::Serializable,
                log: seq![WriteOp::InsertCheckout { event: e2, checkout_id: id2 }],
            };
            let (r1, d1) = commit_outcome(d, s1);
            let (r2, d2) = commit_outcome(d1, s2);
            &&& r1 is Ok
            &&& r2 is Err
            &&& d2 == d1
            &&& active_count(d2.tables.active, e1.book_id) == 1
            &&& d2.tables.active[lent_pos(d2.tables.active, e1.book_id)].checkout_id == id1
            &&& checkout_transition(d1.tables, e2, id2) == Err::<StoreView, AppError>(
                AppError::UnprocessableEntity,
            )
        }),
{
    lemma_after_checkout(d.tables, e1, id1);
    let w = after_insert_checkout(d.tables, e1, id1);
    lemma_single_holder(w, e1.book_id);
    assert(has_book(w.books, e2.book_id));
}

/// A return whose checkout id and holder do not match the book's active
/// checkout is refused as a conflict, and leaves the store unchanged, so no
/// history row is written.
pub proof fn lemma_wrong_holder_return(d: StoreState, e: UpdateReturned)
    requires
        store_wf(d.tables),
        has_book(d.tables.books, e.book_id),
        is_lent(d.tables.active, e.book_id),
        ({
            let row = d.tables.active[lent_pos(d.tables.active, e.book_id)];
            row.checkout_id != e.checkout_id || row.user_id != e.returned_by
        }),
    ensures
        return_transition(d.tables, e) == Err::<StoreView, AppError>(AppError::UnprocessableEntity),
        committed_transition(d, return_transition(d.tables, e)) == (
            Err::<(), AppError>(AppError::UnprocessableEntity),
            d,
        ),
{
}

/// A return against a book that does not exist fails as not found, and leaves
/// the store unchanged.
pub proof fn lemma_return_unknown_book(d: StoreState, e: UpdateReturned)
    requires
        !has_book(d.tables.books, e.book_id),
    ensures
        return_transition(d.tables, e) == Err::<StoreView, AppError>(AppError::EntityNotFound),
        committed_transition(d, return_transition(d.tables, e)) == (
            Err::<(), AppError>(AppError::EntityNotFound),
            d,
        ),
{
}

proof fn lemma_history_rows(s: Seq<ReturnedRow>, b: BookId)
    requires
        forall|i: int, j: int|
            0 <= i < j < s.len() ==> #[trigger] s[i].checked_out_at >= #[trigger] s[j].checked_out_at,
    ensures
        forall|i: int|
            0 <= i < history_of_book(s, b).len() ==> exists|k: int|
                0 <= k < s.len() && #[trigger] history_of_book(s, b)[i] == s[k],
        forall|i: int|
            0 <= i < history_of_book(s, b).len() ==> (#[trigger] history_of_book(s, b)[i]).book_id
                == b,
        forall|i: int, j: int|
            0 <= i < j < history_of_book(s, b).len() ==> (#[trigger] history_of_book(s, b)[i]).checked_out_at
                >= (#[trigger] history_of_book(s, b)[j]).checked_out_at,
    decreases s.len(),
{
    if s.len() > 0 {
        let d = s.drop_last();
        assert forall|i: int, j: int| 0 <= i < j < d.len() implies #[trigger] d[i].checked_out_at
            >= #[trigger] d[j].checked_out_at by {
            assert(d[i] == s[i] && d[j] == s[j]);
        }
        lemma_history_rows(d, b);
        let f = history_of_book(d, b);
        let g = history_of_book(s, b);
        assert forall|i: int| 0 <= i < f.len() implies exists|k: int|
            0 <= k < s.len() && #[trigger] f[i] == s[k] by {
            let k = choose|k: int| 0 <= k < d.len() && #[trigger] f[i] == d[k];
            assert(d[k] == s[k]);
        }
        if s.last().book_id == b {
            assert(g == f.push(s.last()));
            assert forall|i: int| 0 <= i < f.len() implies (#[trigger] f[i]).checked_out_at
                >= s.last().checked_out_at by {
                let k = choose|k: int| 0 <= k < s.len() && #[trigger] f[i] == s[k];
                if k < s.len() - 1 {
                    assert(s[k].checked_out_at >= s[s.len() - 1].checked_out_at);
                }
            }
            assert forall|i: int| 0 <= i < g.len() implies exists|k: int|
                0 <= k < s.len() && #[trigger] g[i] == s[k] by {
                if i < f.len() {
                    assert(g[i] == f[i]);
                } else {
                    assert(g[i] == s[s.len() - 1]);
                }
            }
            assert forall|i: int, j: int| 0 <= i < j < g.len() implies (#[trigger] g[i]).checked_out_at
                >= (#[trigger] g[j]).checked_out_at by {
                assert(g[i] == f[i]);
                if j < f.len() {
                    assert(g[j] == f[j]);
                }
            }
        }
    }
}

/// History order: the history of a book starts with its active checkout when
/// it is lent, and continues with its returns, each of that book, latest
/// checkout first.
pub proof fn lemma_history_order(v: StoreView, b: BookId)
    requires
        store_wf(v),
    ensures
        ({
            let h = history_by_book(v, b);
            let rest = returns_of_book(v, b);
            &&& is_lent(v.active, b) ==> h.len() == rest.len() + 1 && h[0] == active_checkout(
                v.books,
                v.active[lent_pos(v.active, b)],
            ) && h[0].returned_at is None && h.subrange(1, h.len() as int) == rest
            &&& !is_lent(v.active, b) ==> h == rest
            &&& forall|i: int|
                0 <= i < rest.len() ==> (#[trigger] rest[i]).returned_at is Some
                    && rest[i].book.book_id == b
            &&& forall|i: int, j: int|
                0 <= i < j < rest.len() ==> (#[trigger] rest[i]).checked_out_at
                    >= (#[trigger] rest[j]).checked_out_at
        }),
{
    lemma_history_rows(v.history, b);
    let f = history_of_book(v.history, b);
    let rest = returns_of_book(v, b);
    assert forall|i: int| 0 <= i < rest.len() implies (#[trigger] rest[i]).returned_at is Some
        && rest[i].book.book_id == b by {
        let k = choose|k: int| 0 <= k < v.history.len() && #[trigger] f[i] == v.history[k];
        assert(has_book(v.books, v.history[k].book_id));
        assert(f[i].book_id == b);
    }
    assert forall|i: int, j: int| 0 <= i < j < rest.len() implies (#[trigger] rest[i]).checked_out_at
        >= (#[trigger] rest[j]).checked_out_at by {
        assert(f[i].checked_out_at >= f[j].checked_out_at);
    }
    let h = history_by_book(v, b);
    if is_lent(v.active, b) {
        assert(h.subrange(1, h.len() as int) =~= rest);
    }
}

/// A return naming a book that has no active checkout fails as an integrity
/// failure, whatever checkout id it carries (another book's loan included),
/// and leaves the store unchanged.
pub proof fn lemma_return_without_active_checkout(d: StoreState, e: UpdateReturned)
    requires
        store_wf(d.tables),
        has_book(d.tables.books, e.book_id),
        !is_lent(d.tables.active, e.book_id),
    ensures
        return_transition(d.tables, e) == Err::<StoreView, AppError>(AppError::NoRowsAffectedError),
        committed_transition(d, return_transition(d.tables, e)) == (
            Err::<(), AppError>(AppError::NoRowsAffectedError),
            d,
        ),
{
    let a = d.tables.active;
    if active_has_checkout(a, e.checkout_id) {
        let p = checkout_pos(a, e.checkout_id);
        assert(a[p].book_id != e.book_id);
    }
}

/// Checking out an available book, to an existing user, with a checkout id
/// new to the store, succeeds when run in its own scope and committed: the
/// book then has exactly one active checkout, that of the holder at the given
/// time, and nothing else changes but the version.
pub proof fn lemma_checkout_available(d: StoreState, e: CreateCheckout, id: CheckoutId)
    requires
        store_wf(d.tables),
        has_book(d.tables.books, e.book_id),
        !is_lent(d.tables.active, e.book_id),
        has_user(d.tables.users, e.checked_out_by),
        !active_has_checkout(d.tables.active, id),
        !history_has_checkout(d.tables.history, id),
        d.version < u64::MAX,
    ensures
        ({
            let (r, d1) = committed_transition(d, checkout_transition(d.tables, e, id));
            let row = d1.tables.active[lent_pos(d1.tables.active, e.book_id)];
            &&& r is Ok
            &&& d1.version == d.version + 1
            &&& d1.tables == after_insert_checkout(d.tables, e, id)
            &&& active_count(d1.tables.active, e.book_id) == 1
            &&& row == (ActiveRow {
                checkout_id: id,
                book_id: e.book_id,
                user_id: e.checked_out_by,
                checked_out_at: e.checked_out_at,
            })
        }),
{
    assert(checkout_transition(d.tables, e, id) is Ok);
    lemma_after_checkout(d.tables, e, id);
    lemma_single_holder(after_insert_checkout(d.tables, e, id), e.book_id);
}

/// Round trip through the committed use cases: a checkout and the return of
/// the same checkout by its holder, no earlier, both succeed; afterwards the active store
/// is as before and history has gained exactly the row of that loan.
pub proof fn lemma_round_trip_committed(d: StoreState, e: CreateCheckout, id: CheckoutId, returned_at: i64)
    requires
        store_wf(d.tables),
        checkout_transition(d.tables, e, id) is Ok,
        e.checked_out_at <= returned_at,
        d.version < u64::MAX - 1,
    ensures
        ({
            let (r1, d1) = committed_transition(d, checkout_transition(d.tables, e, id));
            let ret = UpdateReturned {
                checkout_id: id,
                book_id: e.book_id,
                returned_by: e.checked_out_by,
                returned_at,
            };
            let (r2, d2) = committed_transition(d1, return_transition(d1.tables, ret));
            let row = ReturnedRow {
                checkout_id: id,
                book_id: e.book_id,
                user_id: e.checked_out_by,
                checked_out_at: e.checked_out_at,
                returned_at,
            };
            &&& r1 is Ok
            &&& r2 is Ok
            &&& active_count(d2.tables.active, e.book_id) == 0
            &&& d2.tables.active == d.tables.active
            &&& exists|q: int|
                0 <= q <= d.tables.history.len() && d2.tables.history == d.tables.history.insert(
                    q,
                    row,
                )
        }),
{
    lemma_round_trip(d.tables, e, id, returned_at);
    lemma_after_checkout(d.tables, e, id);
    lemma_single_holder(d.tables, e.book_id);
}

/// No checkout id is both active and in history.
pub open spec fn ids_disjoint(v: StoreView) -> bool {
    forall|i: int|
        0 <= i < v.active.len() ==> !history_has_checkout(v.history, #[trigger] v.active[i].checkout_id)
}

/// A committed checkout keeps active and history ids apart.
pub proof fn lemma_checkout_keeps_ids_disjoint(v: StoreView, e: CreateCheckout, id: CheckoutId)
    requires
        store_wf(v),
        ids_disjoint(v),
        checkout_transition(v, e, id) is Ok,
    ensures
        ids_disjoint(checkout_transition(v, e, id)->Ok_0),
{
    lemma_after_checkout(v, e, id);
    lemma_asc_pos(v.active, e.checked_out_at);
    let w = after_insert_checkout(v, e, id);
    let p = asc_pos(v.active, e.checked_out_at);
    assert forall|k: int| 0 <= k < w.active.len() implies !history_has_checkout(
        w.history,
        #[trigger] w.active[k].checkout_id,
    ) by {
        if k < p {
            assert(w.active[k] == v.active[k]);
        } else if k > p {
            assert(w.active[k] == v.active[k - 1]);
        }
    }
}

/// A committed return keeps active and history ids apart.
pub proof fn lemma_return_keeps_ids_disjoint(v: StoreView, e: UpdateReturned)
    requires
        store_wf(v),
        ids_disjoint(v),
        return_transition(v, e) is Ok,
    ensures
        ids_disjoint(return_transition(v, e)->Ok_0),
{
    let id = e.checkout_id;
    let p = checkout_pos(v.active, id);
    let w = after_insert_returned(v, id, e.returned_at);
    let row = returned_row(v, id, e.returned_at);
    lemma_desc_pos(v.history, row.checked_out_at);
    let q = desc_pos(v.history, row.checked_out_at);
    assert(w.history == v.history.insert(q, row));
    assert(checkout_pos(w.active, id) == p);
    let x = return_transition(v, e)->Ok_0;
    assert(x.active == v.active.remove(p));
    assert forall|k: int| 0 <= k < x.active.len() implies !history_has_checkout(
        x.history,
        #[trigger] x.active[k].checkout_id,
    ) by {
        let k0 = if k < p { k } else { k + 1 };
        assert(x.active[k] == v.active[k0]);
        if k0 < p {
            assert(v.active[k0].checkout_id != v.active[p].checkout_id);
        } else {
            assert(v.active[p].checkout_id != v.active[k0].checkout_id);
        }
        if history_has_checkout(x.history, x.active[k].checkout_id) {
            let j = choose|j: int|
                0 <= j < x.history.len() && #[trigger] x.history[j].checkout_id
                    == x.active[k].checkout_id;
            if j < q {
                assert(x.history[j] == v.history[j]);
            } else if j > q {
                assert(x.history[j] == v.history[j - 1]);
            }
        }
    }
}

/// A return by the holder of record, with the book's active checkout id and
/// a time no earlier than the checkout, succeeds when run in its own scope and
/// committed, on a store whose active and history ids are apart: the book
/// then has no active checkout, and history gains exactly the row of that
/// loan.
pub proof fn lemma_holder_return(d: StoreState, e: UpdateReturned)
    requires
        store_wf(d.tables),
        ids_disjoint(d.tables),
        has_book(d.tables.books, e.book_id),
        is_lent(d.tables.active, e.book_id),
        ({
            let row = d.tables.active[lent_pos(d.tables.active, e.book_id)];
            &&& row.checkout_id == e.checkout_id
            &&& row.user_id == e.returned_by
            &&& row.checked_out_at <= e.returned_at
        }),
        d.version < u64::MAX,
    ensures
        ({
            let row = d.tables.active[lent_pos(d.tables.active, e.book_id)];
            let (r, d1) = committed_transition(d, return_transition(d.tables, e));
            &&& r is Ok
            &&& active_count(d1.tables.active, e.book_id) == 0
            &&& exists|q: int|
                0 <= q <= d.tables.history.len() && d1.tables.history == d.tables.history.insert(
                    q,
                    ReturnedRow {
                        checkout_id: e.checkout_id,
                        book_id: e.book_id,
                        user_id: e.returned_by,
                        checked_out_at: row.checked_out_at,
                        returned_at: e.returned_at,
                    },
                )
        }),
{
    let v = d.tables;
    let id = e.checkout_id;
    let p = lent_pos(v.active, e.book_id);
    let c = checkout_pos(v.active, id);
    if c != p {
        if c < p {
            assert(v.active[c].checkout_id != v.active[p].checkout_id);
        } else {
            assert(v.active[p].checkout_id != v.active[c].checkout_id);
        }
    }
    assert(!history_has_checkout(v.history, v.active[p].checkout_id));
    let w = after_insert_returned(v, id, e.returned_at);
    lemma_insert_returned_wf(v, e.book_id, id, e.returned_at);
    let row = returned_row(v, id, e.returned_at);
    lemma_desc_pos(v.history, row.checked_out_at);
    let q = desc_pos(v.history, row.checked_out_at);
    assert(w.history == v.history.insert(q, row));
    assert(checkout_pos(w.active, id) == p);
    lemma_delete_checkout_wf(w, id);
    let x = after_delete_checkout(w, id);
    assert(x.active == v.active.remove(p));
    assert(return_transition(v, e) == Ok::<StoreView, AppError>(x));
    if is_lent(x.active, e.book_id) {
        let k = choose|k: int| 0 <= k < x.active.len() && #[trigger] x.active[k].book_id == e.book_id;
        let k0 = if k < p { k } else { k + 1 };
        assert(x.active[k] == v.active[k0]);
        if k0 < p {
            assert(v.active[k0].book_id != v.active[p].book_id);
        } else {
            assert(v.active[p].book_id != v.active[k0].book_id);
        }
    }
    lemma_single_holder(x, e.book_id);
    assert(0 <= q <= v.history.len() && x.history == v.history.insert(q, row));
}

} // verus!
