//! The ledger's standing guarantees, stated over any well-formed store.
//!
//! Every operation takes the store by (mutable) reference and promises
//! `wf` back, so these hold at every instant of any call sequence —
//! concurrent callers are serialized by the store's exclusive borrow.

use vstd::prelude::*;

use crate::db::Database;

verus! {

/// At most one session is active, at all times: any two active rows
/// are the same row.
pub proof fn law_at_most_one_active(db: &Database)
    requires
        db.wf(),
    ensures
        forall|i: int, j: int|
            0 <= i < db@.sessions.len() && 0 <= j < db@.sessions.len()
                && (#[trigger] db@.sessions[i]).is_active
                && (#[trigger] db@.sessions[j]).is_active ==> i == j,
{
    db.lemma_wf_implies_inv();
}

/// Every persisted transaction has a positive amount; its type is
/// income or expense by construction of `TransactionType`.
pub proof fn law_amounts_positive(db: &Database)
    requires
        db.wf(),
    ensures
        forall|i: int|
            0 <= i < db@.transactions.len() ==> (#[trigger] db@.transactions[i]).amount > 0,
{
    db.lemma_wf_implies_inv();
}

/// Transaction numbers are exactly 1001, 1002, ... in creation order:
/// after N creates from an empty store they are 1001 through 1000 + N,
/// with no gap and no duplicate.
pub proof fn law_sequential_numbering(db: &Database)
    requires
        db.wf(),
    ensures
        forall|i: int|
            0 <= i < db@.transactions.len() ==> (#[trigger] db@.transactions[
                i
            ]).transaction_number == 1001 + i,
        forall|i: int, j: int|
            0 <= i < db@.transactions.len() && 0 <= j < db@.transactions.len() && i != j ==> (
            #[trigger] db@.transactions[i]).transaction_number != (#[trigger] db@.transactions[
                j
            ]).transaction_number,
{
    db.lemma_wf_implies_inv();
}

/// No session ever spends more than its opening amount plus its
/// income: every session's computed balance is non-negative.
pub proof fn law_balances_nonnegative(db: &Database)
    requires
        db.wf(),
    ensures
        forall|i: int|
            0 <= i < db@.sessions.len() ==> crate::sums::balance_of(
                #[trigger] db@.sessions[i],
                db@.transactions,
            ) >= 0,
{
    db.lemma_wf_implies_inv();
}

/// A filtered read's total count equals the number of rows in the
/// newest-first match list the pages are cut from: a page is never
/// larger than its bound, and the count ignores the bounds entirely.
pub proof fn law_count_matches_filtered(
    ts: Seq<crate::models::TransactionV>,
    f: spec_fn(crate::models::TransactionV) -> bool,
)
    ensures
        crate::sums::count_where(ts, f) == ts.reverse().filter(f).len(),
{
    crate::sums::lemma_count_where_reverse(ts, f);
    crate::sums::lemma_count_is_filter_len(ts.reverse(), f);
}

} // verus!
