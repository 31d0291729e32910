//! The store: one exclusively-owned in-memory ledger state standing for
//! the persistent database. Every operation takes the whole store by
//! (mutable) reference, so a composite operation — validate, read,
//! write — is one critical section, and the invariants (a single active
//! session, positive amounts, gap-free numbering, non-negative
//! balances) are enforced where the rows change.

use vstd::prelude::*;

use crate::models::BackupInfo;
use crate::models::BackupInfoV;
use crate::models::Category;
use crate::models::CategoryV;
use crate::models::Date;
use crate::models::LedgerError;
use crate::models::Session;
use crate::models::SessionV;
use crate::models::Timestamp;
use crate::models::Transaction;
use crate::models::TransactionType;
use crate::models::TransactionV;
use crate::models::DailySummary;
use crate::models::date_le;
use crate::models::parse_type;
use crate::sums::balance_of;
use crate::sums::expense_sum;
use crate::sums::income_sum;
use crate::sums::lemma_len_le_sum_amounts;
use crate::sums::lemma_opening_le_sum;
use crate::sums::lemma_sum_amounts_nonneg;
use crate::sums::lemma_sum_amounts_push;
use crate::sums::lemma_sum_openings_nonneg;
use crate::sums::lemma_sum_openings_push;
use crate::sums::lemma_sum_openings_update;
use crate::sums::lemma_sum_where_le_amounts;
use crate::sums::lemma_sum_where_nonneg;
use crate::sums::lemma_count_where_take_step;
use crate::sums::lemma_sum_where_push;
use crate::sums::lemma_sum_where_take_le;
use crate::sums::lemma_sum_where_take_step;
use crate::sums::count_where;
use crate::sums::lemma_views_push;
use crate::sums::lemma_views_update;
use crate::sums::date_type_pred;
use crate::sums::session_type_pred;
use crate::sums::sum_amounts;
use crate::sums::sum_openings;
use crate::sums::sum_where;
use crate::sums::views;
use crate::text::is_blank;
use crate::text::str_is_blank;
use crate::text::str_contains;
use crate::text::contains_seq;
use crate::text::format_transaction_number;
use crate::text::spec_transaction_number_text;

verus! {

/// The store never holds more value than this, so every aggregate fits
/// in a signed 64-bit amount.
pub const AMOUNT_CAP: u64 = 0x7fff_ffff_ffff_ffff;

/// Ghost image of the whole store.
pub ghost struct StoreView {
    pub sessions: Seq<SessionV>,
    pub transactions: Seq<TransactionV>,
    pub categories: Seq<CategoryV>,
    pub backups: Seq<BackupInfoV>,
}

impl StoreView {
    /// Total value the store holds: all openings plus all transaction
    /// amounts.
    pub open spec fn stored_total(self) -> int {
        sum_openings(self.sessions) + sum_amounts(self.transactions)
    }

    /// Session rows are numbered 1, 2, ... in creation order.
    pub open spec fn session_ids_ok(self) -> bool {
        forall|i: int|
            0 <= i < self.sessions.len() ==> (#[trigger] self.sessions[i]).id == i + 1
    }

    /// An open session has no closing data; a closed one has both.
    pub open spec fn session_lifecycle_ok(self) -> bool {
        forall|i: int|
            0 <= i < self.sessions.len() ==> {
                let s = #[trigger] self.sessions[i];
                &&& (s.is_active ==> s.closing_amount is None && s.closed_at is None)
                &&& (!s.is_active ==> s.closing_amount is Some && s.closed_at is Some)
            }
    }

    /// At most one session is active.
    pub open spec fn single_active(self) -> bool {
        forall|i: int, j: int|
            0 <= i < self.sessions.len() && 0 <= j < self.sessions.len()
                && (#[trigger] self.sessions[i]).is_active
                && (#[trigger] self.sessions[j]).is_active ==> i == j
    }

    /// Transaction rows are numbered 1, 2, ... with human-facing
    /// numbers 1001, 1002, ...; amounts are positive and references
    /// resolve.
    pub open spec fn transaction_rows_ok(self) -> bool {
        forall|i: int|
            0 <= i < self.transactions.len() ==> {
                let t = #[trigger] self.transactions[i];
                &&& t.id == i + 1
                &&& t.transaction_number == 1001 + i
                &&& t.amount >= 1
                &&& 1 <= t.session_id <= self.sessions.len()
                &&& (t.category_id is Some ==> 1 <= t.category_id->0 <= self.categories.len())
            }
    }

    /// Category rows are numbered 1, 2, ... in creation order.
    pub open spec fn category_ids_ok(self) -> bool {
        forall|i: int|
            0 <= i < self.categories.len() ==> (#[trigger] self.categories[i]).id == i + 1
    }

    /// Backup rows are numbered 1, 2, ... in creation order.
    pub open spec fn backup_ids_ok(self) -> bool {
        forall|i: int|
            0 <= i < self.backups.len() ==> (#[trigger] self.backups[i]).id == i + 1
    }

    /// No session has spent more than its opening plus its income.
    pub open spec fn balances_ok(self) -> bool {
        forall|i: int|
            0 <= i < self.sessions.len() ==> expense_sum(
                self.transactions,
                (#[trigger] self.sessions[i]).id,
            ) <= self.sessions[i].opening_amount + income_sum(
                self.transactions,
                self.sessions[i].id,
            )
    }

    /// The held value fits the cap.
    pub open spec fn capacity_ok(self) -> bool {
        self.stored_total() <= AMOUNT_CAP
    }

    /// The store's full invariant.
    pub open spec fn inv(self) -> bool {
        &&& self.session_ids_ok()
        &&& self.session_lifecycle_ok()
        &&& self.single_active()
        &&& self.transaction_rows_ok()
        &&& self.category_ids_ok()
        &&& self.backup_ids_ok()
        &&& self.balances_ok()
        &&& self.capacity_ok()
    }

    /// Some session is active.
    pub open spec fn has_active(self) -> bool {
        exists|i: int| 0 <= i < self.sessions.len() && (#[trigger] self.sessions[i]).is_active
    }

    /// The index of the active session.
    pub open spec fn active_index(self) -> int {
        choose|i: int| 0 <= i < self.sessions.len() && (#[trigger] self.sessions[i]).is_active
    }

    /// The active session.
    pub open spec fn active_session(self) -> SessionV {
        self.sessions[self.active_index()]
    }

    /// Balance of the active session, 0 when none is active.
    pub open spec fn active_balance(self) -> int {
        if self.has_active() {
            balance_of(self.active_session(), self.transactions)
        } else {
            0
        }
    }
}

/// The ledger store. All fields are private: the only way to a value of
/// this type is `Database::new` and the operations, which maintain the
/// invariant.
pub struct Database {
    sessions: Vec<Session>,
    transactions: Vec<Transaction>,
    categories: Vec<Category>,
    backups: Vec<BackupInfo>,
    /// Cached `stored_total`, so capacity checks are constant-time.
    amount_total: u64,
}

impl View for Database {
    type V = StoreView;

    closed spec fn view(&self) -> StoreView {
        StoreView {
            sessions: views(self.sessions@),
            transactions: views(self.transactions@),
            categories: views(self.categories@),
            backups: views(self.backups@),
        }
    }
}

impl Database {
    /// The store's invariant together with the cached total.
    pub closed spec fn wf(&self) -> bool {
        &&& self@.inv()
        &&& self.amount_total as int == self@.stored_total()
    }

    /// A well-formed store satisfies the ghost invariant.
    pub proof fn lemma_wf_implies_inv(&self)
        requires
            self.wf(),
        ensures
            self@.inv(),
    {
    }

    /// An empty store.
    pub fn new() -> (db: Database)
        ensures
            db.wf(),
            db@.sessions == Seq::<SessionV>::empty(),
            db@.transactions == Seq::<TransactionV>::empty(),
            db@.categories == Seq::<CategoryV>::empty(),
            db@.backups == Seq::<BackupInfoV>::empty(),
    {
        let db = Database {
            sessions: Vec::new(),
            transactions: Vec::new(),
            categories: Vec::new(),
            backups: Vec::new(),
            amount_total: 0,
        };
        proof {
            assert(db@.sessions =~= Seq::<SessionV>::empty());
            assert(db@.transactions =~= Seq::<TransactionV>::empty());
            assert(db@.categories =~= Seq::<CategoryV>::empty());
            assert(db@.backups =~= Seq::<BackupInfoV>::empty());
        }
        db
    }

    /// The index of the active session's row, if one is active.
    fn active_slot(&self) -> (r: Option<usize>)
        ensures
            r is Some ==> 0 <= r->0 < self@.sessions.len() && self@.sessions[r->0 as int].is_active,
            r is None ==> !self@.has_active(),
    {
        let n = self.sessions.len();
        let mut i: usize = 0;
        while i < n
            invariant
                n == self.sessions@.len(),
                0 <= i <= n,
                forall|j: int| 0 <= j < i ==> !(#[trigger] self@.sessions[j]).is_active,
            decreases n - i,
        {
            if self.sessions[i].is_active {
                return Some(i);
            }
            i = i + 1;
        }
        None
    }

    /// The single active session, or none.
    pub fn get_active_session(&self) -> (r: Option<Session>)
        requires
            self.wf(),
        ensures
            r is Some <==> self@.has_active(),
            r is Some ==> r->0@ == self@.active_session(),
    {
        match self.active_slot() {
            Some(i) => {
                proof {
                    let k = self@.active_index();
                    assert(self@.sessions[i as int].is_active);
                    assert(self@.has_active());
                    assert(0 <= k < self@.sessions.len() && self@.sessions[k].is_active);
                    assert(k == i as int);
                }
                Some(self.sessions[i].duplicate())
            },
            None => None,
        }
    }

    /// The session with the given id, which fails `NotFound` exactly
    /// when no such row exists.
    pub fn get_session_by_id(&self, session_id: u64) -> (r: Result<Session, LedgerError>)
        requires
            self.wf(),
        ensures
            1 <= session_id <= self@.sessions.len() ==> r is Ok && r->Ok_0@ == self@.sessions[
                session_id - 1
            ],
            !(1 <= session_id <= self@.sessions.len()) ==> r == Err::<Session, LedgerError>(
                LedgerError::NotFound,
            ),
    {
        let n = self.sessions.len();
        if session_id >= 1 && session_id <= n as u64 {
            Ok(self.sessions[(session_id - 1) as usize].duplicate())
        } else {
            Err(LedgerError::NotFound)
        }
    }

    /// Opens a new session.
    ///
    /// Fails `Conflict` whenever any session is active, whatever the
    /// other arguments; then `Validation` on a blank operator name;
    /// then `Storage` when the store cannot hold the opening amount.
    /// Otherwise appends the one new active row, stamped `now`.
    pub fn create_session(
        &mut self,
        operator_name: &str,
        opening_amount: u64,
        now: Timestamp,
    ) -> (r: Result<Session, LedgerError>)
        requires
            old(self).wf(),
        ensures
            final(self).wf(),
            final(self)@.transactions == old(self)@.transactions,
            final(self)@.categories == old(self)@.categories,
            final(self)@.backups == old(self)@.backups,
            old(self)@.has_active() ==> r == Err::<Session, LedgerError>(LedgerError::Conflict)
                && final(self)@ == old(self)@,
            !old(self)@.has_active() && is_blank(operator_name@) ==> r == Err::<
                Session,
                LedgerError,
            >(LedgerError::Validation) && final(self)@ == old(self)@,
            !old(self)@.has_active() && !is_blank(operator_name@) && (old(self)@.stored_total()
                + opening_amount > AMOUNT_CAP || old(self)@.sessions.len() + 1 > usize::MAX) ==> r
                == Err::<Session, LedgerError>(LedgerError::Storage) && final(self)@ == old(self)@,
            !old(self)@.has_active() && !is_blank(operator_name@) && old(self)@.stored_total()
                + opening_amount <= AMOUNT_CAP && old(self)@.sessions.len() + 1 <= usize::MAX ==> {
                &&& r is Ok
                &&& r->Ok_0@ == (SessionV {
                    id: (old(self)@.sessions.len() + 1) as u64,
                    operator_name: operator_name@,
                    opening_amount,
                    closing_amount: None,
                    opened_at: now,
                    closed_at: None,
                    is_active: true,
                })
                &&& final(self)@.sessions == old(self)@.sessions.push(r->Ok_0@)
            },
    {
        if self.active_slot().is_some() {
            return Err(LedgerError::Conflict);
        }
        if str_is_blank(operator_name) {
            return Err(LedgerError::Validation);
        }
        if opening_amount > AMOUNT_CAP - self.amount_total || self.sessions.len() == usize::MAX {
            return Err(LedgerError::Storage);
        }
        let id = self.sessions.len() as u64 + 1;
        let session = Session {
            id,
            operator_name: operator_name.to_owned(),
            opening_amount,
            closing_amount: None,
            opened_at: now,
            closed_at: None,
            is_active: true,
        };
        let copy = session.duplicate();
        proof {
            lemma_views_push(self.sessions@, session);
            lemma_sum_openings_push(self@.sessions, session@);
        }
        let ghost old_view = self@;
        self.sessions.push(session);
        self.amount_total = self.amount_total + opening_amount;
        proof {
            let nv = self@;
            assert(nv.sessions =~= old_view.sessions.push(copy@));
            assert(nv.transactions =~= old_view.transactions);
            assert(nv.categories =~= old_view.categories);
            assert(nv.backups =~= old_view.backups);
            let n = old_view.sessions.len();
            // the new row keeps every indexed clause
            assert forall|i: int| 0 <= i < nv.sessions.len() implies (#[trigger] nv.sessions[i]).id
                == i + 1 by {
                if i < n {
                    assert(nv.sessions[i] == old_view.sessions[i]);
                }
            }
            // no old row is active, so the new row is the single active one
            assert forall|i: int|
                0 <= i < nv.sessions.len() && (#[trigger] nv.sessions[i]).is_active implies i
                == n by {
                if i < n {
                    assert(!old_view.sessions[i].is_active);
                }
            }
            // per-session balances: sums over transactions are untouched
            assert forall|i: int| 0 <= i < nv.sessions.len() implies expense_sum(
                nv.transactions,
                (#[trigger] nv.sessions[i]).id,
            ) <= nv.sessions[i].opening_amount + income_sum(nv.transactions, nv.sessions[i].id) by {
                if i < n {
                    assert(nv.sessions[i] == old_view.sessions[i]);
                } else {
                    lemma_sum_where_nonneg(
                        nv.transactions,
                        session_type_pred(nv.sessions[i].id, TransactionType::Expense),
                    );
                    assert forall|k: int|
                        0 <= k < nv.transactions.len() implies !(session_type_pred(
                        nv.sessions[i].id,
                        TransactionType::Expense,
                    ))(#[trigger] nv.transactions[k]) by {
                        assert(nv.transactions[k].session_id <= n);
                    }
                    lemma_sum_where_zero_when_none(
                        nv.transactions,
                        session_type_pred(nv.sessions[i].id, TransactionType::Expense),
                    );
                    lemma_sum_where_nonneg(
                        nv.transactions,
                        session_type_pred(nv.sessions[i].id, TransactionType::Income),
                    );
                }
            }
        }
        Ok(copy)
    }

    /// Closes a session, stamping the counted closing amount and `now`.
    ///
    /// Fails `NotFound` exactly when the id resolves to no row, and
    /// `State` exactly when the session is already closed; the store is
    /// then unchanged. Otherwise the one row moves to its closed state
    /// and nothing else changes.
    pub fn close_session(&mut self, session_id: u64, closing_amount: u64, now: Timestamp) -> (r:
        Result<Session, LedgerError>)
        requires
            old(self).wf(),
        ensures
            final(self).wf(),
            final(self)@.transactions == old(self)@.transactions,
            final(self)@.categories == old(self)@.categories,
            final(self)@.backups == old(self)@.backups,
            !(1 <= session_id <= old(self)@.sessions.len()) ==> r == Err::<Session, LedgerError>(
                LedgerError::NotFound,
            ) && final(self)@ == old(self)@,
            1 <= session_id <= old(self)@.sessions.len() && !old(self)@.sessions[session_id
                - 1].is_active ==> r == Err::<Session, LedgerError>(LedgerError::State) && final(self)@ == old(self)@,
            1 <= session_id <= old(self)@.sessions.len() && old(self)@.sessions[session_id
                - 1].is_active ==> {
                &&& r is Ok
                &&& r->Ok_0@ == (SessionV {
                    closing_amount: Some(closing_amount),
                    closed_at: Some(now),
                    is_active: false,
                    ..old(self)@.sessions[session_id - 1]
                })
                &&& final(self)@.sessions == old(self)@.sessions.update(
                    session_id - 1,
                    r->Ok_0@,
                )
            },
    {
        let n = self.sessions.len();
        if !(session_id >= 1 && session_id <= n as u64) {
            return Err(LedgerError::NotFound);
        }
        let idx = (session_id - 1) as usize;
        if !self.sessions[idx].is_active {
            return Err(LedgerError::State);
        }
        let old_row = &self.sessions[idx];
        let updated = Session {
            id: old_row.id,
            operator_name: old_row.operator_name.clone(),
            opening_amount: old_row.opening_amount,
            closing_amount: Some(closing_amount),
            opened_at: old_row.opened_at,
            closed_at: Some(now),
            is_active: false,
        };
        let copy = updated.duplicate();
        proof {
            lemma_views_update(self.sessions@, idx as int, updated);
            lemma_sum_openings_update(self@.sessions, idx as int, updated@);
        }
        let ghost old_view = self@;
        self.sessions[idx] = updated;
        proof {
            let nv = self@;
            assert(nv.sessions =~= old_view.sessions.update(idx as int, copy@));
            assert(nv.transactions =~= old_view.transactions);
            assert(nv.categories =~= old_view.categories);
            assert(nv.backups =~= old_view.backups);
            assert forall|i: int| 0 <= i < nv.sessions.len() implies expense_sum(
                nv.transactions,
                (#[trigger] nv.sessions[i]).id,
            ) <= nv.sessions[i].opening_amount + income_sum(nv.transactions, nv.sessions[i].id) by {
                assert(old_view.sessions[i].id == nv.sessions[i].id);
                assert(old_view.sessions[i].opening_amount == nv.sessions[i].opening_amount);
            }
        }
        Ok(copy)
    }
}

/// The error, if any, that `create_transaction` reports, checked in the
/// order the operation validates: concept, amount, type, active
/// session, funds, category, capacity.
pub open spec fn create_transaction_error(
    v: StoreView,
    session_id: u64,
    transaction_type: Seq<char>,
    amount: u64,
    concept: Seq<char>,
    category_id: Option<u64>,
) -> Option<LedgerError> {
    if is_blank(concept) {
        Some(LedgerError::Validation)
    } else if amount == 0 {
        Some(LedgerError::Validation)
    } else if parse_type(transaction_type) is None {
        Some(LedgerError::Validation)
    } else if !(v.has_active() && v.active_session().id == session_id) {
        Some(LedgerError::Conflict)
    } else if parse_type(transaction_type) == Some(TransactionType::Expense) && amount
        > v.active_balance() {
        Some(LedgerError::InsufficientFunds)
    } else if category_id is Some && !(1 <= category_id->0 <= v.categories.len()) {
        Some(LedgerError::NotFound)
    } else if category_id is Some && v.categories[category_id->0 - 1].category_type != parse_type(
        transaction_type,
    )->0 {
        Some(LedgerError::CategoryMismatch)
    } else if v.stored_total() + amount > AMOUNT_CAP {
        Some(LedgerError::Storage)
    } else {
        None
    }
}

/// The row `create_transaction` persists when it succeeds.
pub open spec fn created_transaction(
    v: StoreView,
    session_id: u64,
    ty: TransactionType,
    amount: u64,
    concept: Seq<char>,
    category_id: Option<u64>,
    created_by: Seq<char>,
    now: Timestamp,
) -> TransactionV {
    TransactionV {
        id: (v.transactions.len() + 1) as u64,
        session_id,
        transaction_number: (1001 + v.transactions.len()) as u64,
        transaction_type: ty,
        amount,
        concept,
        category_id,
        category_name: if category_id is Some {
            Some(v.categories[category_id->0 - 1].name)
        } else {
            None
        },
        created_at: now,
        created_by,
    }
}

impl Database {
    /// Sum and count of one session's transactions of one type.
    pub(crate) fn session_type_totals(&self, session_id: u64, ty: TransactionType) -> (r: (u64, usize))
        requires
            self.wf(),
        ensures
            r.0 as int == sum_where(self@.transactions, session_type_pred(session_id, ty)),
            r.1 as int == count_where(self@.transactions, session_type_pred(session_id, ty)),
    {
        let ghost f = session_type_pred(session_id, ty);
        let ghost ts = self@.transactions;
        let n = self.transactions.len();
        let mut total: u64 = 0;
        let mut count: usize = 0;
        let mut i: usize = 0;
        while i < n
            invariant
                self.wf(),
                n == self.transactions@.len(),
                ts == self@.transactions,
                f == session_type_pred(session_id, ty),
                0 <= i <= n,
                total as int == sum_where(ts.take(i as int), f),
                count as int == count_where(ts.take(i as int), f),
                count <= i,
            decreases n - i,
        {
            let t = &self.transactions[i];
            proof {
                assert(ts[i as int] == t@);
                lemma_sum_where_take_step(ts, f, i as int);
                lemma_count_where_take_step(ts, f, i as int);
                lemma_sum_where_take_le(ts, f, i as int + 1);
                lemma_sum_where_le_amounts(ts, f);
                lemma_sum_openings_nonneg(self@.sessions);
            }
            if t.session_id == session_id && t.transaction_type == ty {
                total = total + t.amount;
                count = count + 1;
            }
            i = i + 1;
        }
        proof {
            assert(ts.take(n as int) =~= ts);
        }
        (total, count)
    }

    /// Computed balance of the session in the given row.
    fn balance_at(&self, idx: usize) -> (b: u64)
        requires
            self.wf(),
            idx < self@.sessions.len(),
        ensures
            b as int == balance_of(self@.sessions[idx as int], self@.transactions),
    {
        let s_id = self.sessions[idx].id;
        let opening = self.sessions[idx].opening_amount;
        let (inc, _) = self.session_type_totals(s_id, TransactionType::Income);
        let (exp, _) = self.session_type_totals(s_id, TransactionType::Expense);
        proof {
            lemma_opening_le_sum(self@.sessions, idx as int);
            lemma_sum_where_le_amounts(
                self@.transactions,
                session_type_pred(s_id, TransactionType::Income),
            );
            lemma_sum_where_nonneg(
                self@.transactions,
                session_type_pred(s_id, TransactionType::Expense),
            );
            assert(expense_sum(self@.transactions, (self@.sessions[idx as int]).id)
                <= self@.sessions[idx as int].opening_amount + income_sum(
                self@.transactions,
                self@.sessions[idx as int].id,
            ));
        }
        opening + inc - exp
    }

    /// Records a transaction against the active session.
    ///
    /// Validates, in order: non-blank concept, positive amount, known
    /// type, the active session matching `session_id`, sufficient funds
    /// for an expense, a resolvable category of the same type, and
    /// store capacity — reporting the error `create_transaction_error`
    /// gives and leaving the store unchanged. On success appends
    /// exactly the row `created_transaction` describes, whose number
    /// extends the gap-free sequence 1001, 1002, ...
    pub fn create_transaction(
        &mut self,
        session_id: u64,
        transaction_type: &str,
        amount: u64,
        concept: &str,
        category_id: Option<u64>,
        created_by: &str,
        now: Timestamp,
    ) -> (r: Result<Transaction, LedgerError>)
        requires
            old(self).wf(),
        ensures
            final(self).wf(),
            final(self)@.sessions == old(self)@.sessions,
            final(self)@.categories == old(self)@.categories,
            final(self)@.backups == old(self)@.backups,
            ({
                let e = create_transaction_error(
                    old(self)@,
                    session_id,
                    transaction_type@,
                    amount,
                    concept@,
                    category_id,
                );
                &&& (e is Some ==> r == Err::<Transaction, LedgerError>(e->0) && final(self)@
                    == old(self)@)
                &&& (e is None ==> r is Ok && r->Ok_0@ == created_transaction(
                    old(self)@,
                    session_id,
                    parse_type(transaction_type@)->0,
                    amount,
                    concept@,
                    category_id,
                    created_by@,
                    now,
                ) && final(self)@.transactions == old(self)@.transactions.push(r->Ok_0@))
            }),
    {
        if str_is_blank(concept) {
            return Err(LedgerError::Validation);
        }
        if amount == 0 {
            return Err(LedgerError::Validation);
        }
        let ty = match crate::models::parse_transaction_type(transaction_type) {
            Some(t) => t,
            None => {
                return Err(LedgerError::Validation);
            },
        };
        let idx = match self.active_slot() {
            Some(i) => {
                proof {
                    let k = self@.active_index();
                    assert(self@.sessions[i as int].is_active);
                    assert(self@.has_active());
                    assert(0 <= k < self@.sessions.len() && self@.sessions[k].is_active);
                    assert(k == i as int);
                }
                if self.sessions[i].id != session_id {
                    return Err(LedgerError::Conflict);
                }
                i
            },
            None => {
                return Err(LedgerError::Conflict);
            },
        };
        if ty == TransactionType::Expense {
            let bal = self.balance_at(idx);
            if amount > bal {
                return Err(LedgerError::InsufficientFunds);
            }
        }
        let category_name = match category_id {
            Some(cid) => {
                let cn = self.categories.len();
                if !(cid >= 1 && cid <= cn as u64) {
                    return Err(LedgerError::NotFound);
                }
                let cat = &self.categories[(cid - 1) as usize];
                if !(cat.category_type == ty) {
                    return Err(LedgerError::CategoryMismatch);
                }
                Some(cat.name.clone())
            },
            None => None,
        };
        if amount > AMOUNT_CAP - self.amount_total {
            return Err(LedgerError::Storage);
        }
        proof {
            lemma_len_le_sum_amounts(self@.transactions);
            lemma_sum_openings_nonneg(self@.sessions);
        }
        let id = self.transactions.len() as u64 + 1;
        let number = 1001 + self.transactions.len() as u64;
        let txn = Transaction {
            id,
            session_id,
            transaction_number: number,
            transaction_type: ty,
            amount,
            concept: concept.to_owned(),
            category_id,
            category_name,
            created_at: now,
            created_by: created_by.to_owned(),
        };
        let copy = txn.duplicate();
        proof {
            lemma_views_push(self.transactions@, txn);
            lemma_sum_amounts_push(self@.transactions, txn@);
        }
        let ghost old_view = self@;
        let ghost widx = idx as int;
        self.transactions.push(txn);
        self.amount_total = self.amount_total + amount;
        proof {
            let nv = self@;
            assert(nv.transactions =~= old_view.transactions.push(copy@));
            assert(nv.sessions =~= old_view.sessions);
            assert(nv.categories =~= old_view.categories);
            assert(nv.backups =~= old_view.backups);
            let n = old_view.transactions.len();
            assert forall|i: int| 0 <= i < nv.transactions.len() implies {
                let t = #[trigger] nv.transactions[i];
                &&& t.id == i + 1
                &&& t.transaction_number == 1001 + i
                &&& t.amount >= 1
                &&& 1 <= t.session_id <= nv.sessions.len()
                &&& (t.category_id is Some ==> 1 <= t.category_id->0 <= nv.categories.len())
            } by {
                if i < n {
                    assert(nv.transactions[i] == old_view.transactions[i]);
                } else {
                    assert(nv.transactions[i] == copy@);
                    assert(old_view.sessions[widx].id == widx + 1);
                }
            }
            assert forall|i: int| 0 <= i < nv.sessions.len() implies expense_sum(
                nv.transactions,
                (#[trigger] nv.sessions[i]).id,
            ) <= nv.sessions[i].opening_amount + income_sum(nv.transactions, nv.sessions[i].id) by {
                let sid = nv.sessions[i].id;
                lemma_sum_where_push(
                    old_view.transactions,
                    session_type_pred(sid, TransactionType::Expense),
                    copy@,
                );
                lemma_sum_where_push(
                    old_view.transactions,
                    session_type_pred(sid, TransactionType::Income),
                    copy@,
                );
                if copy@.session_id == sid {
                    assert(old_view.sessions[i].id == i + 1);
                    assert(old_view.sessions[widx].id == widx + 1);
                    assert(i == widx);
                }
            }
        }
        Ok(copy)
    }

    /// The transaction with the given id, which fails `NotFound`
    /// exactly when no such row exists.
    pub fn get_transaction_by_id(&self, id: u64) -> (r: Result<Transaction, LedgerError>)
        requires
            self.wf(),
        ensures
            1 <= id <= self@.transactions.len() ==> r is Ok && r->Ok_0@ == self@.transactions[id
                - 1],
            !(1 <= id <= self@.transactions.len()) ==> r == Err::<Transaction, LedgerError>(
                LedgerError::NotFound,
            ),
    {
        let n = self.transactions.len();
        if id >= 1 && id <= n as u64 {
            Ok(self.transactions[(id - 1) as usize].duplicate())
        } else {
            Err(LedgerError::NotFound)
        }
    }
}

/// The read filter of `get_transactions`: every given bound must hold.
pub open spec fn filter_pred(
    session_id: Option<u64>,
    ty: Option<TransactionType>,
    start_date: Option<Date>,
    end_date: Option<Date>,
) -> spec_fn(TransactionV) -> bool {
    |t: TransactionV|
        {
            &&& (session_id is Some ==> t.session_id == session_id->0)
            &&& (ty is Some ==> t.transaction_type == ty->0)
            &&& (start_date is Some ==> date_le(start_date->0, t.created_at.date))
            &&& (end_date is Some ==> date_le(t.created_at.date, end_date->0))
        }
}

/// The search filter: the query occurs in the concept or in the
/// rendered "TR-NNNN" number.
pub open spec fn search_pred(query: Seq<char>) -> spec_fn(TransactionV) -> bool {
    |t: TransactionV|
        contains_seq(t.concept, query) || contains_seq(
            spec_transaction_number_text(t.transaction_number as nat),
            query,
        )
}

/// One result page: the rows `offset` .. `offset + limit` of the
/// ordered match list, clipped to its length.
pub open spec fn page_of(s: Seq<TransactionV>, offset: int, limit: int) -> Seq<TransactionV>
    recommends
        0 <= offset,
        0 <= limit,
{
    let lo = if offset < s.len() {
        offset
    } else {
        s.len() as int
    };
    let hi = if offset + limit < s.len() {
        offset + limit
    } else {
        s.len() as int
    };
    s.subrange(lo, hi)
}

impl Database {
    /// All transactions matching the filter, newest first.
    fn matching_desc(
        &self,
        session_id: Option<u64>,
        ty: Option<TransactionType>,
        start_date: Option<Date>,
        end_date: Option<Date>,
    ) -> (r: Vec<Transaction>)
        requires
            self.wf(),
        ensures
            views(r@) == self@.transactions.reverse().filter(
                filter_pred(session_id, ty, start_date, end_date),
            ),
    {
        let ghost f = filter_pred(session_id, ty, start_date, end_date);
        let ghost rev = self@.transactions.reverse();
        let n = self.transactions.len();
        let mut r: Vec<Transaction> = Vec::new();
        let mut i: usize = 0;
        proof {
            assert(views(r@) =~= rev.take(0).filter(f));
        }
        while i < n
            invariant
                self.wf(),
                n == self.transactions@.len(),
                rev == self@.transactions.reverse(),
                f == filter_pred(session_id, ty, start_date, end_date),
                0 <= i <= n,
                views(r@) == rev.take(i as int).filter(f),
            decreases n - i,
        {
            let t = &self.transactions[n - 1 - i];
            proof {
                assert(rev[i as int] == t@);
                assert(rev.take(i as int + 1) =~= rev.take(i as int).push(rev[i as int]));
                crate::sums::lemma_filter_push(rev.take(i as int), f, rev[i as int]);
            }
            let m = (match session_id {
                Some(sid) => t.session_id == sid,
                None => true,
            }) && (match ty {
                Some(tt) => t.transaction_type == tt,
                None => true,
            }) && (match start_date {
                Some(d) => d.le(&t.created_at.date),
                None => true,
            }) && (match end_date {
                Some(d) => t.created_at.date.le(&d),
                None => true,
            });
            if m {
                let item = t.duplicate();
                proof {
                    lemma_views_push(r@, item);
                }
                r.push(item);
                proof {
                    assert(views(r@) =~= rev.take(i as int + 1).filter(f));
                }
            }
            i = i + 1;
        }
        proof {
            assert(rev.take(n as int) =~= rev);
        }
        r
    }

    /// All transactions matching the search query, newest first.
    fn search_desc(&self, query: &str) -> (r: Vec<Transaction>)
        requires
            self.wf(),
        ensures
            views(r@) == self@.transactions.reverse().filter(search_pred(query@)),
    {
        let ghost f = search_pred(query@);
        let ghost rev = self@.transactions.reverse();
        let n = self.transactions.len();
        let mut r: Vec<Transaction> = Vec::new();
        let mut i: usize = 0;
        proof {
            assert(views(r@) =~= rev.take(0).filter(f));
        }
        while i < n
            invariant
                self.wf(),
                n == self.transactions@.len(),
                rev == self@.transactions.reverse(),
                f == search_pred(query@),
                0 <= i <= n,
                views(r@) == rev.take(i as int).filter(f),
            decreases n - i,
        {
            let t = &self.transactions[n - 1 - i];
            proof {
                assert(rev[i as int] == t@);
                assert(rev.take(i as int + 1) =~= rev.take(i as int).push(rev[i as int]));
                crate::sums::lemma_filter_push(rev.take(i as int), f, rev[i as int]);
            }
            let number_text = format_transaction_number(t.transaction_number);
            let m = str_contains(t.concept.as_str(), query) || str_contains(
                number_text.as_str(),
                query,
            );
            if m {
                let item = t.duplicate();
                proof {
                    lemma_views_push(r@, item);
                }
                r.push(item);
                proof {
                    assert(views(r@) =~= rev.take(i as int + 1).filter(f));
                }
            }
            i = i + 1;
        }
        proof {
            assert(rev.take(n as int) =~= rev);
        }
        r
    }

    /// Copies one page out of an ordered match list.
    fn page(src: &Vec<Transaction>, offset: usize, limit: usize) -> (r: Vec<Transaction>)
        ensures
            views(r@) == page_of(views(src@), offset as int, limit as int),
            r@.len() <= limit,
    {
        let n = src.len();
        let lo = if offset < n {
            offset
        } else {
            n
        };
        let room = n - lo;
        let take_count = if limit < room {
            limit
        } else {
            room
        };
        let hi = lo + take_count;
        let mut r: Vec<Transaction> = Vec::new();
        let mut j = lo;
        proof {
            assert(views(r@) =~= views(src@).subrange(lo as int, lo as int));
        }
        while j < hi
            invariant
                n == src@.len(),
                lo <= j <= hi <= n,
                views(r@) == views(src@).subrange(lo as int, j as int),
                r@.len() == j - lo,
            decreases hi - j,
        {
            let item = src[j].duplicate();
            proof {
                lemma_views_push(r@, item);
            }
            r.push(item);
            proof {
                assert(views(r@) =~= views(src@).subrange(lo as int, j as int + 1));
            }
            j = j + 1;
        }
        proof {
            assert(views(src@).subrange(lo as int, hi as int) =~= page_of(
                views(src@),
                offset as int,
                limit as int,
            ));
        }
        r
    }

    /// One page of the transactions matching the filter, newest first.
    ///
    /// Returns at most `limit` rows: the slice `offset..offset+limit`
    /// of the full match list.
    pub fn get_transactions(
        &self,
        session_id: Option<u64>,
        transaction_type: Option<TransactionType>,
        start_date: Option<Date>,
        end_date: Option<Date>,
        limit: usize,
        offset: usize,
    ) -> (r: Vec<Transaction>)
        requires
            self.wf(),
        ensures
            views(r@) == page_of(
                self@.transactions.reverse().filter(
                    filter_pred(session_id, transaction_type, start_date, end_date),
                ),
                offset as int,
                limit as int,
            ),
            r@.len() <= limit,
    {
        let matches = self.matching_desc(session_id, transaction_type, start_date, end_date);
        Self::page(&matches, offset, limit)
    }

    /// How many transactions match the filter, with no page bounds.
    pub fn count_transactions(
        &self,
        session_id: Option<u64>,
        transaction_type: Option<TransactionType>,
        start_date: Option<Date>,
        end_date: Option<Date>,
    ) -> (c: usize)
        requires
            self.wf(),
        ensures
            c as int == count_where(
                self@.transactions,
                filter_pred(session_id, transaction_type, start_date, end_date),
            ),
    {
        let ghost f = filter_pred(session_id, transaction_type, start_date, end_date);
        let ghost ts = self@.transactions;
        let n = self.transactions.len();
        let mut c: usize = 0;
        let mut i: usize = 0;
        while i < n
            invariant
                self.wf(),
                n == self.transactions@.len(),
                ts == self@.transactions,
                f == filter_pred(session_id, transaction_type, start_date, end_date),
                0 <= i <= n,
                c as int == count_where(ts.take(i as int), f),
                c <= i,
            decreases n - i,
        {
            let t = &self.transactions[i];
            proof {
                assert(ts[i as int] == t@);
                lemma_count_where_take_step(ts, f, i as int);
            }
            let m = (match session_id {
                Some(sid) => t.session_id == sid,
                None => true,
            }) && (match transaction_type {
                Some(tt) => t.transaction_type == tt,
                None => true,
            }) && (match start_date {
                Some(d) => d.le(&t.created_at.date),
                None => true,
            }) && (match end_date {
                Some(d) => t.created_at.date.le(&d),
                None => true,
            });
            if m {
                c = c + 1;
            }
            i = i + 1;
        }
        proof {
            assert(ts.take(n as int) =~= ts);
        }
        c
    }

    /// One page of the transactions whose concept or number contains
    /// the query, newest first, with the full match count.
    pub fn search_transactions(&self, query: &str, limit: usize, offset: usize) -> (r: (
        Vec<Transaction>,
        usize,
    ))
        requires
            self.wf(),
        ensures
            views(r.0@) == page_of(
                self@.transactions.reverse().filter(search_pred(query@)),
                offset as int,
                limit as int,
            ),
            r.0@.len() <= limit,
            r.1 as int == count_where(self@.transactions, search_pred(query@)),
    {
        let matches = self.search_desc(query);
        let pg = Self::page(&matches, offset, limit);
        let ghost f = search_pred(query@);
        let ghost ts = self@.transactions;
        let n = self.transactions.len();
        let mut c: usize = 0;
        let mut i: usize = 0;
        while i < n
            invariant
                self.wf(),
                n == self.transactions@.len(),
                ts == self@.transactions,
                f == search_pred(query@),
                0 <= i <= n,
                c as int == count_where(ts.take(i as int), f),
                c <= i,
            decreases n - i,
        {
            let t = &self.transactions[i];
            proof {
                assert(ts[i as int] == t@);
                lemma_count_where_take_step(ts, f, i as int);
            }
            let number_text = format_transaction_number(t.transaction_number);
            let m = str_contains(t.concept.as_str(), query) || str_contains(
                number_text.as_str(),
                query,
            );
            if m {
                c = c + 1;
            }
            i = i + 1;
        }
        proof {
            assert(ts.take(n as int) =~= ts);
        }
        (pg, c)
    }

    /// Sum and count of one date's transactions of one type.
    pub(crate) fn date_type_totals(&self, date: Date, ty: TransactionType) -> (r: (u64, usize))
        requires
            self.wf(),
        ensures
            r.0 as int == sum_where(self@.transactions, date_type_pred(date, ty)),
            r.1 as int == count_where(self@.transactions, date_type_pred(date, ty)),
            self@.transactions.len() <= usize::MAX,
    {
        let ghost f = date_type_pred(date, ty);
        let ghost ts = self@.transactions;
        let n = self.transactions.len();
        let mut total: u64 = 0;
        let mut count: usize = 0;
        let mut i: usize = 0;
        while i < n
            invariant
                self.wf(),
                n == self.transactions@.len(),
                ts == self@.transactions,
                f == date_type_pred(date, ty),
                0 <= i <= n,
                total as int == sum_where(ts.take(i as int), f),
                count as int == count_where(ts.take(i as int), f),
                count <= i,
            decreases n - i,
        {
            let t = &self.transactions[i];
            proof {
                assert(ts[i as int] == t@);
                lemma_sum_where_take_step(ts, f, i as int);
                lemma_count_where_take_step(ts, f, i as int);
                lemma_sum_where_take_le(ts, f, i as int + 1);
                lemma_sum_where_le_amounts(ts, f);
                lemma_sum_openings_nonneg(self@.sessions);
            }
            if t.created_at.date == date && t.transaction_type == ty {
                total = total + t.amount;
                count = count + 1;
            }
            i = i + 1;
        }
        proof {
            assert(ts.take(n as int) =~= ts);
        }
        (total, count)
    }

    /// Aggregates of one calendar date's transactions, beside the
    /// active session's present balance (0 with none active) — which
    /// reflects the moment of the call, whatever the requested date.
    pub fn get_daily_summary(&self, date: Date) -> (r: DailySummary)
        requires
            self.wf(),
        ensures
            r.date == date,
            r.total_income as int == sum_where(
                self@.transactions,
                date_type_pred(date, TransactionType::Income),
            ),
            r.total_expense as int == sum_where(
                self@.transactions,
                date_type_pred(date, TransactionType::Expense),
            ),
            r.balance as int == r.total_income - r.total_expense,
            r.income_count as int == count_where(
                self@.transactions,
                date_type_pred(date, TransactionType::Income),
            ),
            r.expense_count as int == count_where(
                self@.transactions,
                date_type_pred(date, TransactionType::Expense),
            ),
            r.current_balance as int == self@.active_balance(),
    {
        let (total_income, income_count) = self.date_type_totals(date, TransactionType::Income);
        let (total_expense, expense_count) = self.date_type_totals(date, TransactionType::Expense);
        proof {
            lemma_sum_where_le_amounts(
                self@.transactions,
                date_type_pred(date, TransactionType::Income),
            );
            lemma_sum_where_le_amounts(
                self@.transactions,
                date_type_pred(date, TransactionType::Expense),
            );
            lemma_sum_where_nonneg(
                self@.transactions,
                date_type_pred(date, TransactionType::Income),
            );
            lemma_sum_where_nonneg(
                self@.transactions,
                date_type_pred(date, TransactionType::Expense),
            );
            lemma_sum_amounts_nonneg(self@.transactions);
            lemma_sum_openings_nonneg(self@.sessions);
        }
        let balance = total_income as i64 - total_expense as i64;
        let current_balance = match self.active_slot() {
            Some(i) => {
                proof {
                    let k = self@.active_index();
                    assert(self@.sessions[i as int].is_active);
                    assert(self@.has_active());
                    assert(0 <= k < self@.sessions.len() && self@.sessions[k].is_active);
                    assert(k == i as int);
                }
                self.balance_at(i)
            },
            None => 0,
        };
        DailySummary {
            date,
            total_income,
            total_expense,
            balance,
            income_count,
            expense_count,
            current_balance,
        }
    }
}

/// The rows a report covers: the date range, and when given, the type
/// and the category.
pub open spec fn range_pred(
    start: Date,
    end: Date,
    ty: Option<TransactionType>,
    category_id: Option<u64>,
) -> spec_fn(TransactionV) -> bool {
    |t: TransactionV|
        {
            &&& date_le(start, t.created_at.date)
            &&& date_le(t.created_at.date, end)
            &&& (ty is Some ==> t.transaction_type == ty->0)
            &&& (category_id is Some ==> t.category_id == category_id)
        }
}

impl Database {
    /// All transactions of a date range matching the optional type and
    /// category bounds, newest first.
    pub fn transactions_in_range(
        &self,
        start_date: Date,
        end_date: Date,
        ty: Option<TransactionType>,
        category_id: Option<u64>,
    ) -> (r: Vec<Transaction>)
        requires
            self.wf(),
        ensures
            views(r@) == self@.transactions.reverse().filter(
                range_pred(start_date, end_date, ty, category_id),
            ),
    {
        let ghost f = range_pred(start_date, end_date, ty, category_id);
        let ghost rev = self@.transactions.reverse();
        let n = self.transactions.len();
        let mut r: Vec<Transaction> = Vec::new();
        let mut i: usize = 0;
        proof {
            assert(views(r@) =~= rev.take(0).filter(f));
        }
        while i < n
            invariant
                self.wf(),
                n == self.transactions@.len(),
                rev == self@.transactions.reverse(),
                f == range_pred(start_date, end_date, ty, category_id),
                0 <= i <= n,
                views(r@) == rev.take(i as int).filter(f),
            decreases n - i,
        {
            let t = &self.transactions[n - 1 - i];
            proof {
                assert(rev[i as int] == t@);
                assert(rev.take(i as int + 1) =~= rev.take(i as int).push(rev[i as int]));
                crate::sums::lemma_filter_push(rev.take(i as int), f, rev[i as int]);
            }
            let m = start_date.le(&t.created_at.date) && t.created_at.date.le(&end_date)
                && (match ty {
                Some(tt) => t.transaction_type == tt,
                None => true,
            }) && (match category_id {
                Some(cid) => t.category_id == Some(cid),
                None => true,
            });
            if m {
                let item = t.duplicate();
                proof {
                    lemma_views_push(r@, item);
                }
                r.push(item);
                proof {
                    assert(views(r@) =~= rev.take(i as int + 1).filter(f));
                }
            }
            i = i + 1;
        }
        proof {
            assert(rev.take(n as int) =~= rev);
        }
        r
    }
}

/// The listing filter of `get_categories`: active rows, optionally of
/// one type.
pub open spec fn category_pred(ty: Option<TransactionType>) -> spec_fn(CategoryV) -> bool {
    |c: CategoryV| c.is_active && (ty is Some ==> c.category_type == ty->0)
}

impl Database {
    /// The active categories, optionally restricted to one type, in
    /// creation order.
    pub fn get_categories(&self, category_type: Option<TransactionType>) -> (r: Vec<Category>)
        requires
            self.wf(),
        ensures
            views(r@) == self@.categories.filter(category_pred(category_type)),
    {
        let ghost f = category_pred(category_type);
        let ghost cs = self@.categories;
        let n = self.categories.len();
        let mut r: Vec<Category> = Vec::new();
        let mut i: usize = 0;
        proof {
            assert(views(r@) =~= cs.take(0).filter(f));
        }
        while i < n
            invariant
                self.wf(),
                n == self.categories@.len(),
                cs == self@.categories,
                f == category_pred(category_type),
                0 <= i <= n,
                views(r@) == cs.take(i as int).filter(f),
            decreases n - i,
        {
            let c = &self.categories[i];
            proof {
                assert(cs[i as int] == c@);
                assert(cs.take(i as int + 1) =~= cs.take(i as int).push(cs[i as int]));
                crate::sums::lemma_filter_push(cs.take(i as int), f, cs[i as int]);
            }
            let m = c.is_active && (match category_type {
                Some(tt) => c.category_type == tt,
                None => true,
            });
            if m {
                let item = c.duplicate();
                proof {
                    lemma_views_push(r@, item);
                }
                r.push(item);
                proof {
                    assert(views(r@) =~= cs.take(i as int + 1).filter(f));
                }
            }
            i = i + 1;
        }
        proof {
            assert(cs.take(n as int) =~= cs);
        }
        r
    }

    /// The category with the given id — active or not, as a historical
    /// reference stays resolvable — failing `NotFound` exactly when no
    /// such row exists.
    pub fn get_category_by_id(&self, id: u64) -> (r: Result<Category, LedgerError>)
        requires
            self.wf(),
        ensures
            1 <= id <= self@.categories.len() ==> r is Ok && r->Ok_0@ == self@.categories[id - 1],
            !(1 <= id <= self@.categories.len()) ==> r == Err::<Category, LedgerError>(
                LedgerError::NotFound,
            ),
    {
        let n = self.categories.len();
        if id >= 1 && id <= n as u64 {
            Ok(self.categories[(id - 1) as usize].duplicate())
        } else {
            Err(LedgerError::NotFound)
        }
    }

    /// Adds an active category; fails `Storage` only when the table
    /// cannot grow.
    pub fn create_category(&mut self, name: &str, category_type: TransactionType) -> (r: Result<
        Category,
        LedgerError,
    >)
        requires
            old(self).wf(),
        ensures
            final(self).wf(),
            final(self)@.sessions == old(self)@.sessions,
            final(self)@.transactions == old(self)@.transactions,
            final(self)@.backups == old(self)@.backups,
            old(self)@.categories.len() + 1 > usize::MAX ==> r == Err::<Category, LedgerError>(
                LedgerError::Storage,
            ) && final(self)@ == old(self)@,
            old(self)@.categories.len() + 1 <= usize::MAX ==> {
                &&& r is Ok
                &&& r->Ok_0@ == (CategoryV {
                    id: (old(self)@.categories.len() + 1) as u64,
                    name: name@,
                    category_type,
                    is_active: true,
                })
                &&& final(self)@.categories == old(self)@.categories.push(r->Ok_0@)
            },
    {
        if self.categories.len() == usize::MAX {
            return Err(LedgerError::Storage);
        }
        let id = self.categories.len() as u64 + 1;
        let category = Category { id, name: name.to_owned(), category_type, is_active: true };
        let copy = category.duplicate();
        proof {
            lemma_views_push(self.categories@, category);
        }
        let ghost old_view = self@;
        self.categories.push(category);
        proof {
            let nv = self@;
            assert(nv.categories =~= old_view.categories.push(copy@));
            assert(nv.sessions =~= old_view.sessions);
            assert(nv.transactions =~= old_view.transactions);
            assert(nv.backups =~= old_view.backups);
            assert forall|i: int| 0 <= i < nv.categories.len() implies (#[trigger] nv.categories[i]).id == i + 1 by {
                if i < old_view.categories.len() {
                    assert(nv.categories[i] == old_view.categories[i]);
                }
            }
        }
        Ok(copy)
    }

    /// Renames a category in place; its type and active flag are
    /// immutable here. Fails `NotFound` exactly when the id resolves to
    /// no row.
    pub fn update_category(&mut self, id: u64, name: &str) -> (r: Result<Category, LedgerError>)
        requires
            old(self).wf(),
        ensures
            final(self).wf(),
            final(self)@.sessions == old(self)@.sessions,
            final(self)@.transactions == old(self)@.transactions,
            final(self)@.backups == old(self)@.backups,
            !(1 <= id <= old(self)@.categories.len()) ==> r == Err::<Category, LedgerError>(
                LedgerError::NotFound,
            ) && final(self)@ == old(self)@,
            1 <= id <= old(self)@.categories.len() ==> {
                &&& r is Ok
                &&& r->Ok_0@ == (CategoryV { name: name@, ..old(self)@.categories[id - 1] })
                &&& final(self)@.categories == old(self)@.categories.update(id - 1, r->Ok_0@)
            },
    {
        let n = self.categories.len();
        if !(id >= 1 && id <= n as u64) {
            return Err(LedgerError::NotFound);
        }
        let idx = (id - 1) as usize;
        let old_row = &self.categories[idx];
        let updated = Category {
            id: old_row.id,
            name: name.to_owned(),
            category_type: old_row.category_type,
            is_active: old_row.is_active,
        };
        let copy = updated.duplicate();
        proof {
            lemma_views_update(self.categories@, idx as int, updated);
        }
        let ghost old_view = self@;
        self.categories[idx] = updated;
        proof {
            let nv = self@;
            assert(nv.categories =~= old_view.categories.update(idx as int, copy@));
            assert(nv.sessions =~= old_view.sessions);
            assert(nv.transactions =~= old_view.transactions);
            assert(nv.backups =~= old_view.backups);
        }
        Ok(copy)
    }

    /// Deactivates a category (a soft delete); an unknown id changes
    /// nothing. Never fails.
    pub fn delete_category(&mut self, id: u64) -> (r: Result<(), LedgerError>)
        requires
            old(self).wf(),
        ensures
            final(self).wf(),
            r is Ok,
            final(self)@.sessions == old(self)@.sessions,
            final(self)@.transactions == old(self)@.transactions,
            final(self)@.backups == old(self)@.backups,
            !(1 <= id <= old(self)@.categories.len()) ==> final(self)@ == old(self)@,
            1 <= id <= old(self)@.categories.len() ==> final(self)@.categories == old(
                self,
            )@.categories.update(
                id - 1,
                CategoryV { is_active: false, ..old(self)@.categories[id - 1] },
            ),
    {
        let n = self.categories.len();
        if !(id >= 1 && id <= n as u64) {
            return Ok(());
        }
        let idx = (id - 1) as usize;
        let old_row = &self.categories[idx];
        let updated = Category {
            id: old_row.id,
            name: old_row.name.clone(),
            category_type: old_row.category_type,
            is_active: false,
        };
        proof {
            lemma_views_update(self.categories@, idx as int, updated);
        }
        let ghost old_view = self@;
        self.categories[idx] = updated;
        proof {
            let nv = self@;
            assert(nv.categories =~= old_view.categories.update(
                idx as int,
                CategoryV { is_active: false, ..old_view.categories[idx as int] },
            ));
            assert(nv.sessions =~= old_view.sessions);
            assert(nv.transactions =~= old_view.transactions);
            assert(nv.backups =~= old_view.backups);
        }
        Ok(())
    }

    /// Appends one backup record, stamped `now`; fails `Storage` only
    /// when the table cannot grow.
    pub fn record_backup(
        &mut self,
        filename: &str,
        filepath: &str,
        size_bytes: u64,
        description: Option<&str>,
        now: Timestamp,
    ) -> (r: Result<(), LedgerError>)
        requires
            old(self).wf(),
        ensures
            final(self).wf(),
            final(self)@.sessions == old(self)@.sessions,
            final(self)@.transactions == old(self)@.transactions,
            final(self)@.categories == old(self)@.categories,
            old(self)@.backups.len() + 1 > usize::MAX ==> r == Err::<(), LedgerError>(
                LedgerError::Storage,
            ) && final(self)@ == old(self)@,
            old(self)@.backups.len() + 1 <= usize::MAX ==> r is Ok && final(self)@.backups == old(
                self,
            )@.backups.push(
                BackupInfoV {
                    id: (old(self)@.backups.len() + 1) as u64,
                    filename: filename@,
                    filepath: filepath@,
                    created_at: now,
                    size_bytes,
                    description: match description {
                        Some(d) => Some(d@),
                        None => None,
                    },
                },
            ),
    {
        if self.backups.len() == usize::MAX {
            return Err(LedgerError::Storage);
        }
        let id = self.backups.len() as u64 + 1;
        let record = BackupInfo {
            id,
            filename: filename.to_owned(),
            filepath: filepath.to_owned(),
            created_at: now,
            size_bytes,
            description: match description {
                Some(d) => Some(d.to_owned()),
                None => None,
            },
        };
        proof {
            lemma_views_push(self.backups@, record);
        }
        let ghost old_view = self@;
        self.backups.push(record);
        proof {
            let nv = self@;
            assert(nv.sessions =~= old_view.sessions);
            assert(nv.transactions =~= old_view.transactions);
            assert(nv.categories =~= old_view.categories);
            assert forall|i: int| 0 <= i < nv.backups.len() implies (#[trigger] nv.backups[i]).id
                == i + 1 by {
                if i < old_view.backups.len() {
                    assert(nv.backups[i] == old_view.backups[i]);
                }
            }
        }
        Ok(())
    }

    /// The most recent backup records, newest first, at most `limit`.
    pub fn get_backup_history(&self, limit: usize) -> (r: Vec<BackupInfo>)
        requires
            self.wf(),
        ensures
            views(r@) == self@.backups.reverse().take(
                if limit as int <= self@.backups.len() {
                    limit as int
                } else {
                    self@.backups.len() as int
                },
            ),
    {
        let ghost rev = self@.backups.reverse();
        let n = self.backups.len();
        let count = if limit < n {
            limit
        } else {
            n
        };
        let mut r: Vec<BackupInfo> = Vec::new();
        let mut i: usize = 0;
        proof {
            assert(views(r@) =~= rev.take(0));
        }
        while i < count
            invariant
                self.wf(),
                n == self.backups@.len(),
                rev == self@.backups.reverse(),
                count <= n,
                0 <= i <= count,
                views(r@) == rev.take(i as int),
            decreases count - i,
        {
            let b = &self.backups[n - 1 - i];
            proof {
                assert(rev[i as int] == b@);
            }
            let item = b.duplicate();
            proof {
                lemma_views_push(r@, item);
            }
            r.push(item);
            proof {
                assert(views(r@) =~= rev.take(i as int + 1));
            }
            i = i + 1;
        }
        r
    }
}

/// A filtered sum over a sequence none of whose elements match is zero.
proof fn lemma_sum_where_zero_when_none(
    ts: Seq<TransactionV>,
    f: spec_fn(TransactionV) -> bool,
)
    requires
        forall|k: int| 0 <= k < ts.len() ==> !f(#[trigger] ts[k]),
    ensures
        sum_where(ts, f) == 0,
    decreases ts.len(),
{
    if ts.len() > 0 {
        lemma_sum_where_zero_when_none(ts.drop_last(), f);
    }
}

} // verus!
