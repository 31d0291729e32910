//! Session lifecycle operations as the presentation layer calls them:
//! thin verified fronts over the store that stamp the wall-clock time.

use vstd::prelude::*;

use crate::clock::current_timestamp;
use crate::db::AMOUNT_CAP;
use crate::db::Database;
use crate::models::CloseSessionRequest;
use crate::models::CreateSessionRequest;
use crate::models::DailySummary;
use crate::models::LedgerError;
use crate::models::Session;
use crate::models::SessionSummary;
use crate::models::SessionV;
use crate::models::TransactionType;
use crate::sums::count_where;
use crate::sums::lemma_opening_le_sum;
use crate::sums::lemma_sum_amounts_nonneg;
use crate::sums::lemma_sum_openings_nonneg;
use crate::sums::lemma_sum_where_le_amounts;
use crate::sums::lemma_sum_where_nonneg;
use crate::sums::session_type_pred;
use crate::sums::sum_where;
use crate::text::is_blank;

verus! {

/// The session lifecycle operations.
pub struct SessionService;

impl SessionService {
    /// Opens a session dated at the call.
    ///
    /// Fails `Conflict` whenever a session is active, whatever the
    /// request holds; then `Validation` on a blank operator name; then
    /// `Storage` when the store cannot hold the opening amount.
    pub fn create_session(db: &mut Database, request: CreateSessionRequest) -> (r: Result<
        Session,
        LedgerError,
    >)
        requires
            old(db).wf(),
        ensures
            final(db).wf(),
            final(db)@.transactions == old(db)@.transactions,
            final(db)@.categories == old(db)@.categories,
            final(db)@.backups == old(db)@.backups,
            old(db)@.has_active() ==> r == Err::<Session, LedgerError>(LedgerError::Conflict)
                && final(db)@ == old(db)@,
            !old(db)@.has_active() && is_blank(request.operator_name@) ==> r == Err::<
                Session,
                LedgerError,
            >(LedgerError::Validation) && final(db)@ == old(db)@,
            !old(db)@.has_active() && !is_blank(request.operator_name@) && (old(db)@.stored_total() + request.opening_amount > AMOUNT_CAP || old(db)@.sessions.len() + 1
                > usize::MAX) ==> r == Err::<Session, LedgerError>(LedgerError::Storage) && final(db)@ == old(db)@,
            !old(db)@.has_active() && !is_blank(request.operator_name@) && old(db)@.stored_total()
                + request.opening_amount <= AMOUNT_CAP && old(db)@.sessions.len() + 1
                <= usize::MAX ==> {
                &&& r is Ok
                &&& r->Ok_0@ == (SessionV {
                    id: (old(db)@.sessions.len() + 1) as u64,
                    operator_name: request.operator_name@,
                    opening_amount: request.opening_amount,
                    closing_amount: None,
                    opened_at: r->Ok_0@.opened_at,
                    closed_at: None,
                    is_active: true,
                })
                &&& final(db)@.sessions == old(db)@.sessions.push(r->Ok_0@)
            },
    {
        let now = current_timestamp();
        db.create_session(request.operator_name.as_str(), request.opening_amount, now)
    }

    /// The single active session, or none.
    pub fn get_active_session(db: &Database) -> (r: Option<Session>)
        requires
            db.wf(),
        ensures
            r is Some <==> db@.has_active(),
            r is Some ==> r->0@ == db@.active_session(),
    {
        db.get_active_session()
    }

    /// Closes the addressed session, recording the counted closing
    /// amount; fails `NotFound` on an unknown id and `State` on an
    /// already closed session, changing nothing either way.
    pub fn close_session(db: &mut Database, request: CloseSessionRequest) -> (r: Result<
        Session,
        LedgerError,
    >)
        requires
            old(db).wf(),
        ensures
            final(db).wf(),
            final(db)@.transactions == old(db)@.transactions,
            final(db)@.categories == old(db)@.categories,
            final(db)@.backups == old(db)@.backups,
            !(1 <= request.session_id <= old(db)@.sessions.len()) ==> r == Err::<
                Session,
                LedgerError,
            >(LedgerError::NotFound) && final(db)@ == old(db)@,
            1 <= request.session_id <= old(db)@.sessions.len() && !old(db)@.sessions[
                request.session_id - 1
            ].is_active ==> r == Err::<Session, LedgerError>(LedgerError::State) && final(db)@
                == old(db)@,
            1 <= request.session_id <= old(db)@.sessions.len() && old(db)@.sessions[
                request.session_id - 1
            ].is_active ==> {
                &&& r is Ok
                &&& r->Ok_0@ == (SessionV {
                    closing_amount: Some(request.closing_amount),
                    closed_at: r->Ok_0@.closed_at,
                    is_active: false,
                    ..old(db)@.sessions[request.session_id - 1]
                })
                &&& r->Ok_0@.closed_at is Some
                &&& final(db)@.sessions == old(db)@.sessions.update(
                    request.session_id - 1,
                    r->Ok_0@,
                )
            },
    {
        let now = current_timestamp();
        db.close_session(request.session_id, request.closing_amount, now)
    }

    /// Aggregates one session's transactions with its reconciliation
    /// fields; fails `NotFound` exactly when the id resolves to no row.
    pub fn get_session_summary(db: &Database, session_id: u64) -> (r: Result<
        SessionSummary,
        LedgerError,
    >)
        requires
            db.wf(),
        ensures
            !(1 <= session_id <= db@.sessions.len()) ==> r == Err::<SessionSummary, LedgerError>(
                LedgerError::NotFound,
            ),
            1 <= session_id <= db@.sessions.len() ==> {
                let s = db@.sessions[session_id - 1];
                let smry = r->Ok_0;
                &&& r is Ok
                &&& smry.session@ == s
                &&& smry.total_income as int == sum_where(
                    db@.transactions,
                    session_type_pred(session_id, TransactionType::Income),
                )
                &&& smry.total_expense as int == sum_where(
                    db@.transactions,
                    session_type_pred(session_id, TransactionType::Expense),
                )
                &&& smry.income_count as int == count_where(
                    db@.transactions,
                    session_type_pred(session_id, TransactionType::Income),
                )
                &&& smry.expense_count as int == count_where(
                    db@.transactions,
                    session_type_pred(session_id, TransactionType::Expense),
                )
                &&& smry.current_balance as int == s.opening_amount + smry.total_income
                    - smry.total_expense
                &&& smry.expected_closing == (if s.closing_amount is Some {
                    s.closing_amount->0
                } else {
                    smry.current_balance
                })
                &&& smry.difference as int == (if s.closing_amount is Some {
                    s.closing_amount->0 - smry.current_balance
                } else {
                    0
                })
            },
    {
        let session = match db.get_session_by_id(session_id) {
            Ok(s) => s,
            Err(e) => {
                return Err(e);
            },
        };
        let (total_income, income_count) = db.session_type_totals(
            session.id,
            TransactionType::Income,
        );
        let (total_expense, expense_count) = db.session_type_totals(
            session.id,
            TransactionType::Expense,
        );
        proof {
            db.lemma_wf_implies_inv();
            assert(session@ == db@.sessions[session_id - 1]);
            assert(session.id == session_id);
            lemma_opening_le_sum(db@.sessions, session_id - 1);
            lemma_sum_where_le_amounts(
                db@.transactions,
                session_type_pred(session_id, TransactionType::Income),
            );
            lemma_sum_where_nonneg(
                db@.transactions,
                session_type_pred(session_id, TransactionType::Expense),
            );
            lemma_sum_amounts_nonneg(db@.transactions);
            lemma_sum_openings_nonneg(db@.sessions);
        }
        let current_balance = session.opening_amount + total_income - total_expense;
        let closing_amount = session.closing_amount;
        let (expected_closing, difference): (u64, i128) = match closing_amount {
            Some(c) => (c, c as i128 - current_balance as i128),
            None => (current_balance, 0),
        };
        Ok(
            SessionSummary {
                session,
                total_income,
                total_expense,
                income_count,
                expense_count,
                current_balance,
                expected_closing,
                difference,
            },
        )
    }

    /// Today's aggregates; the reported date is the machine's.
    pub fn get_today_summary(db: &Database) -> (r: DailySummary)
        requires
            db.wf(),
        ensures
            r.total_income as int == sum_where(
                db@.transactions,
                crate::sums::date_type_pred(r.date, TransactionType::Income),
            ),
            r.total_expense as int == sum_where(
                db@.transactions,
                crate::sums::date_type_pred(r.date, TransactionType::Expense),
            ),
            r.balance as int == r.total_income - r.total_expense,
            r.income_count as int == count_where(
                db@.transactions,
                crate::sums::date_type_pred(r.date, TransactionType::Income),
            ),
            r.expense_count as int == count_where(
                db@.transactions,
                crate::sums::date_type_pred(r.date, TransactionType::Expense),
            ),
            r.current_balance as int == db@.active_balance(),
    {
        let now = current_timestamp();
        db.get_daily_summary(now.date)
    }

    /// Whether a session is presently active.
    pub fn has_active_session(db: &Database) -> (r: bool)
        requires
            db.wf(),
        ensures
            r == db@.has_active(),
    {
        db.get_active_session().is_some()
    }
}

} // verus!
