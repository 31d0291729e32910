//! Ledger operations as the presentation layer calls them: thin
//! verified fronts over the store that stamp the wall-clock time and
//! validate textual type arguments.

use vstd::prelude::*;

use crate::clock::current_timestamp;
use crate::db::Database;
use crate::db::create_transaction_error;
use crate::db::created_transaction;
use crate::db::category_pred;
use crate::db::filter_pred;
use crate::db::page_of;
use crate::db::search_pred;
use crate::models::Category;
use crate::models::CreateTransactionRequest;
use crate::models::Date;
use crate::models::LedgerError;
use crate::models::Transaction;
use crate::models::TransactionType;
use crate::models::TransactionsSummary;
use crate::models::parse_type;
use crate::models::parse_transaction_type;
use crate::sums::count_where;
use crate::sums::date_type_pred;
use crate::sums::lemma_sum_amounts_nonneg;
use crate::sums::lemma_sum_openings_nonneg;
use crate::sums::lemma_sum_where_le_amounts;
use crate::sums::lemma_sum_where_nonneg;
use crate::sums::sum_where;
use crate::sums::views;

verus! {

/// The ledger operations.
pub struct TransactionService;

impl TransactionService {
    /// Records a transaction against the active session, dated at the
    /// call; the validation order and each reported error are those of
    /// `create_transaction_error`.
    pub fn create_transaction(db: &mut Database, request: CreateTransactionRequest) -> (r: Result<
        Transaction,
        LedgerError,
    >)
        requires
            old(db).wf(),
        ensures
            final(db).wf(),
            final(db)@.sessions == old(db)@.sessions,
            final(db)@.categories == old(db)@.categories,
            final(db)@.backups == old(db)@.backups,
            ({
                let e = create_transaction_error(
                    old(db)@,
                    request.session_id,
                    request.transaction_type@,
                    request.amount,
                    request.concept@,
                    request.category_id,
                );
                &&& (e is Some ==> r == Err::<Transaction, LedgerError>(e->0) && final(db)@ == old(
                    db,
                )@)
                &&& (e is None ==> r is Ok && r->Ok_0@ == created_transaction(
                    old(db)@,
                    request.session_id,
                    parse_type(request.transaction_type@)->0,
                    request.amount,
                    request.concept@,
                    request.category_id,
                    request.created_by@,
                    r->Ok_0@.created_at,
                ) && final(db)@.transactions == old(db)@.transactions.push(r->Ok_0@))
            }),
    {
        let now = current_timestamp();
        db.create_transaction(
            request.session_id,
            request.transaction_type.as_str(),
            request.amount,
            request.concept.as_str(),
            request.category_id,
            request.created_by.as_str(),
            now,
        )
    }

    /// The transaction with the given id, which fails `NotFound`
    /// exactly when no such row exists.
    pub fn get_transaction_by_id(db: &Database, transaction_id: u64) -> (r: Result<
        Transaction,
        LedgerError,
    >)
        requires
            db.wf(),
        ensures
            1 <= transaction_id <= db@.transactions.len() ==> r is Ok && r->Ok_0@
                == db@.transactions[transaction_id - 1],
            !(1 <= transaction_id <= db@.transactions.len()) ==> r == Err::<
                Transaction,
                LedgerError,
            >(LedgerError::NotFound),
    {
        db.get_transaction_by_id(transaction_id)
    }

    /// One page of the transactions matching the filter, newest first,
    /// beside the count of every matching row, page bounds ignored.
    pub fn get_transactions(
        db: &Database,
        session_id: Option<u64>,
        transaction_type: Option<TransactionType>,
        start_date: Option<Date>,
        end_date: Option<Date>,
        limit: usize,
        offset: usize,
    ) -> (r: (Vec<Transaction>, usize))
        requires
            db.wf(),
        ensures
            views(r.0@) == page_of(
                db@.transactions.reverse().filter(
                    filter_pred(session_id, transaction_type, start_date, end_date),
                ),
                offset as int,
                limit as int,
            ),
            r.0@.len() <= limit,
            r.1 as int == count_where(
                db@.transactions,
                filter_pred(session_id, transaction_type, start_date, end_date),
            ),
    {
        let rows = db.get_transactions(
            session_id,
            transaction_type,
            start_date,
            end_date,
            limit,
            offset,
        );
        let total_count = db.count_transactions(
            session_id,
            transaction_type,
            start_date,
            end_date,
        );
        (rows, total_count)
    }

    /// The latest transactions, optionally of one session, newest
    /// first, at most `limit`.
    pub fn get_recent_transactions(db: &Database, session_id: Option<u64>, limit: usize) -> (r:
        Vec<Transaction>)
        requires
            db.wf(),
        ensures
            views(r@) == page_of(
                db@.transactions.reverse().filter(filter_pred(session_id, None, None, None)),
                0,
                limit as int,
            ),
            r@.len() <= limit,
    {
        db.get_transactions(session_id, None, None, None, limit, 0)
    }

    /// The active categories.
    pub fn get_all_categories(db: &Database) -> (r: Vec<Category>)
        requires
            db.wf(),
        ensures
            views(r@) == db@.categories.filter(category_pred(None)),
    {
        db.get_categories(None)
    }

    /// The active categories of the named type; fails `Validation`
    /// exactly when the text is neither "income" nor "expense".
    pub fn get_categories_by_type(db: &Database, category_type: String) -> (r: Result<
        Vec<Category>,
        LedgerError,
    >)
        requires
            db.wf(),
        ensures
            parse_type(category_type@) is None ==> r == Err::<Vec<Category>, LedgerError>(
                LedgerError::Validation,
            ),
            parse_type(category_type@) is Some ==> r is Ok && views(r->Ok_0@) == db@.categories.filter(
                category_pred(parse_type(category_type@)),
            ),
    {
        match parse_transaction_type(category_type.as_str()) {
            Some(ty) => Ok(db.get_categories(Some(ty))),
            None => Err(LedgerError::Validation),
        }
    }

    /// Today's transaction aggregates; the reported date is the
    /// machine's.
    pub fn get_today_transactions_summary(db: &Database) -> (r: TransactionsSummary)
        requires
            db.wf(),
        ensures
            r.total_income as int == sum_where(
                db@.transactions,
                date_type_pred(r.date, TransactionType::Income),
            ),
            r.total_expense as int == sum_where(
                db@.transactions,
                date_type_pred(r.date, TransactionType::Expense),
            ),
            r.balance as int == r.total_income - r.total_expense,
            r.income_count as int == count_where(
                db@.transactions,
                date_type_pred(r.date, TransactionType::Income),
            ),
            r.expense_count as int == count_where(
                db@.transactions,
                date_type_pred(r.date, TransactionType::Expense),
            ),
            r.total_transactions == r.income_count + r.expense_count,
    {
        let now = current_timestamp();
        Self::get_transactions_summary_by_date(db, now.date)
    }

    /// Aggregates of the transactions created on one calendar date.
    pub fn get_transactions_summary_by_date(db: &Database, date: Date) -> (r: TransactionsSummary)
        requires
            db.wf(),
        ensures
            r.date == date,
            r.total_income as int == sum_where(
                db@.transactions,
                date_type_pred(date, TransactionType::Income),
            ),
            r.total_expense as int == sum_where(
                db@.transactions,
                date_type_pred(date, TransactionType::Expense),
            ),
            r.balance as int == r.total_income - r.total_expense,
            r.income_count as int == count_where(
                db@.transactions,
                date_type_pred(date, TransactionType::Income),
            ),
            r.expense_count as int == count_where(
                db@.transactions,
                date_type_pred(date, TransactionType::Expense),
            ),
            r.total_transactions == r.income_count + r.expense_count,
    {
        let (total_income, income_count) = db.date_type_totals(date, TransactionType::Income);
        let (total_expense, expense_count) = db.date_type_totals(date, TransactionType::Expense);
        proof {
            db.lemma_wf_implies_inv();
            lemma_sum_where_le_amounts(
                db@.transactions,
                date_type_pred(date, TransactionType::Income),
            );
            lemma_sum_where_le_amounts(
                db@.transactions,
                date_type_pred(date, TransactionType::Expense),
            );
            lemma_sum_where_nonneg(
                db@.transactions,
                date_type_pred(date, TransactionType::Income),
            );
            lemma_sum_where_nonneg(
                db@.transactions,
                date_type_pred(date, TransactionType::Expense),
            );
            lemma_sum_amounts_nonneg(db@.transactions);
            lemma_sum_openings_nonneg(db@.sessions);
            crate::sums::lemma_count_where_nonneg(
                db@.transactions,
                date_type_pred(date, TransactionType::Income),
            );
            crate::sums::lemma_count_where_nonneg(
                db@.transactions,
                date_type_pred(date, TransactionType::Expense),
            );
            crate::sums::lemma_count_where_disjoint(
                db@.transactions,
                date_type_pred(date, TransactionType::Income),
                date_type_pred(date, TransactionType::Expense),
            );
        }
        let balance = total_income as i64 - total_expense as i64;
        let total_transactions = income_count + expense_count;
        TransactionsSummary {
            date,
            total_income,
            total_expense,
            balance,
            income_count,
            expense_count,
            total_transactions,
        }
    }

    /// One page of the transactions whose concept or rendered number
    /// contains the query, newest first, with the full match count.
    pub fn search_transactions(db: &Database, query: &str, limit: usize, offset: usize) -> (r: (
        Vec<Transaction>,
        usize,
    ))
        requires
            db.wf(),
        ensures
            views(r.0@) == page_of(
                db@.transactions.reverse().filter(search_pred(query@)),
                offset as int,
                limit as int,
            ),
            r.0@.len() <= limit,
            r.1 as int == count_where(db@.transactions, search_pred(query@)),
    {
        db.search_transactions(query, limit, offset)
    }
}

} // verus!
