//! The read layer reports are built on: the date-range query with its
//! optional type and category bounds, the totals of a row list, and
//! the report titles. Rendering to files happens outside the library.

use vstd::prelude::*;

use crate::db::Database;
use crate::db::range_pred;
use crate::models::Date;
use crate::models::Transaction;
use crate::models::TransactionType;
use crate::models::TransactionV;
use crate::sums::count_where;
use crate::sums::lemma_count_where_take_step;
use crate::sums::lemma_sum_amounts_le_len_max;
use crate::sums::lemma_sum_where_le_amounts;
use crate::sums::lemma_sum_where_take_step;
use crate::sums::sum_where;
use crate::sums::views;
use crate::text::str_eq;

verus! {

/// One transaction type alone.
pub open spec fn type_pred(ty: TransactionType) -> spec_fn(TransactionV) -> bool {
    |t: TransactionV| t.transaction_type == ty
}

/// The fixed title of each report type.
pub open spec fn report_title_view(report_type: Seq<char>) -> Seq<char> {
    if report_type == "income"@ {
        "REPORTE DE INGRESOS"@
    } else if report_type == "expense"@ {
        "REPORTE DE EGRESOS"@
    } else if report_type == "balance"@ {
        "BALANCE CONSOLIDADO"@
    } else if report_type == "weekly"@ {
        "RESUMEN SEMANAL"@
    } else {
        "REPORTE"@
    }
}

/// The pure read layer of report generation.
pub struct ReportService;

impl ReportService {
    /// Every transaction of the date range matching the optional type
    /// and category bounds, newest first.
    pub fn get_transactions_for_range(
        db: &Database,
        start_date: Date,
        end_date: Date,
        transaction_type: Option<TransactionType>,
        category_id: Option<u64>,
    ) -> (r: Vec<Transaction>)
        requires
            db.wf(),
        ensures
            views(r@) == db@.transactions.reverse().filter(
                range_pred(start_date, end_date, transaction_type, category_id),
            ),
    {
        db.transactions_in_range(start_date, end_date, transaction_type, category_id)
    }

    /// Income and expense totals and counts of a row list, as a report
    /// summarizes the rows it renders.
    pub fn calculate_totals(transactions: &Vec<Transaction>) -> (r: (u128, u128, usize, usize))
        ensures
            r.0 as int == sum_where(views(transactions@), type_pred(TransactionType::Income)),
            r.1 as int == sum_where(views(transactions@), type_pred(TransactionType::Expense)),
            r.2 as int == count_where(views(transactions@), type_pred(TransactionType::Income)),
            r.3 as int == count_where(views(transactions@), type_pred(TransactionType::Expense)),
    {
        let ghost ts = views(transactions@);
        let n = transactions.len();
        let mut total_income: u128 = 0;
        let mut total_expense: u128 = 0;
        let mut income_count: usize = 0;
        let mut expense_count: usize = 0;
        let mut i: usize = 0;
        while i < n
            invariant
                n == transactions@.len(),
                ts == views(transactions@),
                0 <= i <= n,
                total_income as int == sum_where(
                    ts.take(i as int),
                    type_pred(TransactionType::Income),
                ),
                total_expense as int == sum_where(
                    ts.take(i as int),
                    type_pred(TransactionType::Expense),
                ),
                income_count as int == count_where(
                    ts.take(i as int),
                    type_pred(TransactionType::Income),
                ),
                expense_count as int == count_where(
                    ts.take(i as int),
                    type_pred(TransactionType::Expense),
                ),
                income_count <= i,
                expense_count <= i,
            decreases n - i,
        {
            let t = &transactions[i];
            proof {
                assert(ts[i as int] == t@);
                lemma_sum_where_take_step(ts, type_pred(TransactionType::Income), i as int);
                lemma_sum_where_take_step(ts, type_pred(TransactionType::Expense), i as int);
                lemma_count_where_take_step(ts, type_pred(TransactionType::Income), i as int);
                lemma_count_where_take_step(ts, type_pred(TransactionType::Expense), i as int);
                lemma_sum_where_le_amounts(ts.take(i as int + 1), type_pred(TransactionType::Income));
                lemma_sum_where_le_amounts(ts.take(i as int + 1), type_pred(TransactionType::Expense));
                lemma_sum_amounts_le_len_max(ts.take(i as int + 1));
            }
            if t.transaction_type == TransactionType::Income {
                total_income = total_income + t.amount as u128;
                income_count = income_count + 1;
            } else {
                total_expense = total_expense + t.amount as u128;
                expense_count = expense_count + 1;
            }
            i = i + 1;
        }
        proof {
            assert(ts.take(n as int) =~= ts);
        }
        (total_income, total_expense, income_count, expense_count)
    }

    /// The title a report of the given type carries.
    pub fn get_report_title(report_type: &str) -> (r: &'static str)
        ensures
            r@ == report_title_view(report_type@),
    {
        if str_eq(report_type, "income") {
            "REPORTE DE INGRESOS"
        } else if str_eq(report_type, "expense") {
            "REPORTE DE EGRESOS"
        } else if str_eq(report_type, "balance") {
            "BALANCE CONSOLIDADO"
        } else if str_eq(report_type, "weekly") {
            "RESUMEN SEMANAL"
        } else {
            "REPORTE"
        }
    }
}

} // verus!
