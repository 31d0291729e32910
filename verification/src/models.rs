//! Data model of the ledger: entities, their ghost views, requests,
//! summaries and the error taxonomy.

use vstd::prelude::*;

verus! {

/// Classification of a ledger entry: money coming in or going out.
#[derive(Clone, Copy, Debug, PartialEq, Eq, Structural)]
pub enum TransactionType {
    Income,
    Expense,
}

/// The textual form of a transaction or category type, as callers at
/// the system edge supply it: exactly "income" or "expense".
pub open spec fn parse_type(s: Seq<char>) -> Option<TransactionType> {
    if s == "income"@ {
        Some(TransactionType::Income)
    } else if s == "expense"@ {
        Some(TransactionType::Expense)
    } else {
        None
    }
}

/// Decides `parse_type` executably.
pub fn parse_transaction_type(s: &str) -> (r: Option<TransactionType>)
    ensures
        r == parse_type(s@),
{
    if crate::text::str_eq(s, "income") {
        Some(TransactionType::Income)
    } else if crate::text::str_eq(s, "expense") {
        Some(TransactionType::Expense)
    } else {
        None
    }
}

/// A calendar date, held as plain numbers so that date filters are
/// ordinary integer comparisons.
#[derive(Clone, Copy, Debug, PartialEq, Eq, Structural)]
pub struct Date {
    pub year: i32,
    pub month: u32,
    pub day: u32,
}

/// Ordering of calendar dates: lexicographic on (year, month, day).
pub open spec fn date_le(a: Date, b: Date) -> bool {
    ||| a.year < b.year
    ||| (a.year == b.year && a.month < b.month)
    ||| (a.year == b.year && a.month == b.month && a.day <= b.day)
}

impl Date {
    /// Decides `date_le` executably.
    pub fn le(&self, other: &Date) -> (r: bool)
        ensures
            r == date_le(*self, *other),
    {
        if self.year != other.year {
            self.year < other.year
        } else if self.month != other.month {
            self.month < other.month
        } else {
            self.day <= other.day
        }
    }
}

/// A point in time: a calendar date plus the second of that day.
#[derive(Clone, Copy, Debug, PartialEq, Eq, Structural)]
pub struct Timestamp {
    pub date: Date,
    /// Seconds since midnight, below 86 400.
    pub seconds: u32,
}

/// The error taxonomy of the ledger. Every operation reports failure
/// through one of these kinds; rendering to text is a separate step
/// (`LedgerError::message`).
#[derive(Clone, Copy, Debug, PartialEq, Eq, Structural)]
pub enum LedgerError {
    /// Malformed input (blank name or concept, zero amount, unknown type).
    Validation,
    /// A business-state rule is violated (duplicate active session,
    /// mismatched session).
    Conflict,
    /// A referenced entity is absent.
    NotFound,
    /// An expense exceeds the current balance.
    InsufficientFunds,
    /// A category's type differs from the transaction's type.
    CategoryMismatch,
    /// The operation is invalid for the current lifecycle state.
    State,
    /// The store cannot hold the value (capacity exhausted).
    Storage,
}

/// The text of each error kind.
pub open spec fn error_message_view(e: LedgerError) -> Seq<char> {
    match e {
        LedgerError::Validation => "Entrada invalida"@,
        LedgerError::Conflict => "Operacion en conflicto con el estado actual"@,
        LedgerError::NotFound => "No se encontro el registro"@,
        LedgerError::InsufficientFunds => "Saldo insuficiente"@,
        LedgerError::CategoryMismatch => "La categoria no coincide con el tipo de transaccion"@,
        LedgerError::State => "La operacion no es valida para el estado de la sesion"@,
        LedgerError::Storage => "Error de almacenamiento"@,
    }
}

impl LedgerError {
    /// Human-readable rendering of the error kind.
    pub fn message(&self) -> (r: String)
        ensures
            r@ == error_message_view(*self),
    {
        match self {
            LedgerError::Validation => String::from_str("Entrada invalida"),
            LedgerError::Conflict => String::from_str(
                "Operacion en conflicto con el estado actual",
            ),
            LedgerError::NotFound => String::from_str("No se encontro el registro"),
            LedgerError::InsufficientFunds => String::from_str("Saldo insuficiente"),
            LedgerError::CategoryMismatch => String::from_str(
                "La categoria no coincide con el tipo de transaccion",
            ),
            LedgerError::State => String::from_str(
                "La operacion no es valida para el estado de la sesion",
            ),
            LedgerError::Storage => String::from_str("Error de almacenamiento"),
        }
    }
}

// ============================================
// Entities and their ghost views
// ============================================

/// One cash-register operating period.
///
/// Amounts are integral minor currency units (cents).
#[derive(Clone, Debug)]
pub struct Session {
    pub id: u64,
    pub operator_name: String,
    pub opening_amount: u64,
    pub closing_amount: Option<u64>,
    pub opened_at: Timestamp,
    pub closed_at: Option<Timestamp>,
    pub is_active: bool,
}

/// Ghost image of a `Session`.
pub ghost struct SessionV {
    pub id: u64,
    pub operator_name: Seq<char>,
    pub opening_amount: u64,
    pub closing_amount: Option<u64>,
    pub opened_at: Timestamp,
    pub closed_at: Option<Timestamp>,
    pub is_active: bool,
}

impl View for Session {
    type V = SessionV;

    open spec fn view(&self) -> SessionV {
        SessionV {
            id: self.id,
            operator_name: self.operator_name@,
            opening_amount: self.opening_amount,
            closing_amount: self.closing_amount,
            opened_at: self.opened_at,
            closed_at: self.closed_at,
            is_active: self.is_active,
        }
    }
}

impl Session {
    /// An owned copy whose view equals this session's view.
    pub fn duplicate(&self) -> (r: Session)
        ensures
            r@ == self@,
    {
        Session {
            id: self.id,
            operator_name: self.operator_name.clone(),
            opening_amount: self.opening_amount,
            closing_amount: self.closing_amount,
            opened_at: self.opened_at,
            closed_at: self.closed_at,
            is_active: self.is_active,
        }
    }
}

/// One income or expense record, attached to exactly one session.
///
/// The human-facing number is held as the plain integer `1000 + sequence`;
/// `crate::text::format_transaction_number` renders the "TR-NNNN" form.
#[derive(Clone, Debug)]
pub struct Transaction {
    pub id: u64,
    pub session_id: u64,
    pub transaction_number: u64,
    pub transaction_type: TransactionType,
    pub amount: u64,
    pub concept: String,
    pub category_id: Option<u64>,
    /// Name of the category at creation time (a denormalized snapshot).
    pub category_name: Option<String>,
    pub created_at: Timestamp,
    pub created_by: String,
}

/// Ghost image of a `Transaction`.
pub ghost struct TransactionV {
    pub id: u64,
    pub session_id: u64,
    pub transaction_number: u64,
    pub transaction_type: TransactionType,
    pub amount: u64,
    pub concept: Seq<char>,
    pub category_id: Option<u64>,
    pub category_name: Option<Seq<char>>,
    pub created_at: Timestamp,
    pub created_by: Seq<char>,
}

impl View for Transaction {
    type V = TransactionV;

    open spec fn view(&self) -> TransactionV {
        TransactionV {
            id: self.id,
            session_id: self.session_id,
            transaction_number: self.transaction_number,
            transaction_type: self.transaction_type,
            amount: self.amount,
            concept: self.concept@,
            category_id: self.category_id,
            category_name: if self.category_name is Some {
                Some(self.category_name->0@)
            } else {
                None
            },
            created_at: self.created_at,
            created_by: self.created_by@,
        }
    }
}

impl Transaction {
    /// An owned copy whose view equals this transaction's view.
    pub fn duplicate(&self) -> (r: Transaction)
        ensures
            r@ == self@,
    {
        Transaction {
            id: self.id,
            session_id: self.session_id,
            transaction_number: self.transaction_number,
            transaction_type: self.transaction_type,
            amount: self.amount,
            concept: self.concept.clone(),
            category_id: self.category_id,
            category_name: match &self.category_name {
                Some(n) => Some(n.clone()),
                None => None,
            },
            created_at: self.created_at,
            created_by: self.created_by.clone(),
        }
    }
}

/// A named income or expense category. Deactivation is a soft delete.
#[derive(Clone, Debug)]
pub struct Category {
    pub id: u64,
    pub name: String,
    pub category_type: TransactionType,
    pub is_active: bool,
}

/// Ghost image of a `Category`.
pub ghost struct CategoryV {
    pub id: u64,
    pub name: Seq<char>,
    pub category_type: TransactionType,
    pub is_active: bool,
}

impl View for Category {
    type V = CategoryV;

    open spec fn view(&self) -> CategoryV {
        CategoryV {
            id: self.id,
            name: self.name@,
            category_type: self.category_type,
            is_active: self.is_active,
        }
    }
}

impl Category {
    /// An owned copy whose view equals this category's view.
    pub fn duplicate(&self) -> (r: Category)
        ensures
            r@ == self@,
    {
        Category {
            id: self.id,
            name: self.name.clone(),
            category_type: self.category_type,
            is_active: self.is_active,
        }
    }
}

/// Metadata of one recorded store backup.
#[derive(Clone, Debug)]
pub struct BackupInfo {
    pub id: u64,
    pub filename: String,
    pub filepath: String,
    pub created_at: Timestamp,
    pub size_bytes: u64,
    pub description: Option<String>,
}

/// Ghost image of a `BackupInfo`.
pub ghost struct BackupInfoV {
    pub id: u64,
    pub filename: Seq<char>,
    pub filepath: Seq<char>,
    pub created_at: Timestamp,
    pub size_bytes: u64,
    pub description: Option<Seq<char>>,
}

impl View for BackupInfo {
    type V = BackupInfoV;

    open spec fn view(&self) -> BackupInfoV {
        BackupInfoV {
            id: self.id,
            filename: self.filename@,
            filepath: self.filepath@,
            created_at: self.created_at,
            size_bytes: self.size_bytes,
            description: if self.description is Some {
                Some(self.description->0@)
            } else {
                None
            },
        }
    }
}

impl BackupInfo {
    /// An owned copy whose view equals this record's view.
    pub fn duplicate(&self) -> (r: BackupInfo)
        ensures
            r@ == self@,
    {
        BackupInfo {
            id: self.id,
            filename: self.filename.clone(),
            filepath: self.filepath.clone(),
            created_at: self.created_at,
            size_bytes: self.size_bytes,
            description: match &self.description {
                Some(d) => Some(d.clone()),
                None => None,
            },
        }
    }
}

// ============================================
// Request models
// ============================================

/// Input of `SessionService::create_session`.
#[derive(Clone, Debug)]
pub struct CreateSessionRequest {
    pub operator_name: String,
    pub opening_amount: u64,
}

/// Input of `SessionService::close_session`.
#[derive(Clone, Copy, Debug)]
pub struct CloseSessionRequest {
    pub session_id: u64,
    pub closing_amount: u64,
}

/// Input of `TransactionService::create_transaction`. The type is carried
/// as text ("income" or "expense") and validated, as at the system edge.
#[derive(Clone, Debug)]
pub struct CreateTransactionRequest {
    pub session_id: u64,
    pub transaction_type: String,
    pub amount: u64,
    pub concept: String,
    pub category_id: Option<u64>,
    pub created_by: String,
}

/// Filters and page bounds of `TransactionService::get_transactions`.
#[derive(Clone, Copy, Debug)]
pub struct GetTransactionsRequest {
    pub session_id: Option<u64>,
    pub transaction_type: Option<TransactionType>,
    pub start_date: Option<Date>,
    pub end_date: Option<Date>,
    pub limit: Option<usize>,
    pub offset: Option<usize>,
}

/// Input of a dated summary query.
#[derive(Clone, Copy, Debug)]
pub struct GetDailySummaryRequest {
    pub date: Date,
}

/// Optional type filter of a category listing.
#[derive(Clone, Copy, Debug)]
pub struct GetCategoriesRequest {
    pub category_type: Option<TransactionType>,
}

/// Input of a report generation: what to cover and how to render it.
#[derive(Clone, Debug)]
pub struct GenerateReportRequest {
    /// "income", "expense", "balance", "weekly" or "category_<id>_<type>".
    pub report_type: String,
    pub start_date: Date,
    pub end_date: Date,
    /// "pdf" or "excel".
    pub format: String,
}

/// Input of a backup creation.
#[derive(Clone, Debug)]
pub struct CreateBackupRequest {
    pub description: Option<String>,
}

/// Input of a backup restoration.
#[derive(Clone, Debug)]
pub struct RestoreBackupRequest {
    pub backup_path: String,
}

// ============================================
// Derived summaries (computed, never stored)
// ============================================

/// Aggregates of one session's transactions, with its reconciliation
/// fields.
#[derive(Clone, Debug)]
pub struct SessionSummary {
    pub session: Session,
    pub total_income: u64,
    pub total_expense: u64,
    pub income_count: usize,
    pub expense_count: usize,
    pub current_balance: u64,
    pub expected_closing: u64,
    /// Counted closing amount minus computed balance; 0 while open.
    pub difference: i128,
}

/// Aggregates of all transactions created on one calendar date.
#[derive(Clone, Copy, Debug)]
pub struct DailySummary {
    pub date: Date,
    pub total_income: u64,
    pub total_expense: u64,
    pub balance: i64,
    pub income_count: usize,
    pub expense_count: usize,
    /// Balance of the presently active session (0 if none), whatever the
    /// requested date.
    pub current_balance: u64,
}

/// Aggregates of one date's transactions with their total count.
#[derive(Clone, Copy, Debug)]
pub struct TransactionsSummary {
    pub date: Date,
    pub total_income: u64,
    pub total_expense: u64,
    pub balance: i64,
    pub income_count: usize,
    pub expense_count: usize,
    pub total_transactions: usize,
}

// ============================================
// Result envelopes
// ============================================

/// Uniform envelope of a category listing.
#[derive(Clone, Debug)]
pub struct CategoriesListResponse {
    pub success: bool,
    pub data: Vec<Category>,
    pub error: Option<String>,
}

/// Uniform envelope of a single-category lookup.
#[derive(Clone, Debug)]
pub struct CategoryResponse {
    pub success: bool,
    pub data: Option<Category>,
    pub error: Option<String>,
}

/// Uniform envelope of a report generation: the rendered file's path
/// on success.
#[derive(Clone, Debug)]
pub struct ReportResponse {
    pub success: bool,
    pub file_path: Option<String>,
    pub error: Option<String>,
}

/// Uniform envelope of a backup creation: the written file's path on
/// success.
#[derive(Clone, Debug)]
pub struct BackupResponse {
    pub success: bool,
    pub file_path: Option<String>,
    pub error: Option<String>,
}

/// Uniform envelope of a backup listing.
#[derive(Clone, Debug)]
pub struct BackupListResponse {
    pub success: bool,
    pub data: Vec<BackupInfo>,
    pub error: Option<String>,
}

impl CategoriesListResponse {
    /// Wraps a listing outcome: the rows on success, the rendered
    /// error kind on failure.
    pub fn from_result(r: Result<Vec<Category>, LedgerError>) -> (resp: CategoriesListResponse)
        ensures
            r is Ok ==> resp.success && resp.data@ == r->Ok_0@ && resp.error is None,
            r is Err ==> !resp.success && resp.data@.len() == 0 && resp.error is Some
                && resp.error->0@ == error_message_view(r->Err_0),
    {
        match r {
            Ok(data) => CategoriesListResponse { success: true, data, error: None },
            Err(e) => CategoriesListResponse {
                success: false,
                data: Vec::new(),
                error: Some(e.message()),
            },
        }
    }
}

impl CategoryResponse {
    /// Wraps a lookup outcome: the row on success, the rendered error
    /// kind on failure.
    pub fn from_result(r: Result<Category, LedgerError>) -> (resp: CategoryResponse)
        ensures
            r is Ok ==> resp.success && resp.data is Some && resp.data->0@ == r->Ok_0@
                && resp.error is None,
            r is Err ==> !resp.success && resp.data is None && resp.error is Some
                && resp.error->0@ == error_message_view(r->Err_0),
    {
        match r {
            Ok(data) => CategoryResponse { success: true, data: Some(data), error: None },
            Err(e) => CategoryResponse { success: false, data: None, error: Some(e.message()) },
        }
    }
}

} // verus!
