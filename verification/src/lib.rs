//! Cash-register session and transaction ledger.
//!
//! The crate models one cash register: operating sessions (open, record
//! income/expense transactions, close), a category registry and summary
//! reports, all over one exclusively-owned store whose invariants —
//! a single active session, positive amounts, gap-free transaction
//! numbering, non-negative balances — are stated and proved here.

pub mod clock;
pub mod db;
pub mod laws;
pub mod models;
pub mod report;
pub mod session_service;
pub mod sums;
pub mod text;
pub mod transaction_service;

pub use db::Database;
pub use models::BackupInfo;
pub use models::Category;
pub use models::CloseSessionRequest;
pub use models::CreateSessionRequest;
pub use models::CreateTransactionRequest;
pub use models::DailySummary;
pub use models::Date;
pub use models::LedgerError;
pub use models::Session;
pub use models::SessionSummary;
pub use models::Timestamp;
pub use models::Transaction;
pub use models::TransactionType;
pub use models::TransactionsSummary;
pub use report::ReportService;
pub use session_service::SessionService;
pub use transaction_service::TransactionService;
