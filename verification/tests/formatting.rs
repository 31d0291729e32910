use cajachoca::Database;
use cajachoca::Date;
use cajachoca::LedgerError;
use cajachoca::Timestamp;
use cajachoca::text::format_file_size;
use cajachoca::text::format_transaction_number;
use cajachoca::text::str_contains;
use cajachoca::text::str_is_blank;
use cajachoca::text::u64_to_string;
use cajachoca::models::parse_transaction_type;
use cajachoca::TransactionType;

#[test]
fn decimal_rendering_is_exact() {
    assert_eq!(u64_to_string(0), "0");
    assert_eq!(u64_to_string(7), "7");
    assert_eq!(u64_to_string(1001), "1001");
    assert_eq!(u64_to_string(18446744073709551615), "18446744073709551615");
}

#[test]
fn transaction_number_renders_with_prefix() {
    assert_eq!(format_transaction_number(1001), "TR-1001");
    assert_eq!(format_transaction_number(1099), "TR-1099");
    assert_eq!(format_transaction_number(10001), "TR-10001");
}

#[test]
fn file_sizes_render_by_magnitude() {
    assert_eq!(format_file_size(0), "0 bytes");
    assert_eq!(format_file_size(512), "512 bytes");
    assert_eq!(format_file_size(1023), "1023 bytes");
    assert_eq!(format_file_size(1024), "1.00 KB");
    assert_eq!(format_file_size(1536), "1.50 KB");
    assert_eq!(format_file_size(10240), "10.00 KB");
    assert_eq!(format_file_size(1048576), "1.00 MB");
    assert_eq!(format_file_size(1572864), "1.50 MB");
    assert_eq!(format_file_size(1073741824), "1.00 GB");
    assert_eq!(format_file_size(1610612736), "1.50 GB");
    // rounding to the nearest hundredth
    assert_eq!(format_file_size(1075), "1.05 KB");
}

#[test]
fn blank_test_accepts_whitespace_only() {
    assert!(str_is_blank(""));
    assert!(str_is_blank("  \t\r\n"));
    assert!(!str_is_blank(" a "));
}

#[test]
fn substring_search_is_exact() {
    assert!(str_contains("Venta de cafe", "cafe"));
    assert!(str_contains("Venta de cafe", ""));
    assert!(!str_contains("Venta de cafe", "Cafe"));
    assert!(!str_contains("abc", "abcd"));
    assert!(str_contains("", ""));
}

#[test]
fn type_text_parses_exactly_two_values() {
    assert_eq!(parse_transaction_type("income"), Some(TransactionType::Income));
    assert_eq!(parse_transaction_type("expense"), Some(TransactionType::Expense));
    assert_eq!(parse_transaction_type("Income"), None);
    assert_eq!(parse_transaction_type(""), None);
}

#[test]
fn error_messages_render_per_kind() {
    assert_eq!(LedgerError::Validation.message(), "Entrada invalida");
    assert_eq!(LedgerError::Conflict.message(), "Operacion en conflicto con el estado actual");
    assert_eq!(LedgerError::NotFound.message(), "No se encontro el registro");
    assert_eq!(LedgerError::InsufficientFunds.message(), "Saldo insuficiente");
    assert_eq!(
        LedgerError::CategoryMismatch.message(),
        "La categoria no coincide con el tipo de transaccion"
    );
    assert_eq!(
        LedgerError::State.message(),
        "La operacion no es valida para el estado de la sesion"
    );
    assert_eq!(LedgerError::Storage.message(), "Error de almacenamiento");
}

#[test]
fn backup_history_is_newest_first_and_bounded() {
    let mut db = Database::new();
    let when = |d: u32| Timestamp { date: Date { year: 2024, month: 6, day: d }, seconds: 0 };
    db.record_backup("a.db", "/tmp/a.db", 100, None, when(1)).unwrap();
    db.record_backup("b.db", "/tmp/b.db", 200, Some("semanal"), when(2)).unwrap();
    db.record_backup("c.db", "/tmp/c.db", 300, None, when(3)).unwrap();
    let latest = db.get_backup_history(2);
    assert_eq!(latest.len(), 2);
    assert_eq!(latest[0].filename, "c.db");
    assert_eq!(latest[1].filename, "b.db");
    assert_eq!(latest[1].description.as_deref(), Some("semanal"));
    let all = db.get_backup_history(10);
    assert_eq!(all.len(), 3);
    assert_eq!(all[2].id, 1);
}

#[test]
fn storage_capacity_is_enforced() {
    // the store holds at most i64::MAX in value: a second huge opening
    // cannot fit
    let mut db = Database::new();
    let now = Timestamp { date: Date { year: 2024, month: 6, day: 1 }, seconds: 0 };
    let sid = db.create_session("Ana", 0x7fff_ffff_ffff_fff0, now).unwrap().id;
    assert_eq!(
        db.create_transaction(sid, "income", 0x100, "Venta", None, "Ana", now).unwrap_err(),
        LedgerError::Storage
    );
    // a small income still fits
    assert!(db.create_transaction(sid, "income", 0xf, "Venta", None, "Ana", now).is_ok());
}

#[test]
fn dates_and_timestamps_render_zero_padded() {
    let d = Date { year: 2024, month: 5, day: 1 };
    assert_eq!(cajachoca::text::format_date(d), "2024-05-01");
    assert_eq!(
        cajachoca::text::format_date(Date { year: 33, month: 12, day: 31 }),
        "0033-12-31"
    );
    let t = Timestamp { date: d, seconds: 3661 };
    assert_eq!(cajachoca::text::format_timestamp(t), "2024-05-01 01:01:01");
    let midnight = Timestamp { date: d, seconds: 0 };
    assert_eq!(cajachoca::text::format_timestamp(midnight), "2024-05-01 00:00:00");
    let last = Timestamp { date: d, seconds: 86399 };
    assert_eq!(cajachoca::text::format_timestamp(last), "2024-05-01 23:59:59");
}
