use cajachoca::Database;
use cajachoca::Date;
use cajachoca::LedgerError;
use cajachoca::Timestamp;
use cajachoca::TransactionType;
use cajachoca::text::format_transaction_number;

fn ts(year: i32, month: u32, day: u32) -> Timestamp {
    Timestamp { date: Date { year, month, day }, seconds: 36000 }
}

fn open_session(db: &mut Database, opening: u64) -> u64 {
    db.create_session("Ana", opening, ts(2024, 5, 1)).unwrap().id
}

#[test]
fn create_transaction_persists_the_row() {
    let mut db = Database::new();
    let sid = open_session(&mut db, 10000);
    let t = db
        .create_transaction(sid, "income", 5000, "Venta", None, "Ana", ts(2024, 5, 1))
        .unwrap();
    assert_eq!(t.id, 1);
    assert_eq!(t.session_id, sid);
    assert_eq!(t.transaction_number, 1001);
    assert_eq!(t.transaction_type, TransactionType::Income);
    assert_eq!(t.amount, 5000);
    assert_eq!(t.concept, "Venta");
    assert_eq!(t.category_id, None);
    assert_eq!(t.category_name, None);
    assert_eq!(t.created_by, "Ana");
    let fetched = db.get_transaction_by_id(1).unwrap();
    assert_eq!(fetched.transaction_number, 1001);
    assert_eq!(fetched.concept, "Venta");
}

#[test]
fn zero_amount_is_rejected_and_nothing_is_written() {
    let mut db = Database::new();
    let sid = open_session(&mut db, 10000);
    assert_eq!(
        db.create_transaction(sid, "income", 0, "Venta", None, "Ana", ts(2024, 5, 1))
            .unwrap_err(),
        LedgerError::Validation
    );
    assert_eq!(db.get_transaction_by_id(1).unwrap_err(), LedgerError::NotFound);
}

#[test]
fn blank_concept_is_rejected() {
    let mut db = Database::new();
    let sid = open_session(&mut db, 10000);
    assert_eq!(
        db.create_transaction(sid, "income", 100, "  ", None, "Ana", ts(2024, 5, 1))
            .unwrap_err(),
        LedgerError::Validation
    );
}

#[test]
fn unknown_type_text_is_rejected() {
    let mut db = Database::new();
    let sid = open_session(&mut db, 10000);
    assert_eq!(
        db.create_transaction(sid, "transfer", 100, "Venta", None, "Ana", ts(2024, 5, 1))
            .unwrap_err(),
        LedgerError::Validation
    );
}

#[test]
fn no_active_session_is_conflict() {
    let mut db = Database::new();
    assert_eq!(
        db.create_transaction(1, "income", 100, "Venta", None, "Ana", ts(2024, 5, 1))
            .unwrap_err(),
        LedgerError::Conflict
    );
}

#[test]
fn wrong_session_id_is_conflict() {
    let mut db = Database::new();
    let sid = open_session(&mut db, 10000);
    assert_eq!(
        db.create_transaction(sid + 1, "income", 100, "Venta", None, "Ana", ts(2024, 5, 1))
            .unwrap_err(),
        LedgerError::Conflict
    );
}

#[test]
fn closed_session_is_conflict() {
    let mut db = Database::new();
    let sid = open_session(&mut db, 10000);
    db.close_session(sid, 10000, ts(2024, 5, 2)).unwrap();
    assert_eq!(
        db.create_transaction(sid, "income", 100, "Venta", None, "Ana", ts(2024, 5, 2))
            .unwrap_err(),
        LedgerError::Conflict
    );
}

#[test]
fn expense_above_balance_is_insufficient_funds_and_writes_nothing() {
    let mut db = Database::new();
    let sid = open_session(&mut db, 10000);
    db.create_transaction(sid, "income", 5000, "Venta", None, "Ana", ts(2024, 5, 1))
        .unwrap();
    // balance is 15000; 20000 must be refused
    assert_eq!(
        db.create_transaction(sid, "expense", 20000, "Compra", None, "Ana", ts(2024, 5, 1))
            .unwrap_err(),
        LedgerError::InsufficientFunds
    );
    // the session still has exactly one transaction
    assert_eq!(db.get_transaction_by_id(2).unwrap_err(), LedgerError::NotFound);
    // an expense of exactly the balance passes
    let t = db
        .create_transaction(sid, "expense", 15000, "Compra", None, "Ana", ts(2024, 5, 1))
        .unwrap();
    assert_eq!(t.transaction_number, 1002);
}

#[test]
fn sequential_numbering_has_no_gaps() {
    let mut db = Database::new();
    let sid = open_session(&mut db, 10000);
    for k in 0..7u64 {
        let t = db
            .create_transaction(sid, "income", 100 + k, "Venta", None, "Ana", ts(2024, 5, 1))
            .unwrap();
        assert_eq!(t.transaction_number, 1001 + k);
        assert_eq!(
            format_transaction_number(t.transaction_number),
            format!("TR-{}", 1001 + k)
        );
    }
    // TR-1001 .. TR-1007, nothing else
    assert!(db.get_transaction_by_id(7).is_ok());
    assert_eq!(db.get_transaction_by_id(8).unwrap_err(), LedgerError::NotFound);
}

#[test]
fn category_mismatch_is_rejected_and_writes_nothing() {
    let mut db = Database::new();
    let cat = db.create_category("Ventas", TransactionType::Income).unwrap();
    let sid = open_session(&mut db, 10000);
    assert_eq!(
        db.create_transaction(sid, "expense", 100, "Compra", Some(cat.id), "Ana", ts(2024, 5, 1))
            .unwrap_err(),
        LedgerError::CategoryMismatch
    );
    assert_eq!(db.get_transaction_by_id(1).unwrap_err(), LedgerError::NotFound);
}

#[test]
fn unknown_category_is_not_found() {
    let mut db = Database::new();
    let sid = open_session(&mut db, 10000);
    assert_eq!(
        db.create_transaction(sid, "income", 100, "Venta", Some(9), "Ana", ts(2024, 5, 1))
            .unwrap_err(),
        LedgerError::NotFound
    );
}

#[test]
fn category_name_is_snapshotted_at_creation() {
    let mut db = Database::new();
    let cat = db.create_category("Ventas", TransactionType::Income).unwrap();
    let sid = open_session(&mut db, 10000);
    let t = db
        .create_transaction(sid, "income", 100, "Venta", Some(cat.id), "Ana", ts(2024, 5, 1))
        .unwrap();
    assert_eq!(t.category_name.as_deref(), Some("Ventas"));
    // renaming the category later leaves the stored snapshot as it was
    db.update_category(cat.id, "Ventas 2024").unwrap();
    let fetched = db.get_transaction_by_id(t.id).unwrap();
    assert_eq!(fetched.category_name.as_deref(), Some("Ventas"));
}

#[test]
fn deactivated_category_still_validates_by_type() {
    let mut db = Database::new();
    let cat = db.create_category("Ventas", TransactionType::Income).unwrap();
    db.delete_category(cat.id).unwrap();
    let sid = open_session(&mut db, 10000);
    let t = db
        .create_transaction(sid, "income", 100, "Venta", Some(cat.id), "Ana", ts(2024, 5, 1))
        .unwrap();
    assert_eq!(t.category_id, Some(cat.id));
}

#[test]
fn get_transaction_by_id_unknown_is_not_found() {
    let db = Database::new();
    assert_eq!(db.get_transaction_by_id(1).unwrap_err(), LedgerError::NotFound);
}
