use cajachoca::Database;
use cajachoca::Date;
use cajachoca::LedgerError;
use cajachoca::Timestamp;

fn ts(year: i32, month: u32, day: u32) -> Timestamp {
    Timestamp { date: Date { year, month, day }, seconds: 36000 }
}

#[test]
fn create_session_returns_active_row() {
    let mut db = Database::new();
    let s = db.create_session("Ana", 10000, ts(2024, 5, 1)).unwrap();
    assert_eq!(s.id, 1);
    assert_eq!(s.operator_name, "Ana");
    assert_eq!(s.opening_amount, 10000);
    assert_eq!(s.closing_amount, None);
    assert!(s.is_active);
    assert_eq!(s.opened_at, ts(2024, 5, 1));
    assert_eq!(s.closed_at, None);
}

#[test]
fn create_session_blank_name_is_validation_error() {
    let mut db = Database::new();
    assert_eq!(
        db.create_session("", 100, ts(2024, 5, 1)).unwrap_err(),
        LedgerError::Validation
    );
    assert_eq!(
        db.create_session("   \t\n", 100, ts(2024, 5, 1)).unwrap_err(),
        LedgerError::Validation
    );
    assert!(db.get_active_session().is_none());
}

#[test]
fn create_session_while_active_is_conflict_regardless_of_arguments() {
    let mut db = Database::new();
    db.create_session("Ana", 10000, ts(2024, 5, 1)).unwrap();
    // a valid request conflicts
    assert_eq!(
        db.create_session("Luis", 5000, ts(2024, 5, 2)).unwrap_err(),
        LedgerError::Conflict
    );
    // and so does an invalid one: the conflict wins over validation
    assert_eq!(
        db.create_session("", 0, ts(2024, 5, 2)).unwrap_err(),
        LedgerError::Conflict
    );
    // no second row was written
    assert_eq!(db.get_session_by_id(2).unwrap_err(), LedgerError::NotFound);
}

#[test]
fn at_most_one_active_session_across_a_whole_run() {
    let mut db = Database::new();
    for k in 0..5u64 {
        let s = db.create_session("Ana", 1000 + k, ts(2024, 5, 1 + k as u32)).unwrap();
        // the only active session is the one just opened
        let active = db.get_active_session().unwrap();
        assert_eq!(active.id, s.id);
        db.close_session(s.id, 1000 + k, ts(2024, 5, 1 + k as u32)).unwrap();
        assert!(db.get_active_session().is_none());
    }
    // all five rows exist, none active
    for id in 1..=5u64 {
        assert!(!db.get_session_by_id(id).unwrap().is_active);
    }
}

#[test]
fn two_session_creates_one_wins() {
    // two callers race to open: the store serializes them, exactly one
    // succeeds and exactly one row is active afterward
    let mut db = Database::new();
    let first = db.create_session("Ana", 100, ts(2024, 5, 1));
    let second = db.create_session("Luis", 200, ts(2024, 5, 1));
    assert!(first.is_ok());
    assert_eq!(second.unwrap_err(), LedgerError::Conflict);
    let active = db.get_active_session().unwrap();
    assert_eq!(active.id, first.unwrap().id);
    assert_eq!(db.get_session_by_id(2).unwrap_err(), LedgerError::NotFound);
}

#[test]
fn close_session_stamps_closing_data() {
    let mut db = Database::new();
    let s = db.create_session("Ana", 10000, ts(2024, 5, 1)).unwrap();
    let closed = db.close_session(s.id, 9500, ts(2024, 5, 2)).unwrap();
    assert_eq!(closed.id, s.id);
    assert!(!closed.is_active);
    assert_eq!(closed.closing_amount, Some(9500));
    assert_eq!(closed.closed_at, Some(ts(2024, 5, 2)));
    assert_eq!(closed.opening_amount, 10000);
    assert_eq!(closed.operator_name, "Ana");
}

#[test]
fn close_session_unknown_id_is_not_found() {
    let mut db = Database::new();
    assert_eq!(
        db.close_session(7, 100, ts(2024, 5, 1)).unwrap_err(),
        LedgerError::NotFound
    );
}

#[test]
fn close_closed_session_is_state_error_and_changes_nothing() {
    let mut db = Database::new();
    let s = db.create_session("Ana", 10000, ts(2024, 5, 1)).unwrap();
    db.close_session(s.id, 9500, ts(2024, 5, 2)).unwrap();
    let before = db.get_session_by_id(s.id).unwrap();
    assert_eq!(
        db.close_session(s.id, 1234, ts(2024, 5, 3)).unwrap_err(),
        LedgerError::State
    );
    let after = db.get_session_by_id(s.id).unwrap();
    assert_eq!(after.closing_amount, before.closing_amount);
    assert_eq!(after.closed_at, before.closed_at);
    assert_eq!(after.is_active, before.is_active);
    assert_eq!(after.opening_amount, before.opening_amount);
    assert_eq!(after.operator_name, before.operator_name);
}

#[test]
fn session_reopens_as_a_fresh_row() {
    let mut db = Database::new();
    let s1 = db.create_session("Ana", 100, ts(2024, 5, 1)).unwrap();
    db.close_session(s1.id, 100, ts(2024, 5, 1)).unwrap();
    let s2 = db.create_session("Luis", 200, ts(2024, 5, 2)).unwrap();
    assert_eq!(s2.id, 2);
    let active = db.get_active_session().unwrap();
    assert_eq!(active.id, 2);
}
