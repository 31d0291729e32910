use cajachoca::Database;
use cajachoca::Date;
use cajachoca::LedgerError;
use cajachoca::SessionService;
use cajachoca::Timestamp;
use cajachoca::TransactionService;

fn ts(year: i32, month: u32, day: u32) -> Timestamp {
    Timestamp { date: Date { year, month, day }, seconds: 36000 }
}

#[test]
fn session_summary_computes_the_balance() {
    let mut db = Database::new();
    let sid = db.create_session("Ana", 10000, ts(2024, 5, 1)).unwrap().id;
    db.create_transaction(sid, "income", 5000, "Venta", None, "Ana", ts(2024, 5, 1)).unwrap();
    db.create_transaction(sid, "income", 2500, "Venta", None, "Ana", ts(2024, 5, 1)).unwrap();
    db.create_transaction(sid, "expense", 1500, "Compra", None, "Ana", ts(2024, 5, 1)).unwrap();
    let s = SessionService::get_session_summary(&db, sid).unwrap();
    assert_eq!(s.total_income, 7500);
    assert_eq!(s.total_expense, 1500);
    assert_eq!(s.income_count, 2);
    assert_eq!(s.expense_count, 1);
    assert_eq!(s.current_balance, 10000 + 7500 - 1500);
    // while open, the expected closing is the computed balance
    assert_eq!(s.expected_closing, 16000);
    assert_eq!(s.difference, 0);
}

#[test]
fn session_summary_difference_after_close() {
    let mut db = Database::new();
    let sid = db.create_session("Ana", 10000, ts(2024, 5, 1)).unwrap().id;
    db.create_transaction(sid, "income", 5000, "Venta", None, "Ana", ts(2024, 5, 1)).unwrap();
    db.close_session(sid, 14000, ts(2024, 5, 2)).unwrap();
    let s = SessionService::get_session_summary(&db, sid).unwrap();
    assert_eq!(s.current_balance, 15000);
    assert_eq!(s.expected_closing, 14000);
    // counted 14000 against a computed 15000: short by 1000
    assert_eq!(s.difference, -1000);
}

#[test]
fn session_summary_zero_difference_when_counts_match() {
    // Scenario: open with 100.00, take 50.00 in, close counting 150.00
    let mut db = Database::new();
    let sid = db.create_session("Ana", 10000, ts(2024, 5, 1)).unwrap().id;
    db.create_transaction(sid, "income", 5000, "Venta", None, "Ana", ts(2024, 5, 1)).unwrap();
    assert_eq!(
        db.create_transaction(sid, "expense", 20000, "Compra", None, "Ana", ts(2024, 5, 1))
            .unwrap_err(),
        LedgerError::InsufficientFunds
    );
    db.close_session(sid, 15000, ts(2024, 5, 1)).unwrap();
    let s = SessionService::get_session_summary(&db, sid).unwrap();
    assert_eq!(s.current_balance, 15000);
    assert_eq!(s.difference, 0);
}

#[test]
fn session_summary_unknown_id_is_not_found() {
    let db = Database::new();
    assert_eq!(
        SessionService::get_session_summary(&db, 3).unwrap_err(),
        LedgerError::NotFound
    );
}

#[test]
fn daily_summary_is_restricted_to_the_date() {
    let mut db = Database::new();
    let sid = db.create_session("Ana", 10000, ts(2024, 5, 1)).unwrap().id;
    db.create_transaction(sid, "income", 100, "Venta", None, "Ana", ts(2024, 5, 1)).unwrap();
    db.create_transaction(sid, "income", 200, "Venta", None, "Ana", ts(2024, 5, 2)).unwrap();
    db.create_transaction(sid, "expense", 40, "Compra", None, "Ana", ts(2024, 5, 2)).unwrap();
    let d = db.get_daily_summary(Date { year: 2024, month: 5, day: 2 });
    assert_eq!(d.date, Date { year: 2024, month: 5, day: 2 });
    assert_eq!(d.total_income, 200);
    assert_eq!(d.total_expense, 40);
    assert_eq!(d.balance, 160);
    assert_eq!(d.income_count, 1);
    assert_eq!(d.expense_count, 1);
    // the balance of the active session, whatever the requested date
    assert_eq!(d.current_balance, 10000 + 300 - 40);
}

#[test]
fn daily_summary_without_active_session_reports_zero_balance() {
    let mut db = Database::new();
    let sid = db.create_session("Ana", 10000, ts(2024, 5, 1)).unwrap().id;
    db.create_transaction(sid, "expense", 40, "Compra", None, "Ana", ts(2024, 5, 1)).unwrap();
    db.close_session(sid, 9960, ts(2024, 5, 1)).unwrap();
    let d = db.get_daily_summary(Date { year: 2024, month: 5, day: 1 });
    assert_eq!(d.current_balance, 0);
    // a day of expenses alone has a negative balance
    assert_eq!(d.balance, -40);
}

#[test]
fn daily_summary_empty_date_is_all_zero() {
    let db = Database::new();
    let d = db.get_daily_summary(Date { year: 2024, month: 5, day: 9 });
    assert_eq!(d.total_income, 0);
    assert_eq!(d.total_expense, 0);
    assert_eq!(d.balance, 0);
    assert_eq!(d.income_count, 0);
    assert_eq!(d.expense_count, 0);
    assert_eq!(d.current_balance, 0);
}

#[test]
fn dated_transactions_summary_totals_and_counts() {
    let mut db = Database::new();
    let sid = db.create_session("Ana", 10000, ts(2024, 5, 1)).unwrap().id;
    db.create_transaction(sid, "income", 100, "Venta", None, "Ana", ts(2024, 5, 7)).unwrap();
    db.create_transaction(sid, "income", 250, "Venta", None, "Ana", ts(2024, 5, 7)).unwrap();
    db.create_transaction(sid, "expense", 30, "Compra", None, "Ana", ts(2024, 5, 7)).unwrap();
    let s = TransactionService::get_transactions_summary_by_date(
        &db,
        Date { year: 2024, month: 5, day: 7 },
    );
    assert_eq!(s.total_income, 350);
    assert_eq!(s.total_expense, 30);
    assert_eq!(s.balance, 320);
    assert_eq!(s.income_count, 2);
    assert_eq!(s.expense_count, 1);
    assert_eq!(s.total_transactions, 3);
}

#[test]
fn today_summaries_see_rows_stamped_now() {
    // rows created through the service are stamped with the machine's
    // date, which is the date the today-summaries aggregate
    let mut db = Database::new();
    let req = cajachoca::CreateSessionRequest { operator_name: "Ana".to_string(), opening_amount: 1000 };
    let sid = SessionService::create_session(&mut db, req).unwrap().id;
    let treq = cajachoca::CreateTransactionRequest {
        session_id: sid,
        transaction_type: "income".to_string(),
        amount: 70,
        concept: "Venta".to_string(),
        category_id: None,
        created_by: "Ana".to_string(),
    };
    TransactionService::create_transaction(&mut db, treq).unwrap();
    let today = SessionService::get_today_summary(&db);
    assert_eq!(today.total_income, 70);
    assert_eq!(today.income_count, 1);
    assert_eq!(today.current_balance, 1070);
    let t = TransactionService::get_today_transactions_summary(&db);
    assert_eq!(t.total_income, 70);
    assert_eq!(t.total_transactions, 1);
    assert!(SessionService::has_active_session(&db));
}
