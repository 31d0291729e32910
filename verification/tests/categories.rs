use cajachoca::Database;
use cajachoca::LedgerError;
use cajachoca::TransactionService;
use cajachoca::TransactionType;
use cajachoca::models::CategoriesListResponse;
use cajachoca::models::CategoryResponse;

#[test]
fn create_category_assigns_sequential_ids() {
    let mut db = Database::new();
    let a = db.create_category("Ventas", TransactionType::Income).unwrap();
    let b = db.create_category("Compras", TransactionType::Expense).unwrap();
    assert_eq!(a.id, 1);
    assert_eq!(b.id, 2);
    assert!(a.is_active && b.is_active);
}

#[test]
fn list_returns_active_categories_in_creation_order() {
    let mut db = Database::new();
    db.create_category("Ventas", TransactionType::Income).unwrap();
    db.create_category("Compras", TransactionType::Expense).unwrap();
    db.create_category("Abonos", TransactionType::Income).unwrap();
    let all = TransactionService::get_all_categories(&db);
    let names: Vec<&str> = all.iter().map(|c| c.name.as_str()).collect();
    assert_eq!(names, vec!["Ventas", "Compras", "Abonos"]);
}

#[test]
fn list_by_type_filters() {
    let mut db = Database::new();
    db.create_category("Ventas", TransactionType::Income).unwrap();
    db.create_category("Compras", TransactionType::Expense).unwrap();
    db.create_category("Abonos", TransactionType::Income).unwrap();
    let incomes = TransactionService::get_categories_by_type(&db, "income".to_string()).unwrap();
    assert_eq!(incomes.len(), 2);
    assert!(incomes.iter().all(|c| c.category_type == TransactionType::Income));
}

#[test]
fn list_by_unknown_type_text_is_validation_error() {
    let db = Database::new();
    assert_eq!(
        TransactionService::get_categories_by_type(&db, "ingreso".to_string()).unwrap_err(),
        LedgerError::Validation
    );
}

#[test]
fn rename_changes_name_only() {
    let mut db = Database::new();
    let c = db.create_category("Ventas", TransactionType::Income).unwrap();
    let renamed = db.update_category(c.id, "Ventas Cafeteria").unwrap();
    assert_eq!(renamed.id, c.id);
    assert_eq!(renamed.name, "Ventas Cafeteria");
    assert_eq!(renamed.category_type, TransactionType::Income);
    assert!(renamed.is_active);
    assert_eq!(
        db.update_category(9, "Nada").unwrap_err(),
        LedgerError::NotFound
    );
}

#[test]
fn deactivate_hides_from_listing_but_keeps_the_row() {
    let mut db = Database::new();
    let a = db.create_category("Ventas", TransactionType::Income).unwrap();
    let b = db.create_category("Compras", TransactionType::Expense).unwrap();
    db.delete_category(a.id).unwrap();
    let listed = TransactionService::get_all_categories(&db);
    assert_eq!(listed.len(), 1);
    assert_eq!(listed[0].id, b.id);
    // the row itself stays, inactive, and the lookup still resolves
    let kept = db.get_category_by_id(a.id).unwrap();
    assert!(!kept.is_active);
    assert_eq!(kept.name, "Ventas");
    // deactivating an unknown id changes nothing and still succeeds
    db.delete_category(9).unwrap();
}

#[test]
fn get_category_by_id_unknown_is_not_found() {
    let db = Database::new();
    assert_eq!(db.get_category_by_id(1).unwrap_err(), LedgerError::NotFound);
}

#[test]
fn envelopes_wrap_success_and_failure() {
    let mut db = Database::new();
    db.create_category("Ventas", TransactionType::Income).unwrap();
    let ok = CategoriesListResponse::from_result(Ok(TransactionService::get_all_categories(&db)));
    assert!(ok.success);
    assert_eq!(ok.data.len(), 1);
    assert!(ok.error.is_none());
    let err = CategoriesListResponse::from_result(Err(LedgerError::Validation));
    assert!(!err.success);
    assert!(err.data.is_empty());
    assert_eq!(err.error.as_deref(), Some("Entrada invalida"));
    let one = CategoryResponse::from_result(db.get_category_by_id(1));
    assert!(one.success);
    assert_eq!(one.data.unwrap().name, "Ventas");
    let missing = CategoryResponse::from_result(db.get_category_by_id(7));
    assert!(!missing.success);
    assert!(missing.data.is_none());
    assert_eq!(missing.error.as_deref(), Some("No se encontro el registro"));
}
