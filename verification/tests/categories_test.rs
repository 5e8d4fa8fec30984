use budget::categories::{
    create_category_with, delete_category, get_categories, update_category,
    validate_category_name, validate_category_not_in_use,
};
use budget::errors::ErrorKind;
use budget::models::{CreateRecordPayload, GetCategoriesQuery, UpdateCategoryPayload};
use budget::records::{create_record_with, delete_record, validate_category_exists};
use budget::store::Store;

fn add_category(store: &mut Store, id: &str, name: &str) {
    create_category_with(store, name, id.to_string()).expect("category creation should succeed");
}

fn add_record(store: &mut Store, id: &str, name: &str, amount: f64, category_id: &str, ts: i64) {
    let payload = CreateRecordPayload {
        name: name.to_string(),
        amount: amount.to_bits(),
        category_id: category_id.to_string(),
    };
    create_record_with(store, &payload, id.to_string(), ts)
        .expect("record creation should succeed");
}

fn list_all(store: &Store) -> Vec<budget::models::Category> {
    let query = GetCategoriesQuery { limit: None, offset: None, search: None };
    get_categories(store, &query).expect("listing should succeed").categories
}

#[test]
fn test_validate_category_name_valid() {
    assert!(validate_category_name("Valid Category Name").is_ok());
}

#[test]
fn test_validate_category_name_empty() {
    let err = validate_category_name("").unwrap_err();
    assert_eq!(err.kind, ErrorKind::BadInput);
    assert_eq!(err.kind.status_code(), 400);
    assert_eq!(err.message, "Category name cannot be empty");
}

#[test]
fn test_validate_category_name_whitespace_only() {
    let err = validate_category_name("   ").unwrap_err();
    assert_eq!(err.kind, ErrorKind::BadInput);
    assert_eq!(err.kind.status_code(), 400);
    assert_eq!(err.message, "Category name cannot be empty");
}

#[test]
fn test_validate_category_name_too_long() {
    let long_name = "a".repeat(101);
    let err = validate_category_name(&long_name).unwrap_err();
    assert_eq!(err.kind, ErrorKind::BadInput);
    assert_eq!(err.kind.status_code(), 400);
    assert!(err.message.contains("must be less than"));
    assert_eq!(err.message, "Category name must be less than 100 characters");
}

#[test]
fn test_validate_category_not_in_use_with_records() {
    let mut store = Store::new();
    add_category(&mut store, "50", "Used Category");
    add_record(&mut store, "r1", "Test Record", 25.50, "50", 1234567890);
    let err = validate_category_not_in_use(&store, "50").unwrap_err();
    assert_eq!(err.kind, ErrorKind::Conflict);
    assert_eq!(err.message, "Cannot delete category: it has associated records");
}

#[test]
fn test_validate_category_not_in_use_without_records() {
    let mut store = Store::new();
    add_category(&mut store, "60", "Unused Category");
    assert!(validate_category_not_in_use(&store, "60").is_ok());
}

#[test]
fn test_category_update_database_operations() {
    let mut store = Store::new();
    add_category(&mut store, "c1", "Original Name");
    let payload = UpdateCategoryPayload { name: Some("Updated Name".to_string()) };
    let updated = update_category(&mut store, "c1", &payload).expect("update should succeed");
    assert_eq!(updated.id, "c1");
    assert_eq!(updated.name, "Updated Name");
    let listed = list_all(&store);
    assert_eq!(listed.len(), 1);
    assert_eq!(listed[0].name, "Updated Name");
}

#[test]
fn test_category_update_nonexistent() {
    let mut store = Store::new();
    let payload = UpdateCategoryPayload { name: Some("New Name".to_string()) };
    let err = update_category(&mut store, "missing", &payload).unwrap_err();
    assert_eq!(err.kind, ErrorKind::NotFound);
}

#[test]
fn test_category_duplicate_name_detection() {
    let mut store = Store::new();
    add_category(&mut store, "c1", "Category One");
    add_category(&mut store, "c2", "Category Two");
    let err = create_category_with(&mut store, "CATEGORY ONE", "c3".to_string()).unwrap_err();
    assert_eq!(err.kind, ErrorKind::Conflict);
    let payload = UpdateCategoryPayload { name: Some("CATEGORY ONE".to_string()) };
    let err = update_category(&mut store, "c2", &payload).unwrap_err();
    assert_eq!(err.kind, ErrorKind::Conflict);
}

#[test]
fn test_category_same_name_update_allowed() {
    let mut store = Store::new();
    add_category(&mut store, "c1", "Category Name");
    let payload = UpdateCategoryPayload { name: Some("Category Name".to_string()) };
    let updated = update_category(&mut store, "c1", &payload).expect("same-name update is allowed");
    assert_eq!(updated.name, "Category Name");
}

#[test]
fn test_category_delete_database_operations() {
    let mut store = Store::new();
    add_category(&mut store, "c1", "Test Category");
    assert!(delete_category(&mut store, "c1").is_ok());
    assert_eq!(list_all(&store).len(), 0);
    assert!(validate_category_exists(&store, "c1").is_err());
}

#[test]
fn test_category_delete_nonexistent() {
    let mut store = Store::new();
    let err = delete_category(&mut store, "missing").unwrap_err();
    assert_eq!(err.kind, ErrorKind::NotFound);
}

#[test]
fn test_category_delete_preserves_others() {
    let mut store = Store::new();
    add_category(&mut store, "c1", "Category 1");
    add_category(&mut store, "c2", "Category 2");
    add_category(&mut store, "c3", "Category 3");
    delete_category(&mut store, "c2").expect("delete should succeed");
    let listed = list_all(&store);
    assert_eq!(listed.len(), 2);
    assert_eq!(listed[0].name, "Category 1");
    assert_eq!(listed[1].name, "Category 3");
    assert!(validate_category_exists(&store, "c2").is_err());
}

#[test]
fn test_category_existence_check() {
    let mut store = Store::new();
    add_category(&mut store, "c1", "Test Category");
    assert!(validate_category_exists(&store, "c1").is_ok());
    assert!(validate_category_exists(&store, "absent").is_err());
}

#[test]
fn test_referential_integrity_record_count() {
    let mut store = Store::new();
    add_category(&mut store, "100", "Category with Records");
    add_record(&mut store, "r1", "Record 1", 10.0, "100", 1234567890);
    add_record(&mut store, "r2", "Record 2", 20.0, "100", 1234567891);
    let err = delete_category(&mut store, "100").unwrap_err();
    assert_eq!(err.kind, ErrorKind::Conflict);
}

#[test]
fn test_category_after_record_deletion() {
    let mut store = Store::new();
    add_category(&mut store, "75", "Category");
    add_record(&mut store, "r1", "Test Record", 30.0, "75", 1234567890);
    let err = delete_category(&mut store, "75").unwrap_err();
    assert_eq!(err.kind, ErrorKind::Conflict);
    delete_record(&mut store, "r1").expect("record delete should succeed");
    assert!(validate_category_not_in_use(&store, "75").is_ok());
    assert!(delete_category(&mut store, "75").is_ok());
}

#[test]
fn case_different_create_conflicts() {
    let mut store = Store::new();
    create_category_with(&mut store, "Food", "c1".to_string()).expect("first create succeeds");
    let err = create_category_with(&mut store, "food", "c2".to_string()).unwrap_err();
    assert_eq!(err.kind, ErrorKind::Conflict);
    assert_eq!(err.kind.status_code(), 409);
    assert_eq!(err.message, "Category name already exists (case-insensitive)");
}

#[test]
fn colliding_category_id_is_internal_error() {
    let mut store = Store::new();
    create_category_with(&mut store, "First", "same-id".to_string()).expect("first create");
    let err = create_category_with(&mut store, "Second", "same-id".to_string()).unwrap_err();
    assert_eq!(err.kind, ErrorKind::Internal);
    assert_eq!(err.kind.status_code(), 500);
    assert_eq!(err.message, "Database error: category creation failed");
    assert_eq!(list_all(&store).len(), 1);
}

#[test]
fn create_trims_category_name() {
    let mut store = Store::new();
    let cat = create_category_with(&mut store, "  Groceries  ", "c1".to_string())
        .expect("create should succeed");
    assert_eq!(cat.name, "Groceries");
}

#[test]
fn listing_sorts_searches_and_paginates() {
    let mut store = Store::new();
    add_category(&mut store, "c1", "Travel");
    add_category(&mut store, "c2", "Food");
    add_category(&mut store, "c3", "Fitness");
    add_category(&mut store, "c4", "Rent");
    let all = list_all(&store);
    let names: Vec<&str> = all.iter().map(|c| c.name.as_str()).collect();
    assert_eq!(names, vec!["Fitness", "Food", "Rent", "Travel"]);

    let query = GetCategoriesQuery { limit: Some(2), offset: Some(1), search: None };
    let resp = get_categories(&store, &query).expect("listing should succeed");
    assert_eq!(resp.total_count, 4);
    assert_eq!(resp.limit, 2);
    assert_eq!(resp.offset, 1);
    let names: Vec<&str> = resp.categories.iter().map(|c| c.name.as_str()).collect();
    assert_eq!(names, vec!["Food", "Rent"]);

    let query = GetCategoriesQuery { limit: None, offset: None, search: Some("fo".to_string()) };
    let resp = get_categories(&store, &query).expect("search should succeed");
    assert_eq!(resp.total_count, 1);
    assert_eq!(resp.categories.len(), 1);
    assert_eq!(resp.categories[0].name, "Food");
}

#[test]
fn listing_rejects_bad_paging() {
    let store = Store::new();
    let query = GetCategoriesQuery { limit: Some(0), offset: None, search: None };
    let err = get_categories(&store, &query).unwrap_err();
    assert_eq!(err.kind, ErrorKind::BadInput);
    assert_eq!(err.message, "Limit must be greater than 0");
    let query = GetCategoriesQuery { limit: Some(1001), offset: None, search: None };
    let err = get_categories(&store, &query).unwrap_err();
    assert_eq!(err.message, "Limit cannot exceed 1000");
    let query = GetCategoriesQuery { limit: None, offset: Some(1_000_001), search: None };
    let err = get_categories(&store, &query).unwrap_err();
    assert_eq!(err.message, "Offset cannot exceed 1000000");
    let query = GetCategoriesQuery { limit: None, offset: None, search: Some("s".repeat(101)) };
    let err = get_categories(&store, &query).unwrap_err();
    assert_eq!(err.message, "Search term must be less than 100 characters");
}
