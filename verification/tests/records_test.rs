use budget::categories::create_category_with;
use budget::errors::ErrorKind;
use budget::models::{CreateRecordPayload, GetRecordsQuery, UpdateRecordPayload};
use budget::records::{
    create_record_with, find_record, get_records, get_records_at, update_record,
};
use budget::store::Store;

fn setup_store(category_id: &str) -> Store {
    let mut store = Store::new();
    create_category_with(&mut store, category_id, category_id.to_string())
        .expect("category creation should succeed");
    store
}

fn add_record(store: &mut Store, id: &str, name: &str, amount: f64, category_id: &str, ts: i64) {
    let payload = CreateRecordPayload {
        name: name.to_string(),
        amount: amount.to_bits(),
        category_id: category_id.to_string(),
    };
    create_record_with(store, &payload, id.to_string(), ts)
        .expect("record creation should succeed");
}

fn no_update() -> UpdateRecordPayload {
    UpdateRecordPayload { name: None, amount: None, category_id: None, timestamp: None }
}

fn three_records() -> Store {
    let mut store = setup_store("test");
    add_record(&mut store, "old", "Old Record", 10.0, "test", 10);
    add_record(&mut store, "mid", "Middle Record", 15.0, "test", 15);
    add_record(&mut store, "new", "New Record", 25.0, "test", 25);
    store
}

fn query(start: Option<i64>, end: Option<i64>, limit: Option<u32>) -> GetRecordsQuery {
    GetRecordsQuery { start_time: start, end_time: end, limit }
}

#[test]
fn empty_database() {
    let store = setup_store("test");
    let resp = get_records(&store, &query(None, None, None));
    assert_eq!(resp.records.len(), 0);
    assert_eq!(resp.total_count, 0);
}

#[test]
fn get_all_records() {
    let store = three_records();
    let resp = get_records_at(&store, &query(None, None, None), 100);
    assert_eq!(resp.total_count, 3);
    assert_eq!(resp.records.len(), 3);
    assert_eq!(resp.records[0].name, "New Record");
    assert_eq!(resp.records[1].name, "Middle Record");
    assert_eq!(resp.records[2].name, "Old Record");
    assert_eq!(resp.records[0].amount, 25.0f64.to_bits());
}

#[test]
fn time_range_filtering_start_only() {
    let store = three_records();
    let resp = get_records_at(&store, &query(Some(12), None, None), 100);
    assert_eq!(resp.total_count, 2);
    assert_eq!(resp.records.len(), 2);
    assert_eq!(resp.records[0].name, "New Record");
    assert_eq!(resp.records[1].name, "Middle Record");
}

#[test]
fn time_range_filtering_end_only() {
    let store = three_records();
    let resp = get_records(&store, &query(None, Some(20), None));
    assert_eq!(resp.total_count, 2);
    assert_eq!(resp.records.len(), 2);
    assert_eq!(resp.records[0].name, "Middle Record");
    assert_eq!(resp.records[1].name, "Old Record");
}

#[test]
fn time_range_filtering_both() {
    let store = three_records();
    let resp = get_records(&store, &query(Some(12), Some(20), Some(50)));
    assert_eq!(resp.total_count, 1);
    assert_eq!(resp.records.len(), 1);
    assert_eq!(resp.records[0].name, "Middle Record");
}

#[test]
fn limit_functionality() {
    let store = three_records();
    let resp = get_records_at(&store, &query(None, None, Some(2)), 100);
    assert_eq!(resp.total_count, 3);
    assert_eq!(resp.records.len(), 2);
    assert_eq!(resp.records[0].name, "New Record");
    assert_eq!(resp.records[1].name, "Middle Record");
}

#[test]
fn limit_with_time_range() {
    let mut store = setup_store("test");
    let base: i64 = 1700000000;
    for i in 0..5i64 {
        add_record(
            &mut store,
            &format!("r{}", i),
            &format!("Record {}", i),
            10.0 + i as f64,
            "test",
            base + i * 100,
        );
    }
    let resp = get_records(&store, &query(Some(base + 100), Some(base + 500), Some(3)));
    assert_eq!(resp.total_count, 4);
    assert_eq!(resp.records.len(), 3);
    assert_eq!(resp.records[0].name, "Record 4");
    assert_eq!(resp.records[1].name, "Record 3");
    assert_eq!(resp.records[2].name, "Record 2");
}

#[test]
fn default_limit() {
    let store = three_records();
    let resp = get_records_at(&store, &query(None, None, None), 100);
    assert_eq!(resp.total_count, 3);
    assert_eq!(resp.records.len(), 3);
}

#[test]
fn ordering_consistency() {
    let mut store = setup_store("test");
    add_record(&mut store, "a", "First", 1.0, "test", 10);
    add_record(&mut store, "b", "Second", 2.0, "test", 20);
    add_record(&mut store, "c", "Third", 3.0, "test", 30);
    let resp = get_records_at(&store, &query(None, None, None), 1700000000);
    assert_eq!(resp.total_count, 3);
    assert_eq!(resp.records[0].name, "Third");
    assert_eq!(resp.records[1].name, "Second");
    assert_eq!(resp.records[2].name, "First");
}

#[test]
fn edge_case_no_results_in_range() {
    let store = three_records();
    let resp = get_records(&store, &query(Some(100), Some(200), None));
    assert_eq!(resp.records.len(), 0);
    assert_eq!(resp.total_count, 0);
}

#[test]
fn single_record_in_range() {
    let mut store = setup_store("unique");
    add_record(&mut store, "only", "Only Record", 42.0, "unique", 1700000000);
    let resp = get_records(&store, &query(Some(1700000000), Some(1700000000), None));
    assert_eq!(resp.total_count, 1);
    assert_eq!(resp.records.len(), 1);
    assert_eq!(resp.records[0].name, "Only Record");
    assert_eq!(resp.records[0].timestamp, 1700000000);
}

#[test]
fn category_preservation() {
    let mut store = Store::new();
    create_category_with(&mut store, "food", "food".to_string()).expect("create food");
    create_category_with(&mut store, "transport", "transport".to_string())
        .expect("create transport");
    add_record(&mut store, "r1", "Food Expense", 12.0, "food", 1700000000);
    add_record(&mut store, "r2", "Gas Expense", 45.0, "transport", 1700000010);
    let resp = get_records(&store, &query(None, None, Some(10)));
    assert_eq!(resp.total_count, 2);
    assert_eq!(resp.records[0].name, "Gas Expense");
    assert_eq!(resp.records[0].category_id, "transport");
    assert_eq!(resp.records[1].name, "Food Expense");
    assert_eq!(resp.records[1].category_id, "food");
}

#[test]
fn update_record_single_field_name() {
    let mut store = setup_store("test_category");
    add_record(&mut store, "25", "Original Name", 50.0, "test_category", 1234567890);
    let payload = UpdateRecordPayload {
        name: Some("Updated Name Only".to_string()),
        ..no_update()
    };
    let updated = update_record(&mut store, "25", &payload).expect("Failed to update record name");
    assert_eq!(updated.name, "Updated Name Only");
    assert_eq!(updated.amount, 50.0f64.to_bits());
    assert_eq!(updated.category_id, "test_category");
    assert_eq!(updated.timestamp, 1234567890);
    let fetched = find_record(&store, "25").expect("record should still exist");
    assert_eq!(fetched.name, "Updated Name Only");
    assert_eq!(fetched.amount, 50.0f64.to_bits());
    assert_eq!(fetched.category_id, "test_category");
    assert_eq!(fetched.timestamp, 1234567890);
}

#[test]
fn update_record_single_field_amount() {
    let mut store = setup_store("food");
    add_record(&mut store, "15", "Test Record", 50.0, "food", 1234567890);
    let payload = UpdateRecordPayload { amount: Some(99.0f64.to_bits()), ..no_update() };
    let updated = update_record(&mut store, "15", &payload)
        .expect("Failed to update record amount");
    assert_eq!(updated.amount, 99.0f64.to_bits());
    assert_eq!(updated.name, "Test Record");
    assert_eq!(updated.category_id, "food");
    assert_eq!(updated.timestamp, 1234567890);
    let fetched = find_record(&store, "15").expect("record should still exist");
    assert_eq!(fetched.amount, 99.0f64.to_bits());
    assert_eq!(fetched.name, "Test Record");
}

#[test]
fn update_record_single_field_category() {
    let mut store = setup_store("entertainment");
    create_category_with(&mut store, "updated_category", "updated_category".to_string())
        .expect("create second category");
    add_record(&mut store, "33", "Category Test", 33.0, "entertainment", 1234567890);
    let payload = UpdateRecordPayload {
        category_id: Some("updated_category".to_string()),
        ..no_update()
    };
    let updated = update_record(&mut store, "33", &payload)
        .expect("Failed to update record category");
    assert_eq!(updated.category_id, "updated_category");
    assert_eq!(updated.name, "Category Test");
    assert_eq!(updated.amount, 33.0f64.to_bits());
    assert_eq!(updated.timestamp, 1234567890);
}

#[test]
fn update_record_single_field_timestamp() {
    let mut store = setup_store("transport");
    add_record(&mut store, "77", "Timestamp Test", 77.0, "transport", 1234567890);
    let payload = UpdateRecordPayload { timestamp: Some(500), ..no_update() };
    let updated = update_record(&mut store, "77", &payload)
        .expect("Failed to update record timestamp");
    assert_eq!(updated.timestamp, 500);
    assert_eq!(updated.name, "Timestamp Test");
    assert_eq!(updated.amount, 77.0f64.to_bits());
    assert_eq!(updated.category_id, "transport");
}

#[test]
fn update_record_multiple_fields() {
    let mut store = setup_store("original_category");
    add_record(&mut store, "10", "Multiple Fields Test", 55.0, "original_category", 1234567890);
    let payload = UpdateRecordPayload {
        name: Some("Updated Multiple Fields".to_string()),
        amount: Some(88.0f64.to_bits()),
        ..no_update()
    };
    let updated = update_record(&mut store, "10", &payload)
        .expect("Failed to update multiple record fields");
    assert_eq!(updated.name, "Updated Multiple Fields");
    assert_eq!(updated.amount, 88.0f64.to_bits());
    assert_eq!(updated.category_id, "original_category");
    assert_eq!(updated.timestamp, 1234567890);
}

#[test]
fn update_record_all_fields() {
    let mut store = setup_store("original_all");
    create_category_with(&mut store, "updated_all", "updated_all".to_string())
        .expect("create second category");
    add_record(&mut store, "20", "All Fields Test", 88.0, "original_all", 1234567890);
    let payload = UpdateRecordPayload {
        name: Some("All Fields Updated".to_string()),
        amount: Some(1000.0f64.to_bits()),
        category_id: Some("updated_all".to_string()),
        timestamp: Some(1000),
    };
    let updated = update_record(&mut store, "20", &payload)
        .expect("Failed to update all record fields");
    assert_eq!(updated.name, "All Fields Updated");
    assert_eq!(updated.amount, 1000.0f64.to_bits());
    assert_eq!(updated.category_id, "updated_all");
    assert_eq!(updated.timestamp, 1000);
}

#[test]
fn update_record_empty_payload() {
    let mut store = setup_store("test_category");
    add_record(&mut store, "30", "Empty Payload Test", 30.0, "test_category", 1234567890);
    let err = update_record(&mut store, "30", &no_update()).unwrap_err();
    assert_eq!(err.kind, ErrorKind::BadInput);
    assert_eq!(err.message, "At least one field must be provided for update");
}

#[test]
fn update_record_empty_name() {
    let mut store = setup_store("test_category");
    add_record(&mut store, "40", "Empty Name Test", 40.0, "test_category", 1234567890);
    let payload = UpdateRecordPayload { name: Some("".to_string()), ..no_update() };
    let err = update_record(&mut store, "40", &payload).unwrap_err();
    assert_eq!(err.kind, ErrorKind::BadInput);
    assert_eq!(err.message, "Record name cannot be empty");
}

#[test]
fn update_record_zero_amount() {
    let mut store = setup_store("test_category");
    add_record(&mut store, "41", "Zero Amount Test", 40.0, "test_category", 1234567890);
    let payload = UpdateRecordPayload { amount: Some(0.0f64.to_bits()), ..no_update() };
    let err = update_record(&mut store, "41", &payload).unwrap_err();
    assert_eq!(err.kind, ErrorKind::BadInput);
    assert_eq!(err.message, "Record amount cannot be zero");
}

#[test]
fn update_record_empty_category() {
    let mut store = setup_store("test_category");
    add_record(&mut store, "42", "Empty Category Test", 40.0, "test_category", 1234567890);
    let payload = UpdateRecordPayload { category_id: Some("".to_string()), ..no_update() };
    let err = update_record(&mut store, "42", &payload).unwrap_err();
    assert_eq!(err.kind, ErrorKind::BadInput);
    assert_eq!(err.message, "Category ID cannot be empty");
}

#[test]
fn update_record_whitespace_only_name() {
    let mut store = setup_store("test_category");
    add_record(&mut store, "50", "Whitespace Test", 50.0, "test_category", 1234567890);
    let payload = UpdateRecordPayload { name: Some("   ".to_string()), ..no_update() };
    let err = update_record(&mut store, "50", &payload).unwrap_err();
    assert_eq!(err.message, "Record name cannot be empty");
    let payload = UpdateRecordPayload { name: Some(" \t \n ".to_string()), ..no_update() };
    let err = update_record(&mut store, "50", &payload).unwrap_err();
    assert_eq!(err.message, "Record name cannot be empty");
}

#[test]
fn update_record_max_name_length() {
    let mut store = setup_store("test_category");
    add_record(&mut store, "60", "Max Length Test", 60.0, "test_category", 1234567890);
    let max_name = "x".repeat(255);
    let payload = UpdateRecordPayload { name: Some(max_name.clone()), ..no_update() };
    let updated = update_record(&mut store, "60", &payload).expect("255 characters are accepted");
    assert_eq!(updated.name, max_name);
    assert_eq!(updated.name.chars().count(), 255);
}

#[test]
fn update_record_too_long_name() {
    let mut store = setup_store("test_category");
    add_record(&mut store, "70", "Too Long Test", 70.0, "test_category", 1234567890);
    let payload = UpdateRecordPayload { name: Some("x".repeat(256)), ..no_update() };
    let err = update_record(&mut store, "70", &payload).unwrap_err();
    assert_eq!(err.kind, ErrorKind::BadInput);
    assert_eq!(err.message, "Record name must be less than 255 characters");
}

#[test]
fn update_record_negative_amount() {
    let mut store = setup_store("test_category");
    add_record(&mut store, "80", "Negative Amount Test", 80.0, "test_category", 1234567890);
    let payload = UpdateRecordPayload { amount: Some((-25.0f64).to_bits()), ..no_update() };
    let updated = update_record(&mut store, "80", &payload).expect("negative amounts are allowed");
    assert_eq!(updated.amount, (-25.0f64).to_bits());
}

#[test]
fn update_record_nonexistent_record() {
    let mut store = setup_store("test_category");
    let payload = UpdateRecordPayload {
        name: Some("This should fail".to_string()),
        ..no_update()
    };
    let err = update_record(&mut store, "non-existent-record-id", &payload).unwrap_err();
    assert_eq!(err.kind, ErrorKind::NotFound);
    assert_eq!(err.message, "Record not found");
}

#[test]
fn update_record_preserves_unchanged_fields() {
    let mut store = setup_store("preserve_category");
    add_record(&mut store, "123", "Preserve Test", 100.0, "preserve_category", 999);
    let payload = UpdateRecordPayload {
        name: Some("Name Only Updated".to_string()),
        ..no_update()
    };
    let updated = update_record(&mut store, "123", &payload)
        .expect("Failed to update record with preserved fields");
    assert_eq!(updated.name, "Name Only Updated");
    assert_eq!(updated.amount, 100.0f64.to_bits());
    assert_eq!(updated.category_id, "preserve_category");
    assert_eq!(updated.timestamp, 999);
    let payload = UpdateRecordPayload { amount: Some(123.0f64.to_bits()), ..no_update() };
    let updated = update_record(&mut store, "123", &payload)
        .expect("Failed to update record amount with preserved fields");
    assert_eq!(updated.name, "Name Only Updated");
    assert_eq!(updated.amount, 123.0f64.to_bits());
    assert_eq!(updated.category_id, "preserve_category");
    assert_eq!(updated.timestamp, 999);
    let fetched = find_record(&store, "123").expect("record should still exist");
    assert_eq!(fetched.name, "Name Only Updated");
    assert_eq!(fetched.amount, 123.0f64.to_bits());
    assert_eq!(fetched.category_id, "preserve_category");
    assert_eq!(fetched.timestamp, 999);
}

#[test]
fn create_record_rejects_zero_amount() {
    let mut store = setup_store("test");
    let payload = CreateRecordPayload {
        name: "Zero".to_string(),
        amount: 0.0f64.to_bits(),
        category_id: "test".to_string(),
    };
    let err = create_record_with(&mut store, &payload, "z".to_string(), 1).unwrap_err();
    assert_eq!(err.kind, ErrorKind::BadInput);
    assert_eq!(err.message, "Record amount cannot be zero");
    let payload = CreateRecordPayload {
        name: "Negative Zero".to_string(),
        amount: (-0.0f64).to_bits(),
        category_id: "test".to_string(),
    };
    let err = create_record_with(&mut store, &payload, "z".to_string(), 1).unwrap_err();
    assert_eq!(err.kind, ErrorKind::BadInput);
    assert_eq!(err.message, "Record amount cannot be zero");
}

#[test]
fn create_record_rejects_missing_category() {
    let mut store = setup_store("test");
    let payload = CreateRecordPayload {
        name: "Orphan".to_string(),
        amount: 5.0f64.to_bits(),
        category_id: "absent".to_string(),
    };
    let err = create_record_with(&mut store, &payload, "o".to_string(), 1).unwrap_err();
    assert_eq!(err.kind, ErrorKind::BadInput);
    assert_eq!(err.message, "Category does not exist");
}
