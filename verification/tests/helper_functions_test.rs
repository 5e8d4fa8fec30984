use budget::categories::create_category_with;
use budget::models::{CreateRecordPayload, GetRecordsQuery};
use budget::records::{create_record, create_record_with, find_record, get_records};
use budget::store::Store;
use budget::wrappers::now_timestamp;

fn store_with(category_id: &str) -> Store {
    let mut store = Store::new();
    create_category_with(&mut store, category_id, category_id.to_string())
        .expect("category creation should succeed");
    store
}

fn insert(store: &mut Store, id: &str, name: &str, amount: f64, category_id: &str, ts: i64) {
    let payload = CreateRecordPayload {
        name: name.to_string(),
        amount: amount.to_bits(),
        category_id: category_id.to_string(),
    };
    create_record_with(store, &payload, id.to_string(), ts)
        .expect("record creation should succeed");
}

#[test]
fn extract_record_from_row_success() {
    let mut store = store_with("test_category");
    insert(&mut store, "25", "Test Record", 42.5, "test_category", 1234567890);
    let rec = find_record(&store, "25").expect("record should be found");
    assert_eq!(rec.id, "25");
    assert_eq!(rec.name, "Test Record");
    assert_eq!(rec.amount, 42.5f64.to_bits());
    assert_eq!(rec.category_id, "test_category");
    assert_eq!(rec.timestamp, 1234567890);
}

#[test]
fn extract_record_with_special_characters() {
    let mut store = store_with("special-category_123");
    let name = "Test Record with émojis 🎉 and symbols @#$%";
    insert(&mut store, "99", name, 7.25, "special-category_123", 1234567890);
    let rec = find_record(&store, "99").expect("record should be found");
    assert_eq!(rec.name, name);
    assert_eq!(rec.category_id, "special-category_123");
    assert_eq!(rec.amount, 7.25f64.to_bits());
}

#[test]
fn extract_record_with_extreme_values() {
    let mut store = store_with("test");
    insert(&mut store, "big", "Large Amount", 999999.0, "test", 50);
    insert(&mut store, "small", "Small Amount", 0.01, "test", 51);
    insert(&mut store, "neg", "Negative Amount", -12345.67, "test", 52);
    assert_eq!(find_record(&store, "big").unwrap().amount, 999999.0f64.to_bits());
    assert_eq!(find_record(&store, "small").unwrap().amount, 0.01f64.to_bits());
    assert_eq!(find_record(&store, "neg").unwrap().amount, (-12345.67f64).to_bits());
}

#[test]
fn extract_record_with_long_strings() {
    let mut store = store_with("c");
    let long_name = "n".repeat(200);
    let long_cat = format!("category_{}", "x".repeat(20));
    create_category_with(&mut store, &long_cat, long_cat.clone())
        .expect("long category name accepted");
    insert(&mut store, "long", &long_name, 42.0, &long_cat, 50);
    let rec = find_record(&store, "long").expect("record should be found");
    assert_eq!(rec.name, long_name);
    assert_eq!(rec.category_id, long_cat);
    assert_eq!(rec.amount, 42.0f64.to_bits());
}

#[test]
fn default_time_behavior() {
    let mut store = store_with("test");
    let payload = CreateRecordPayload {
        name: "Current Record".to_string(),
        amount: 50.0f64.to_bits(),
        category_id: "test".to_string(),
    };
    let before = now_timestamp();
    let rec = create_record(&mut store, &payload).expect("record creation should succeed");
    let after = now_timestamp();
    assert!(before <= rec.timestamp && rec.timestamp <= after);
    let resp = get_records(&store, &GetRecordsQuery { start_time: None, end_time: None, limit: None });
    assert_eq!(resp.total_count, 1);
    assert_eq!(resp.records.len(), 1);
    assert_eq!(resp.records[0].name, "Current Record");
}

#[test]
fn limit_default_behavior() {
    let mut store = store_with("test");
    for i in 0..20i64 {
        insert(&mut store, &format!("r{}", i), &format!("Record {}", i), 10.0, "test", i);
    }
    let resp = get_records(&store, &GetRecordsQuery { start_time: None, end_time: None, limit: None });
    assert_eq!(resp.total_count, 20);
    assert_eq!(resp.records.len(), 20);
    let resp = get_records(
        &store,
        &GetRecordsQuery { start_time: None, end_time: None, limit: Some(10) },
    );
    assert_eq!(resp.total_count, 20);
    assert_eq!(resp.records.len(), 10);
}

#[test]
fn database_timestamp_precision() {
    let mut store = store_with("test");
    for i in 0..3i64 {
        insert(&mut store, &format!("r{}", i), &format!("Record {}", i), 10.0, "test", 100 + i);
    }
    let resp = get_records(&store, &GetRecordsQuery { start_time: None, end_time: None, limit: None });
    assert_eq!(resp.records[0].name, "Record 2");
    assert_eq!(resp.records[1].name, "Record 1");
    assert_eq!(resp.records[2].name, "Record 0");
}
