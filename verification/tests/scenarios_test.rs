use budget::auth::{get_current_user, login, register, IdentityStore};
use budget::categories::{create_category, create_category_with, delete_category};
use budget::errors::ErrorKind;
use budget::models::{
    CreateCategoryPayload, CreateRecordPayload, GetRecordsQuery, LoginPayload, RegisterPayload,
};
use budget::records::{create_record, create_record_with, delete_record, find_record, get_records};
use budget::store::Store;

#[test]
fn full_budget_session() {
    // Register and log in.
    let mut ids = IdentityStore::new();
    let registered = register(
        &mut ids,
        &RegisterPayload {
            username: "alice".to_string(),
            password: "password123".to_string(),
        },
    )
    .expect("registration succeeds");
    assert_eq!(registered.username, "alice");
    let logged_in = login(
        &ids,
        &LoginPayload { username: "alice".to_string(), password: "password123".to_string() },
    )
    .expect("login succeeds");
    assert_eq!(logged_in.id, registered.id);
    let current = get_current_user(Some(logged_in.id.clone()), Some(logged_in.username.clone()))
        .expect("session resolves");
    assert_eq!(current.username, "alice");

    // Work in the user's own store.
    let mut store = Store::new();
    let food = create_category(&mut store, &CreateCategoryPayload { name: "Food".to_string() })
        .expect("category creation succeeds");
    assert_eq!(food.name, "Food");
    assert_eq!(food.id.len(), 36);

    let lunch = create_record(
        &mut store,
        &CreateRecordPayload {
            name: "Lunch".to_string(),
            amount: 12.5f64.to_bits(),
            category_id: food.id.clone(),
        },
    )
    .expect("record creation succeeds");
    assert_eq!(lunch.name, "Lunch");
    assert_eq!(lunch.amount, 12.5f64.to_bits());
    assert_eq!(lunch.category_id, food.id);

    let resp = get_records(&store, &GetRecordsQuery { start_time: None, end_time: None, limit: None });
    assert_eq!(resp.total_count, 1);
    assert_eq!(resp.records.len(), 1);
    assert_eq!(resp.records[0].name, "Lunch");
}

#[test]
fn referential_guard_lifecycle() {
    let mut store = Store::new();
    create_category_with(&mut store, "Bills", "bills".to_string()).expect("create category");
    let payload = CreateRecordPayload {
        name: "Electricity".to_string(),
        amount: 80.0f64.to_bits(),
        category_id: "bills".to_string(),
    };
    create_record_with(&mut store, &payload, "e1".to_string(), 100).expect("create record");
    let payload = CreateRecordPayload {
        name: "Water".to_string(),
        amount: 30.0f64.to_bits(),
        category_id: "bills".to_string(),
    };
    create_record_with(&mut store, &payload, "w1".to_string(), 101).expect("create record");

    let err = delete_category(&mut store, "bills").unwrap_err();
    assert_eq!(err.kind, ErrorKind::Conflict);
    delete_record(&mut store, "e1").expect("delete first record");
    let err = delete_category(&mut store, "bills").unwrap_err();
    assert_eq!(err.kind, ErrorKind::Conflict);
    delete_record(&mut store, "w1").expect("delete second record");
    delete_category(&mut store, "bills").expect("delete now succeeds");
}

#[test]
fn unicode_round_trip() {
    let mut store = Store::new();
    create_category_with(&mut store, "Fête 🎈", "cat-éàü_🎈".to_string())
        .expect("unicode category id and name accepted");
    let payload = CreateRecordPayload {
        name: "Crème brûlée 🍮 @#$%".to_string(),
        amount: 9.75f64.to_bits(),
        category_id: "cat-éàü_🎈".to_string(),
    };
    let created = create_record_with(&mut store, &payload, "rec-💸".to_string(), 7).unwrap();
    assert_eq!(created.name, "Crème brûlée 🍮 @#$%");
    let fetched = find_record(&store, "rec-💸").expect("record is found by id");
    assert_eq!(fetched.id, "rec-💸");
    assert_eq!(fetched.name, "Crème brûlée 🍮 @#$%");
    assert_eq!(fetched.amount, 9.75f64.to_bits());
    assert_eq!(fetched.category_id, "cat-éàü_🎈");
    assert_eq!(fetched.timestamp, 7);
}

#[test]
fn most_recent_records_win_under_limit() {
    let mut store = Store::new();
    create_category_with(&mut store, "c", "c".to_string()).expect("create category");
    for (id, ts) in [("a", 5i64), ("b", 50), ("c", 20), ("d", 40), ("e", 30)] {
        let payload = CreateRecordPayload {
            name: format!("rec-{}", id),
            amount: 1.0f64.to_bits(),
            category_id: "c".to_string(),
        };
        create_record_with(&mut store, &payload, id.to_string(), ts).expect("create record");
    }
    let resp = get_records(
        &store,
        &GetRecordsQuery { start_time: None, end_time: Some(60), limit: Some(2) },
    );
    assert_eq!(resp.total_count, 5);
    assert_eq!(resp.records.len(), 2);
    assert_eq!(resp.records[0].timestamp, 50);
    assert_eq!(resp.records[1].timestamp, 40);
}

#[test]
fn same_name_creation_race_resolves_once() {
    // The sequential core of two simultaneous same-name creations under the
    // writer lock: whichever lands second observes the first and conflicts.
    let mut store = Store::new();
    let first = create_category_with(&mut store, "Food", "req-1".to_string());
    let second = create_category_with(&mut store, "Food", "req-2".to_string());
    assert!(first.is_ok());
    let err = second.unwrap_err();
    assert_eq!(err.kind, ErrorKind::Conflict);
    assert_eq!(err.kind.status_code(), 409);
}
