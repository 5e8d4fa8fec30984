//! The data model: users, categories, spending records, and the request and
//! response shapes of the service, together with their mathematical views.
//!
//! A record's `amount` is carried as the 64 bits of its IEEE-754 double
//! representation, so that values survive a round trip byte-identically and
//! the only rule the service imposes on them — "not zero" — can be stated
//! exactly.
use vstd::prelude::*;

verus! {

/// A stored identity: an opaque id, the unique username, and the one-way
/// credential hash.
#[derive(Debug)]
pub struct User {
    pub id: String,
    pub username: String,
    pub password_hash: String,
}

/// The view of a stored identity.
pub struct UserView {
    pub id: Seq<char>,
    pub username: Seq<char>,
    pub password_hash: Seq<char>,
}

impl View for User {
    type V = UserView;

    open spec fn view(&self) -> UserView {
        UserView { id: self.id@, username: self.username@, password_hash: self.password_hash@ }
    }
}

/// A registration request.
#[derive(Debug)]
pub struct RegisterPayload {
    pub username: String,
    pub password: String,
}

/// The part of a user that is handed back to clients: no credential hash.
#[derive(Debug)]
pub struct PublicUser {
    pub id: String,
    pub username: String,
}

/// A login request.
#[derive(Debug)]
pub struct LoginPayload {
    pub username: String,
    pub password: String,
}

/// A spending category: an opaque id and a name that is unique within its
/// store up to ASCII letter case.
#[derive(Debug)]
pub struct Category {
    pub id: String,
    pub name: String,
}

/// The view of a category.
pub struct CategoryView {
    pub id: Seq<char>,
    pub name: Seq<char>,
}

impl View for Category {
    type V = CategoryView;

    open spec fn view(&self) -> CategoryView {
        CategoryView { id: self.id@, name: self.name@ }
    }
}

/// A spending record. `amount` holds the bits of a non-zero double;
/// `category_id` references a category of the same store; `timestamp` is in
/// whole seconds since the Unix epoch.
#[derive(Debug)]
pub struct Record {
    pub id: String,
    pub name: String,
    pub amount: u64,
    pub category_id: String,
    pub timestamp: i64,
}

/// The view of a record.
pub struct RecordView {
    pub id: Seq<char>,
    pub name: Seq<char>,
    pub amount: u64,
    pub category_id: Seq<char>,
    pub timestamp: i64,
}

impl View for Record {
    type V = RecordView;

    open spec fn view(&self) -> RecordView {
        RecordView {
            id: self.id@,
            name: self.name@,
            amount: self.amount,
            category_id: self.category_id@,
            timestamp: self.timestamp,
        }
    }
}

/// The bit patterns of positive and negative floating-point zero: the two
/// amounts the service rejects.
pub open spec fn amount_is_zero(bits: u64) -> bool {
    bits == 0u64 || bits == 0x8000000000000000u64
}

/// A request to create a record.
#[derive(Debug)]
pub struct CreateRecordPayload {
    pub name: String,
    pub amount: u64,
    pub category_id: String,
}

/// A partial update of a record: unset fields keep their stored value.
#[derive(Debug)]
pub struct UpdateRecordPayload {
    pub name: Option<String>,
    pub amount: Option<u64>,
    pub category_id: Option<String>,
    pub timestamp: Option<i64>,
}

/// The filter of a record listing: an inclusive time range and a cap.
#[derive(Debug)]
pub struct GetRecordsQuery {
    pub start_time: Option<i64>,
    pub end_time: Option<i64>,
    pub limit: Option<u32>,
}

/// The answer of a record listing: the capped page and the full match count.
#[derive(Debug)]
pub struct GetRecordsResponse {
    pub records: Vec<Record>,
    pub total_count: u32,
}

/// A request to create a category.
#[derive(Debug)]
pub struct CreateCategoryPayload {
    pub name: String,
}

/// A request to rename a category.
#[derive(Debug)]
pub struct UpdateCategoryPayload {
    pub name: Option<String>,
}

/// The filter of a category listing: paging plus an optional search term.
#[derive(Debug)]
pub struct GetCategoriesQuery {
    pub limit: Option<u32>,
    pub offset: Option<u32>,
    pub search: Option<String>,
}

/// The answer of a category listing.
#[derive(Debug)]
pub struct GetCategoriesResponse {
    pub categories: Vec<Category>,
    pub total_count: u32,
    pub limit: u32,
    pub offset: u32,
}

} // verus!
