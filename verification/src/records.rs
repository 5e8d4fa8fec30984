//! The record service: create, list (time-range filter, newest first,
//! capped), partial update and delete, with category existence enforced on
//! create and update.
use vstd::prelude::*;

use crate::constants::{DEFAULT_RECORDS_LIMIT, MAX_CATEGORY_NAME_LENGTH, MAX_RECORD_NAME_LENGTH};
use crate::errors::{api_error, db_error_with_context, ApiError, ErrorKind};
use crate::models::{amount_is_zero, CreateRecordPayload, GetRecordsQuery, GetRecordsResponse,
    Record, RecordView, UpdateRecordPayload};
use crate::store::{find_category_index, find_record_index, has_cat_id, has_rec_id, page_seq,
    recs_view, store_wf, Store, StoreView};
use crate::text::{str_eq, trim_spec, trim_str};
use crate::utils::{string_length_ok, validate_string_length};
use crate::wrappers::{fresh_uuid, now_timestamp};

verus! {

/// Checks a record name: non-empty after trimming, at most 255 characters.
pub fn validate_record_name(name: &str) -> (r: Result<(), ApiError>)
    ensures
        r is Ok <==> string_length_ok(name@, MAX_RECORD_NAME_LENGTH as int),
        r matches Err(e) ==> e.kind == ErrorKind::BadInput,
        trim_spec(name@).len() == 0 ==> (r matches Err(e) && e.message@
            == "Record name cannot be empty"@),
        trim_spec(name@).len() > MAX_RECORD_NAME_LENGTH ==> (r matches Err(e) && e.message@
            == "Record name must be less than 255 characters"@),
{
    proof {
        reveal_strlit("Record name");
        reveal_strlit(" cannot be empty");
        reveal_strlit("Record name cannot be empty");
        assert("Record name"@ + " cannot be empty"@ =~= "Record name cannot be empty"@);
        reveal_strlit(" must be less than ");
        reveal_strlit(" characters");
        reveal_strlit("Record name must be less than 255 characters");
        assert(crate::text::dec_digits(2) =~= seq!['2']);
        assert(crate::text::dec_digits(25) =~= crate::text::dec_digits(2) + seq!['5']);
        assert(crate::text::dec_digits(255) =~= crate::text::dec_digits(25) + seq!['5']);
        assert("Record name"@ + " must be less than "@ + crate::text::dec_digits(
            MAX_RECORD_NAME_LENGTH as int,
        ) + " characters"@ =~= "Record name must be less than 255 characters"@);
    }
    validate_string_length(name, "Record name", MAX_RECORD_NAME_LENGTH)
}

/// Checks a record amount: zero is rejected, negative values are allowed.
pub fn validate_record_amount(amount: u64) -> (r: Result<(), ApiError>)
    ensures
        r is Ok <==> !amount_is_zero(amount),
        r matches Err(e) ==> e.kind == ErrorKind::BadInput && e.message@
            == "Record amount cannot be zero"@,
{
    if amount == 0u64 || amount == 0x8000000000000000u64 {
        Err(api_error(ErrorKind::BadInput, "Record amount cannot be zero"))
    } else {
        Ok(())
    }
}

/// Checks a category id carried by a record: non-empty after trimming, at
/// most 100 characters.
pub fn validate_category_id(category_id: &str) -> (r: Result<(), ApiError>)
    ensures
        r is Ok <==> string_length_ok(category_id@, MAX_CATEGORY_NAME_LENGTH as int),
        r matches Err(e) ==> e.kind == ErrorKind::BadInput,
        trim_spec(category_id@).len() == 0 ==> (r matches Err(e) && e.message@
            == "Category ID cannot be empty"@),
        trim_spec(category_id@).len() > MAX_CATEGORY_NAME_LENGTH ==> (r matches Err(e)
            && e.message@ == "Category ID must be less than 100 characters"@),
{
    proof {
        reveal_strlit("Category ID");
        reveal_strlit(" cannot be empty");
        reveal_strlit("Category ID cannot be empty");
        assert("Category ID"@ + " cannot be empty"@ =~= "Category ID cannot be empty"@);
        reveal_strlit(" must be less than ");
        reveal_strlit(" characters");
        reveal_strlit("Category ID must be less than 100 characters");
        assert(crate::text::dec_digits(1) =~= seq!['1']);
        assert(crate::text::dec_digits(10) =~= crate::text::dec_digits(1) + seq!['0']);
        assert(crate::text::dec_digits(100) =~= crate::text::dec_digits(10) + seq!['0']);
        assert("Category ID"@ + " must be less than "@ + crate::text::dec_digits(
            MAX_CATEGORY_NAME_LENGTH as int,
        ) + " characters"@ =~= "Category ID must be less than 100 characters"@);
    }
    validate_string_length(category_id, "Category ID", MAX_CATEGORY_NAME_LENGTH)
}

/// Succeeds exactly when the store holds a category with this id.
pub fn validate_category_exists(store: &Store, category_id: &str) -> (r: Result<(), ApiError>)
    ensures
        r is Ok <==> has_cat_id(store@.categories, category_id@),
        r matches Err(e) ==> e.kind == ErrorKind::BadInput && e.message@
            == "Category does not exist"@,
{
    match find_category_index(&store.categories, category_id) {
        Some(_) => Ok(()),
        None => Err(api_error(ErrorKind::BadInput, "Category does not exist")),
    }
}

/// A record falls in the inclusive time range.
pub open spec fn in_range(r: RecordView, start: i64, end: i64) -> bool {
    start <= r.timestamp && r.timestamp <= end
}

/// The records whose timestamp falls in the inclusive range, in their
/// original order.
pub open spec fn filter_by_range(s: Seq<RecordView>, start: i64, end: i64) -> Seq<RecordView>
    decreases s.len(),
{
    if s.len() == 0 {
        Seq::empty()
    } else {
        let rest = filter_by_range(s.drop_last(), start, end);
        if in_range(s.last(), start, end) {
            rest.push(s.last())
        } else {
            rest
        }
    }
}

/// Inserts a record into a sequence sorted newest first, keeping earlier
/// entries ahead of later ones when timestamps tie.
pub open spec fn insert_by_time_desc(s: Seq<RecordView>, r: RecordView) -> Seq<RecordView>
    decreases s.len(),
{
    if s.len() == 0 {
        seq![r]
    } else if s[0].timestamp >= r.timestamp {
        seq![s[0]] + insert_by_time_desc(s.drop_first(), r)
    } else {
        seq![r] + s
    }
}

/// The records rearranged newest first (stable).
pub open spec fn sort_by_time_desc(s: Seq<RecordView>) -> Seq<RecordView>
    decreases s.len(),
{
    if s.len() == 0 {
        Seq::empty()
    } else {
        insert_by_time_desc(sort_by_time_desc(s.drop_last()), s.last())
    }
}

/// What a record listing answers: the first `limit` of the matching records
/// sorted newest first, and the full matching count.
pub open spec fn records_listing(s: Seq<RecordView>, start: i64, end: i64, limit: int) -> (
    Seq<RecordView>,
    int,
) {
    let filtered = filter_by_range(s, start, end);
    (page_seq(sort_by_time_desc(filtered), 0, limit), filtered.len() as int)
}

/// The listing `resp_recs`/`total` is exactly what the store answers for
/// this range when the effective end of the window is `end`.
pub open spec fn records_answer(
    s: Seq<RecordView>,
    start: i64,
    limit: u32,
    resp_recs: Seq<RecordView>,
    total: u32,
    end: i64,
) -> bool {
    let listing = records_listing(s, start, end, limit as int);
    resp_recs == listing.0 && total == listing.1
}

/// The start of the window a listing uses: the requested one, or zero.
pub open spec fn start_or_zero(o: Option<i64>) -> i64 {
    match o {
        Some(s) => s,
        None => 0i64,
    }
}

/// The cap a record listing uses: the requested one, or the default.
pub open spec fn limit_or_default(o: Option<u32>) -> u32 {
    match o {
        Some(l) => l,
        None => DEFAULT_RECORDS_LIMIT,
    }
}

/// A successful partial update took the store from `old_s` to `new_s`: the
/// one record carrying `id` was replaced by `rec`, the merge of its stored
/// fields with the provided ones, and the categories are untouched.
pub open spec fn update_applied(
    old_s: StoreView,
    new_s: StoreView,
    p: UpdateRecordPayload,
    id: Seq<char>,
    rec: RecordView,
) -> bool {
    &&& (exists|i: int|
        0 <= i < old_s.records.len() && old_s.records[i].id == id && rec == merged_record(
            old_s.records[i],
            p,
        ) && new_s.records == old_s.records.update(i, rec))
    &&& new_s.categories == old_s.categories
}

proof fn lemma_filter_by_range_len(s: Seq<RecordView>, start: i64, end: i64)
    ensures
        filter_by_range(s, start, end).len() <= s.len(),
    decreases s.len(),
{
    if s.len() > 0 {
        lemma_filter_by_range_len(s.drop_last(), start, end);
    }
}

proof fn lemma_insert_by_time_desc_at(s: Seq<RecordView>, r: RecordView, j: int)
    requires
        0 <= j <= s.len(),
        forall|k: int| 0 <= k < j ==> s[k].timestamp >= r.timestamp,
        j < s.len() ==> !(s[j].timestamp >= r.timestamp),
    ensures
        insert_by_time_desc(s, r) == s.take(j) + seq![r] + s.skip(j),
    decreases j,
{
    if j == 0 {
        if s.len() == 0 {
            assert(insert_by_time_desc(s, r) =~= s.take(0) + seq![r] + s.skip(0));
        } else {
            assert(insert_by_time_desc(s, r) =~= s.take(0) + seq![r] + s.skip(0));
        }
    } else {
        assert(s[0].timestamp >= r.timestamp);
        let t = s.drop_first();
        assert forall|k: int| 0 <= k < j - 1 implies t[k].timestamp >= r.timestamp by {
            assert(t[k] == s[k + 1]);
        }
        if j - 1 < t.len() {
            assert(t[j - 1] == s[j]);
        }
        lemma_insert_by_time_desc_at(t, r, j - 1);
        assert(seq![s[0]] + (t.take(j - 1) + seq![r] + t.skip(j - 1)) =~= s.take(j) + seq![r]
            + s.skip(j));
    }
}

fn clone_record(r: &Record) -> (out: Record)
    ensures
        out@ == r@,
{
    Record {
        id: r.id.clone(),
        name: r.name.clone(),
        amount: r.amount,
        category_id: r.category_id.clone(),
        timestamp: r.timestamp,
    }
}

fn insert_record_desc(out: &mut Vec<Record>, rec: Record)
    ensures
        recs_view(final(out)@) == insert_by_time_desc(recs_view(old(out)@), rec@),
{
    let mut j: usize = 0;
    while j < out.len() && out[j].timestamp >= rec.timestamp
        invariant
            0 <= j <= out@.len(),
            forall|k: int| 0 <= k < j ==> recs_view(out@)[k].timestamp >= rec@.timestamp,
        decreases out@.len() - j,
    {
        j = j + 1;
    }
    proof {
        lemma_insert_by_time_desc_at(recs_view(out@), rec@, j as int);
    }
    let ghost old_view = recs_view(out@);
    out.insert(j, rec);
    proof {
        assert(recs_view(out@) =~= old_view.take(j as int) + seq![rec@] + old_view.skip(j as int));
    }
}

fn sort_records_desc(v: &Vec<Record>) -> (out: Vec<Record>)
    ensures
        recs_view(out@) == sort_by_time_desc(recs_view(v@)),
{
    let mut out: Vec<Record> = Vec::new();
    let mut i: usize = 0;
    while i < v.len()
        invariant
            0 <= i <= v@.len(),
            recs_view(out@) == sort_by_time_desc(recs_view(v@).take(i as int)),
        decreases v@.len() - i,
    {
        let rec = clone_record(&v[i]);
        proof {
            let full = recs_view(v@);
            assert(rec@ == full[i as int]);
            assert(full.take(i + 1).drop_last() =~= full.take(i as int));
            assert(full.take(i + 1).last() == full[i as int]);
        }
        insert_record_desc(&mut out, rec);
        i = i + 1;
    }
    proof {
        assert(recs_view(v@).take(v@.len() as int) =~= recs_view(v@));
    }
    out
}

fn filter_records_range(v: &Vec<Record>, start: i64, end: i64) -> (out: Vec<Record>)
    ensures
        recs_view(out@) == filter_by_range(recs_view(v@), start, end),
{
    let mut out: Vec<Record> = Vec::new();
    let mut i: usize = 0;
    while i < v.len()
        invariant
            0 <= i <= v@.len(),
            recs_view(out@) == filter_by_range(recs_view(v@).take(i as int), start, end),
        decreases v@.len() - i,
    {
        proof {
            let full = recs_view(v@);
            assert(full.take(i + 1).drop_last() =~= full.take(i as int));
            assert(full.take(i + 1).last() == full[i as int]);
        }
        if start <= v[i].timestamp && v[i].timestamp <= end {
            let rec = clone_record(&v[i]);
            let ghost old_view = recs_view(out@);
            out.push(rec);
            proof {
                assert(recs_view(out@) =~= old_view.push(recs_view(v@)[i as int]));
            }
        }
        i = i + 1;
    }
    proof {
        assert(recs_view(v@).take(v@.len() as int) =~= recs_view(v@));
    }
    out
}

fn take_limit(v: &Vec<Record>, limit: usize) -> (out: Vec<Record>)
    ensures
        recs_view(out@) == page_seq(recs_view(v@), 0, limit as int),
{
    let mut out: Vec<Record> = Vec::new();
    let mut i: usize = 0;
    while i < v.len() && i < limit
        invariant
            0 <= i <= v@.len(),
            i <= limit,
            recs_view(out@) =~= recs_view(v@).subrange(0, i as int),
        decreases v@.len() - i,
    {
        let rec = clone_record(&v[i]);
        let ghost old_view = recs_view(out@);
        out.push(rec);
        proof {
            assert(recs_view(out@) =~= old_view.push(recs_view(v@)[i as int]));
            assert(recs_view(v@).subrange(0, i + 1) =~= recs_view(v@).subrange(0, i as int).push(
                recs_view(v@)[i as int],
            ));
        }
        i = i + 1;
    }
    proof {
        assert(recs_view(out@) =~= page_seq(recs_view(v@), 0, limit as int));
    }
    out
}

/// Lists records against an explicit effective end of the time window:
/// those with `start <= timestamp <= end`, newest first, capped at the
/// limit, with the full matching count reported.
pub fn get_records_at(store: &Store, query: &GetRecordsQuery, now: i64) -> (r: GetRecordsResponse)
    requires
        store_wf(store@),
    ensures
        ({
            let start = match query.start_time {
                Some(s) => s,
                None => 0i64,
            };
            let end = match query.end_time {
                Some(e) => e,
                None => now,
            };
            let limit = match query.limit {
                Some(l) => l,
                None => DEFAULT_RECORDS_LIMIT,
            };
            records_answer(
                store@.records,
                start,
                limit,
                recs_view(r.records@),
                r.total_count,
                end,
            )
        }),
{
    let start: i64 = match query.start_time {
        Some(s) => s,
        None => 0,
    };
    let end: i64 = match query.end_time {
        Some(e) => e,
        None => now,
    };
    let limit: u32 = match query.limit {
        Some(l) => l,
        None => DEFAULT_RECORDS_LIMIT,
    };
    let filtered = filter_records_range(&store.records, start, end);
    proof {
        lemma_filter_by_range_len(recs_view(store.records@), start, end);
    }
    let total = filtered.len();
    let sorted = sort_records_desc(&filtered);
    let page = take_limit(&sorted, limit as usize);
    GetRecordsResponse { records: page, total_count: total as u32 }
}

/// Lists records; when the query leaves the end of the window open, the
/// current server time at query execution closes it.
#[verifier::rlimit(50)]
pub fn get_records(store: &Store, query: &GetRecordsQuery) -> (r: GetRecordsResponse)
    requires
        store_wf(store@),
    ensures
        query.end_time matches Some(e) ==> records_answer(
            store@.records,
            start_or_zero(query.start_time),
            limit_or_default(query.limit),
            recs_view(r.records@),
            r.total_count,
            e,
        ),
        query.end_time is None ==> exists|e: i64|
            records_answer(
                store@.records,
                start_or_zero(query.start_time),
                limit_or_default(query.limit),
                recs_view(r.records@),
                r.total_count,
                e,
            ),
{
    let now = now_timestamp();
    let r = get_records_at(store, query, now);
    proof {
        if query.end_time is None {
            assert(records_answer(
                store@.records,
                start_or_zero(query.start_time),
                limit_or_default(query.limit),
                recs_view(r.records@),
                r.total_count,
                now,
            ));
        }
    }
    r
}

/// The record a partial update produces: provided fields replace the stored
/// ones (strings trimmed), everything else keeps its prior value.
pub open spec fn merged_record(r: RecordView, p: UpdateRecordPayload) -> RecordView {
    RecordView {
        id: r.id,
        name: match p.name {
            Some(n) => trim_spec(n@),
            None => r.name,
        },
        amount: match p.amount {
            Some(a) => a,
            None => r.amount,
        },
        category_id: match p.category_id {
            Some(c) => trim_spec(c@),
            None => r.category_id,
        },
        timestamp: match p.timestamp {
            Some(t) => t,
            None => r.timestamp,
        },
    }
}

/// At least one field of a partial update is set.
pub open spec fn some_field_set(p: UpdateRecordPayload) -> bool {
    p.name is Some || p.amount is Some || p.category_id is Some || p.timestamp is Some
}

/// The provided name, if any, is acceptable.
pub open spec fn update_name_ok(p: UpdateRecordPayload) -> bool {
    match p.name {
        Some(n) => string_length_ok(n@, MAX_RECORD_NAME_LENGTH as int),
        None => true,
    }
}

/// The provided amount, if any, is acceptable.
pub open spec fn update_amount_ok(p: UpdateRecordPayload) -> bool {
    match p.amount {
        Some(a) => !amount_is_zero(a),
        None => true,
    }
}

/// The provided category id, if any, has an acceptable length.
pub open spec fn update_cat_len_ok(p: UpdateRecordPayload) -> bool {
    match p.category_id {
        Some(c) => string_length_ok(c@, MAX_CATEGORY_NAME_LENGTH as int),
        None => true,
    }
}

/// The provided category id, if any, resolves in the store.
pub open spec fn update_cat_exists_ok(p: UpdateRecordPayload, cats: Seq<crate::models::CategoryView>) -> bool {
    match p.category_id {
        Some(c) => has_cat_id(cats, trim_spec(c@)),
        None => true,
    }
}

/// Creates a record under a caller-supplied fresh id and timestamp. The
/// name, amount and category id are validated, the category must exist, and
/// the stored strings are the trimmed ones.
pub fn create_record_with(
    store: &mut Store,
    payload: &CreateRecordPayload,
    id: String,
    timestamp: i64,
) -> (r: Result<Record, ApiError>)
    requires
        store_wf(old(store)@),
    ensures
        store_wf(final(store)@),
        !string_length_ok(payload.name@, MAX_RECORD_NAME_LENGTH as int) ==> (r matches Err(e)
            && e.kind == ErrorKind::BadInput && final(store)@ == old(store)@ && (trim_spec(
            payload.name@,
        ).len() == 0 ==> e.message@ == "Record name cannot be empty"@) && (trim_spec(
            payload.name@,
        ).len() > MAX_RECORD_NAME_LENGTH ==> e.message@
            == "Record name must be less than 255 characters"@)),
        string_length_ok(payload.name@, MAX_RECORD_NAME_LENGTH as int) && amount_is_zero(
            payload.amount,
        ) ==> (r matches Err(e) && e.kind == ErrorKind::BadInput && e.message@
            == "Record amount cannot be zero"@ && final(store)@ == old(store)@),
        string_length_ok(payload.name@, MAX_RECORD_NAME_LENGTH as int) && !amount_is_zero(
            payload.amount,
        ) && !string_length_ok(payload.category_id@, MAX_CATEGORY_NAME_LENGTH as int) ==> (
        r matches Err(e) && e.kind == ErrorKind::BadInput && final(store)@ == old(store)@ && (trim_spec(
            payload.category_id@,
        ).len() == 0 ==> e.message@ == "Category ID cannot be empty"@) && (trim_spec(
            payload.category_id@,
        ).len() > MAX_CATEGORY_NAME_LENGTH ==> e.message@
            == "Category ID must be less than 100 characters"@)),
        string_length_ok(payload.name@, MAX_RECORD_NAME_LENGTH as int) && !amount_is_zero(
            payload.amount,
        ) && string_length_ok(payload.category_id@, MAX_CATEGORY_NAME_LENGTH as int)
            && !has_cat_id(old(store)@.categories, trim_spec(payload.category_id@)) ==> (
        r matches Err(e) && e.kind == ErrorKind::BadInput && e.message@
            == "Category does not exist"@ && final(store)@ == old(store)@),
        string_length_ok(payload.name@, MAX_RECORD_NAME_LENGTH as int) && !amount_is_zero(
            payload.amount,
        ) && string_length_ok(payload.category_id@, MAX_CATEGORY_NAME_LENGTH as int) && has_cat_id(
            old(store)@.categories,
            trim_spec(payload.category_id@),
        ) && (has_rec_id(old(store)@.records, id@) || old(store)@.records.len() >= 0xFFFF_FFFF)
            ==> (r matches Err(e) && e.kind == ErrorKind::Internal && final(store)@ == old(store)@),
        string_length_ok(payload.name@, MAX_RECORD_NAME_LENGTH as int) && !amount_is_zero(
            payload.amount,
        ) && string_length_ok(payload.category_id@, MAX_CATEGORY_NAME_LENGTH as int) && has_cat_id(
            old(store)@.categories,
            trim_spec(payload.category_id@),
        ) && !has_rec_id(old(store)@.records, id@) && old(store)@.records.len() < 0xFFFF_FFFF ==> (
        r matches Ok(rec) && rec@ == (RecordView {
            id: id@,
            name: trim_spec(payload.name@),
            amount: payload.amount,
            category_id: trim_spec(payload.category_id@),
            timestamp,
        }) && final(store)@.records == old(store)@.records.push(rec@) && final(store)@.categories
            == old(store)@.categories),
{
    if let Err(e) = validate_record_name(payload.name.as_str()) {
        return Err(e);
    }
    if let Err(e) = validate_record_amount(payload.amount) {
        return Err(e);
    }
    if let Err(e) = validate_category_id(payload.category_id.as_str()) {
        return Err(e);
    }
    let trimmed_cat = trim_str(payload.category_id.as_str());
    if let Err(e) = validate_category_exists(store, trimmed_cat.as_str()) {
        return Err(e);
    }
    if store.records.len() >= 0xFFFF_FFFFusize {
        return Err(db_error_with_context("record creation failed"));
    }
    if let Some(_) = find_record_index(&store.records, id.as_str()) {
        return Err(db_error_with_context("record creation failed"));
    }
    let trimmed_name = trim_str(payload.name.as_str());
    let ghost old_recs = recs_view(store.records@);
    let ghost old_cats = store@.categories;
    let rec = Record {
        id,
        name: trimmed_name,
        amount: payload.amount,
        category_id: trimmed_cat,
        timestamp,
    };
    let ghost rv = rec@;
    let result = clone_record(&rec);
    store.records.push(rec);
    proof {
        assert(recs_view(store.records@) =~= old_recs.push(rv));
        let new_recs = old_recs.push(rv);
        assert forall|i: int, j: int| 0 <= i < j < new_recs.len() implies new_recs[i].id
            != new_recs[j].id by {
            if j == new_recs.len() - 1 {
                assert(new_recs[i] == old_recs[i]);
            }
        }
        assert forall|i: int| 0 <= i < new_recs.len() implies has_cat_id(
            old_cats,
            #[trigger] new_recs[i].category_id,
        ) by {
            if i < new_recs.len() - 1 {
                assert(new_recs[i] == old_recs[i]);
            }
        }
    }
    Ok(result)
}

/// Creates a record under a freshly generated opaque id, stamped with the
/// current server time.
pub fn create_record(store: &mut Store, payload: &CreateRecordPayload) -> (r: Result<
    Record,
    ApiError,
>)
    requires
        store_wf(old(store)@),
    ensures
        store_wf(final(store)@),
        !string_length_ok(payload.name@, MAX_RECORD_NAME_LENGTH as int) ==> (r matches Err(e)
            && e.kind == ErrorKind::BadInput && final(store)@ == old(store)@ && (trim_spec(
            payload.name@,
        ).len() == 0 ==> e.message@ == "Record name cannot be empty"@) && (trim_spec(
            payload.name@,
        ).len() > MAX_RECORD_NAME_LENGTH ==> e.message@
            == "Record name must be less than 255 characters"@)),
        string_length_ok(payload.name@, MAX_RECORD_NAME_LENGTH as int) && amount_is_zero(
            payload.amount,
        ) ==> (r matches Err(e) && e.kind == ErrorKind::BadInput && e.message@
            == "Record amount cannot be zero"@ && final(store)@ == old(store)@),
        string_length_ok(payload.name@, MAX_RECORD_NAME_LENGTH as int) && !amount_is_zero(
            payload.amount,
        ) && !string_length_ok(payload.category_id@, MAX_CATEGORY_NAME_LENGTH as int) ==> (
        r matches Err(e) && e.kind == ErrorKind::BadInput && final(store)@ == old(store)@ && (trim_spec(
            payload.category_id@,
        ).len() == 0 ==> e.message@ == "Category ID cannot be empty"@) && (trim_spec(
            payload.category_id@,
        ).len() > MAX_CATEGORY_NAME_LENGTH ==> e.message@
            == "Category ID must be less than 100 characters"@)),
        string_length_ok(payload.name@, MAX_RECORD_NAME_LENGTH as int) && !amount_is_zero(
            payload.amount,
        ) && string_length_ok(payload.category_id@, MAX_CATEGORY_NAME_LENGTH as int)
            && !has_cat_id(old(store)@.categories, trim_spec(payload.category_id@)) ==> (
        r matches Err(e) && e.kind == ErrorKind::BadInput && e.message@
            == "Category does not exist"@ && final(store)@ == old(store)@),
        string_length_ok(payload.name@, MAX_RECORD_NAME_LENGTH as int) && !amount_is_zero(
            payload.amount,
        ) && string_length_ok(payload.category_id@, MAX_CATEGORY_NAME_LENGTH as int) && has_cat_id(
            old(store)@.categories,
            trim_spec(payload.category_id@),
        ) ==> ((r matches Ok(rec) && rec@.name == trim_spec(payload.name@) && rec@.amount
            == payload.amount && rec@.category_id == trim_spec(payload.category_id@)
            && !has_rec_id(old(store)@.records, rec@.id) && final(store)@.records == old(store)@.records.push(rec@) && final(store)@.categories == old(store)@.categories) || (
        r matches Err(e) && e.kind == ErrorKind::Internal && final(store)@ == old(store)@)),
{
    let id = fresh_uuid();
    let timestamp = now_timestamp();
    create_record_with(store, payload, id, timestamp)
}

/// Applies a partial update to a record. At least one field must be set;
/// provided fields are validated (and a provided category id must resolve);
/// unspecified fields keep their stored values byte for byte.
#[verifier::rlimit(50)]
pub fn update_record(store: &mut Store, record_id: &str, payload: &UpdateRecordPayload) -> (r:
    Result<Record, ApiError>)
    requires
        store_wf(old(store)@),
    ensures
        store_wf(final(store)@),
        !some_field_set(*payload) ==> (r matches Err(e) && e.kind == ErrorKind::BadInput
            && e.message@ == "At least one field must be provided for update"@ && final(store)@
            == old(store)@),
        some_field_set(*payload) && !update_name_ok(*payload) ==> (r matches Err(e) && e.kind
            == ErrorKind::BadInput && final(store)@ == old(store)@),
        some_field_set(*payload) ==> (payload.name matches Some(n) ==> ((trim_spec(n@).len() == 0
            ==> (r matches Err(e) && e.message@ == "Record name cannot be empty"@)) && (trim_spec(
            n@,
        ).len() > MAX_RECORD_NAME_LENGTH ==> (r matches Err(e) && e.message@
            == "Record name must be less than 255 characters"@)))),
        some_field_set(*payload) && update_name_ok(*payload) && !update_amount_ok(*payload) ==> (
        r matches Err(e) && e.kind == ErrorKind::BadInput && e.message@
            == "Record amount cannot be zero"@ && final(store)@ == old(store)@),
        some_field_set(*payload) && update_name_ok(*payload) && update_amount_ok(*payload)
            && !update_cat_len_ok(*payload) ==> (r matches Err(e) && e.kind == ErrorKind::BadInput
            && final(store)@ == old(store)@),
        some_field_set(*payload) && update_name_ok(*payload) && update_amount_ok(*payload) ==> (
        payload.category_id matches Some(c) ==> ((trim_spec(c@).len() == 0 ==> (r matches Err(e)
            && e.message@ == "Category ID cannot be empty"@)) && (trim_spec(c@).len()
            > MAX_CATEGORY_NAME_LENGTH ==> (r matches Err(e) && e.message@
            == "Category ID must be less than 100 characters"@)))),
        some_field_set(*payload) && update_name_ok(*payload) && update_amount_ok(*payload)
            && update_cat_len_ok(*payload) && !update_cat_exists_ok(
            *payload,
            old(store)@.categories,
        ) ==> (r matches Err(e) && e.kind == ErrorKind::BadInput && e.message@
            == "Category does not exist"@ && final(store)@ == old(store)@),
        some_field_set(*payload) && update_name_ok(*payload) && update_amount_ok(*payload)
            && update_cat_len_ok(*payload) && update_cat_exists_ok(
            *payload,
            old(store)@.categories,
        ) && !has_rec_id(old(store)@.records, record_id@) ==> (r matches Err(e) && e.kind
            == ErrorKind::NotFound && e.message@ == "Record not found"@ && final(store)@ == old(store)@),
        some_field_set(*payload) && update_name_ok(*payload) && update_amount_ok(*payload)
            && update_cat_len_ok(*payload) && update_cat_exists_ok(
            *payload,
            old(store)@.categories,
        ) && has_rec_id(old(store)@.records, record_id@) ==> (r matches Ok(rec) && update_applied(
            old(store)@,
            final(store)@,
            *payload,
            record_id@,
            rec@,
        )),
{
    if payload.name.is_none() && payload.amount.is_none() && payload.category_id.is_none()
        && payload.timestamp.is_none() {
        return Err(api_error(ErrorKind::BadInput, "At least one field must be provided for update"));
    }
    if let Some(n) = &payload.name {
        if let Err(e) = validate_record_name(n.as_str()) {
            return Err(e);
        }
    }
    if let Some(a) = &payload.amount {
        if let Err(e) = validate_record_amount(*a) {
            return Err(e);
        }
    }
    if let Some(c) = &payload.category_id {
        if let Err(e) = validate_category_id(c.as_str()) {
            return Err(e);
        }
        let trimmed = trim_str(c.as_str());
        if let Err(e) = validate_category_exists(store, trimmed.as_str()) {
            return Err(e);
        }
    }
    let idx = match find_record_index(&store.records, record_id) {
        Some(i) => i,
        None => {
            return Err(api_error(ErrorKind::NotFound, "Record not found"));
        },
    };
    let existing = &store.records[idx];
    let new_name: String = match &payload.name {
        Some(n) => trim_str(n.as_str()),
        None => existing.name.clone(),
    };
    let new_amount: u64 = match &payload.amount {
        Some(a) => *a,
        None => existing.amount,
    };
    let new_cat: String = match &payload.category_id {
        Some(c) => trim_str(c.as_str()),
        None => existing.category_id.clone(),
    };
    let new_ts: i64 = match &payload.timestamp {
        Some(t) => *t,
        None => existing.timestamp,
    };
    let new_rec = Record {
        id: existing.id.clone(),
        name: new_name,
        amount: new_amount,
        category_id: new_cat,
        timestamp: new_ts,
    };
    let ghost old_recs = recs_view(store.records@);
    let ghost old_cats = store@.categories;
    let ghost rv = new_rec@;
    let result = clone_record(&new_rec);
    store.records.set(idx, new_rec);
    proof {
        assert(old_recs[idx as int].id == record_id@);
        assert(rv == merged_record(old_recs[idx as int], *payload));
        assert(recs_view(store.records@) =~= old_recs.update(idx as int, rv));
        let new_recs = old_recs.update(idx as int, rv);
        assert forall|i: int, j: int| 0 <= i < j < new_recs.len() implies new_recs[i].id
            != new_recs[j].id by {
            assert(old_recs[i].id != old_recs[j].id);
        }
        assert forall|i: int| 0 <= i < new_recs.len() implies has_cat_id(
            old_cats,
            #[trigger] new_recs[i].category_id,
        ) by {
            if i != idx as int {
                assert(new_recs[i] == old_recs[i]);
            }
        }
        assert(exists|i: int|
            0 <= i < old_recs.len() && old_recs[i].id == record_id@ && rv == merged_record(
                old_recs[i],
                *payload,
            ) && recs_view(store.records@) == old_recs.update(i, rv));
        assert(update_applied(old(store)@, store@, *payload, record_id@, rv));
    }
    Ok(result)
}

/// Deletes a record unconditionally by id; records are leaves, so no guard
/// applies. Fails with `NotFound` when the id is absent.
pub fn delete_record(store: &mut Store, record_id: &str) -> (r: Result<(), ApiError>)
    requires
        store_wf(old(store)@),
    ensures
        store_wf(final(store)@),
        !has_rec_id(old(store)@.records, record_id@) ==> (r matches Err(e) && e.kind
            == ErrorKind::NotFound && e.message@ == "Record not found"@ && final(store)@ == old(store)@),
        has_rec_id(old(store)@.records, record_id@) ==> (r is Ok && (exists|i: int|
            0 <= i < old(store)@.records.len() && old(store)@.records[i].id == record_id@ && final(store)@.records == old(store)@.records.remove(i)) && final(store)@.categories == old(store)@.categories),
{
    let idx = match find_record_index(&store.records, record_id) {
        Some(i) => i,
        None => {
            return Err(api_error(ErrorKind::NotFound, "Record not found"));
        },
    };
    let ghost old_recs = recs_view(store.records@);
    let ghost old_cats = store@.categories;
    store.records.remove(idx);
    proof {
        assert(recs_view(store.records@) =~= old_recs.remove(idx as int));
        let new_recs = old_recs.remove(idx as int);
        assert forall|i: int, j: int| 0 <= i < j < new_recs.len() implies new_recs[i].id
            != new_recs[j].id by {
            let oi = if i < idx as int { i } else { i + 1 };
            let oj = if j < idx as int { j } else { j + 1 };
            assert(new_recs[i] == old_recs[oi]);
            assert(new_recs[j] == old_recs[oj]);
        }
        assert forall|i: int| 0 <= i < new_recs.len() implies has_cat_id(
            old_cats,
            #[trigger] new_recs[i].category_id,
        ) by {
            let oi = if i < idx as int { i } else { i + 1 };
            assert(new_recs[i] == old_recs[oi]);
        }
    }
    Ok(())
}

/// The first record carrying an id, if any.
pub open spec fn rec_lookup(recs: Seq<RecordView>, id: Seq<char>) -> Option<RecordView>
    decreases recs.len(),
{
    if recs.len() == 0 {
        None
    } else if recs[0].id == id {
        Some(recs[0])
    } else {
        rec_lookup(recs.drop_first(), id)
    }
}

proof fn lemma_rec_lookup_skip(recs: Seq<RecordView>, id: Seq<char>, i: int)
    requires
        0 <= i <= recs.len(),
        forall|k: int| 0 <= k < i ==> recs[k].id != id,
    ensures
        rec_lookup(recs, id) == rec_lookup(recs.skip(i), id),
    decreases i,
{
    if i == 0 {
        assert(recs.skip(0) =~= recs);
    } else {
        assert(recs[0].id != id);
        let t = recs.drop_first();
        assert forall|k: int| 0 <= k < i - 1 implies t[k].id != id by {
            assert(t[k] == recs[k + 1]);
        }
        lemma_rec_lookup_skip(t, id, i - 1);
        assert(t.skip(i - 1) =~= recs.skip(i));
    }
}

/// Fetches a record by id: a copy of the stored row, or nothing.
pub fn find_record(store: &Store, record_id: &str) -> (r: Option<Record>)
    ensures
        match r {
            Some(rec) => rec_lookup(store@.records, record_id@) == Some(rec@),
            None => rec_lookup(store@.records, record_id@) is None,
        },
{
    let mut i: usize = 0;
    while i < store.records.len()
        invariant
            0 <= i <= store.records@.len(),
            forall|k: int| 0 <= k < i ==> recs_view(store.records@)[k].id != record_id@,
        decreases store.records@.len() - i,
    {
        if str_eq(store.records[i].id.as_str(), record_id) {
            let rec = clone_record(&store.records[i]);
            proof {
                let full = recs_view(store.records@);
                lemma_rec_lookup_skip(full, record_id@, i as int);
                assert(full.skip(i as int)[0] == full[i as int]);
            }
            return Some(rec);
        }
        i = i + 1;
    }
    proof {
        let full = recs_view(store.records@);
        lemma_rec_lookup_skip(full, record_id@, store.records@.len() as int);
        assert(full.skip(full.len() as int).len() == 0);
    }
    None
}

} // verus!
