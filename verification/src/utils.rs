//! The validation layer: pure predicates run against trimmed values before
//! anything reaches a store, each reporting exactly when it fails.
use vstd::prelude::*;

use crate::constants::{DEFAULT_CATEGORIES_LIMIT, DEFAULT_RECORDS_LIMIT, MAX_LIMIT, MAX_OFFSET};
use crate::errors::{api_error, ApiError, ErrorKind};
use crate::text::{dec_digits, trim_spec, trim_str};

verus! {

/// A string value is acceptable for a field capped at `max_length`
/// characters: non-empty after trimming and not over the cap.
pub open spec fn string_length_ok(value: Seq<char>, max_length: int) -> bool {
    trim_spec(value).len() > 0 && trim_spec(value).len() <= max_length
}

/// Checks a string field: the trimmed value must be non-empty and at most
/// `max_length` characters long.
pub fn validate_string_length(value: &str, field_name: &str, max_length: usize) -> (r: Result<
    (),
    ApiError,
>)
    ensures
        r is Ok <==> string_length_ok(value@, max_length as int),
        r matches Err(e) ==> e.kind == ErrorKind::BadInput,
        trim_spec(value@).len() == 0 ==> (r matches Err(e) && e.message@ == field_name@
            + " cannot be empty"@),
        trim_spec(value@).len() > max_length ==> (r matches Err(e) && e.message@ == field_name@
            + " must be less than "@ + dec_digits(max_length as int) + " characters"@),
{
    let t = trim_str(value);
    let tlen = t.as_str().unicode_len();
    if tlen == 0 {
        let mut m = String::from_str(field_name);
        m.append(" cannot be empty");
        return Err(ApiError { kind: ErrorKind::BadInput, message: m });
    }
    if tlen > max_length {
        let mut m = String::from_str(field_name);
        m.append(" must be less than ");
        let num = crate::text::usize_to_string(max_length);
        m.append(num.as_str());
        m.append(" characters");
        return Err(ApiError { kind: ErrorKind::BadInput, message: m });
    }
    Ok(())
}

/// Resolves a requested page size: absent means the default, zero and
/// anything over the ceiling are rejected.
pub fn validate_limit(limit: Option<u32>, default: u32) -> (r: Result<u32, ApiError>)
    ensures
        limit is None ==> r == Ok::<u32, ApiError>(default),
        limit matches Some(l) ==> {
            if l == 0 {
                r matches Err(e) && e.kind == ErrorKind::BadInput && e.message@
                    == "Limit must be greater than 0"@
            } else if l > MAX_LIMIT {
                r matches Err(e) && e.kind == ErrorKind::BadInput && e.message@
                    == "Limit cannot exceed 1000"@
            } else {
                r == Ok::<u32, ApiError>(l)
            }
        },
{
    match limit {
        Some(l) => {
            if l == 0 {
                Err(api_error(ErrorKind::BadInput, "Limit must be greater than 0"))
            } else if l > MAX_LIMIT {
                Err(api_error(ErrorKind::BadInput, "Limit cannot exceed 1000"))
            } else {
                Ok(l)
            }
        },
        None => Ok(default),
    }
}

/// Resolves the page size of a category listing.
pub fn validate_categories_limit(limit: Option<u32>) -> (r: Result<u32, ApiError>)
    ensures
        limit is None ==> r == Ok::<u32, ApiError>(DEFAULT_CATEGORIES_LIMIT),
        limit matches Some(l) ==> {
            if l == 0 {
                r matches Err(e) && e.kind == ErrorKind::BadInput && e.message@
                    == "Limit must be greater than 0"@
            } else if l > MAX_LIMIT {
                r matches Err(e) && e.kind == ErrorKind::BadInput && e.message@
                    == "Limit cannot exceed 1000"@
            } else {
                r == Ok::<u32, ApiError>(l)
            }
        },
{
    validate_limit(limit, DEFAULT_CATEGORIES_LIMIT)
}

/// Resolves the page size of a record listing.
pub fn validate_records_limit(limit: Option<u32>) -> (r: Result<u32, ApiError>)
    ensures
        limit is None ==> r == Ok::<u32, ApiError>(DEFAULT_RECORDS_LIMIT),
        limit matches Some(l) ==> {
            if l == 0 {
                r matches Err(e) && e.kind == ErrorKind::BadInput && e.message@
                    == "Limit must be greater than 0"@
            } else if l > MAX_LIMIT {
                r matches Err(e) && e.kind == ErrorKind::BadInput && e.message@
                    == "Limit cannot exceed 1000"@
            } else {
                r == Ok::<u32, ApiError>(l)
            }
        },
{
    validate_limit(limit, DEFAULT_RECORDS_LIMIT)
}

/// Resolves a requested offset: absent means zero, anything over the ceiling
/// is rejected.
pub fn validate_offset(offset: Option<u32>) -> (r: Result<u32, ApiError>)
    ensures
        offset is None ==> r == Ok::<u32, ApiError>(0u32),
        offset matches Some(o) ==> {
            if o > MAX_OFFSET {
                r matches Err(e) && e.kind == ErrorKind::BadInput && e.message@
                    == "Offset cannot exceed 1000000"@
            } else {
                r == Ok::<u32, ApiError>(o)
            }
        },
{
    match offset {
        Some(o) => {
            if o > MAX_OFFSET {
                Err(api_error(ErrorKind::BadInput, "Offset cannot exceed 1000000"))
            } else {
                Ok(o)
            }
        },
        None => Ok(0),
    }
}

} // verus!
