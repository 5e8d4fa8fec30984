//! The points where the library touches the outside world for values it
//! cannot compute itself: fresh opaque identifiers and the current time.
use vstd::prelude::*;

verus! {

/// Relies on `uuid::Uuid::new_v4` and its `Display` form: a fresh random
/// identifier written in the 36-character hyphenated form. Nothing beyond
/// the length can be promised of a random value.
#[verifier::external_body]
pub fn fresh_uuid() -> (r: String)
    ensures
        r@.len() == 36,
{
    uuid::Uuid::new_v4().to_string()
}

/// Relies on `time::OffsetDateTime::now_utc` and `unix_timestamp`: whole
/// seconds since the Unix epoch at the moment of the call. Nothing can be
/// promised of the clock.
#[verifier::external_body]
pub fn now_timestamp() -> (r: i64) {
    time::OffsetDateTime::now_utc().unix_timestamp()
}

} // verus!
