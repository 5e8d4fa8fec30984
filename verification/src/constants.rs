//! Service-wide limits and defaults.
use vstd::prelude::*;

verus! {

/// Page size used for category listings when the client names none.
pub const DEFAULT_CATEGORIES_LIMIT: u32 = 100;

/// Page size used for record listings when the client names none.
pub const DEFAULT_RECORDS_LIMIT: u32 = 500;

/// Largest page size a client may request.
pub const MAX_LIMIT: u32 = 1000;

/// Largest offset a client may request.
pub const MAX_OFFSET: u32 = 1000000;

/// Longest accepted category name, in characters, after trimming.
pub const MAX_CATEGORY_NAME_LENGTH: usize = 100;

/// Longest accepted record name, in characters, after trimming.
pub const MAX_RECORD_NAME_LENGTH: usize = 255;

/// Longest accepted search term, in characters, after trimming.
pub const MAX_SEARCH_TERM_LENGTH: usize = 100;

/// Longest accepted username, in characters.
pub const MAX_USERNAME_LENGTH: usize = 50;

/// Shortest accepted username, in characters.
pub const MIN_USERNAME_LENGTH: usize = 4;

/// Shortest accepted password, in characters.
pub const MIN_PASSWORD_LENGTH: usize = 6;

/// Shortest accepted session secret, in characters.
pub const MIN_SESSION_SECRET_LENGTH: usize = 64;

} // verus!
