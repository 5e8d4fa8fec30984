//! The failure taxonomy of the service: each kind maps to one HTTP status,
//! and every user-visible message is a stable generic text that leaks no
//! internal detail.
use vstd::prelude::*;

verus! {

/// The kind of a service failure.
#[derive(Clone, Copy, Debug, PartialEq, Eq, Structural)]
pub enum ErrorKind {
    /// Malformed or out-of-range client data.
    BadInput,
    /// No valid session.
    Unauthenticated,
    /// A named entity does not exist.
    NotFound,
    /// A uniqueness or referential-guard violation.
    Conflict,
    /// The underlying storage could not be reached.
    StorageUnavailable,
    /// An unexpected internal failure.
    Internal,
}

/// The HTTP status that a failure kind maps to.
pub open spec fn status_of(k: ErrorKind) -> u16 {
    match k {
        ErrorKind::BadInput => 400,
        ErrorKind::Unauthenticated => 401,
        ErrorKind::NotFound => 404,
        ErrorKind::Conflict => 409,
        ErrorKind::StorageUnavailable => 500,
        ErrorKind::Internal => 500,
    }
}

/// A failure as handed back to the transport layer: a kind plus its message.
#[derive(Debug)]
pub struct ApiError {
    pub kind: ErrorKind,
    pub message: String,
}

impl ErrorKind {
    /// The HTTP status code for this kind.
    pub fn status_code(&self) -> (r: u16)
        ensures
            r == status_of(*self),
    {
        match self {
            ErrorKind::BadInput => 400,
            ErrorKind::Unauthenticated => 401,
            ErrorKind::NotFound => 404,
            ErrorKind::Conflict => 409,
            ErrorKind::StorageUnavailable => 500,
            ErrorKind::Internal => 500,
        }
    }
}

/// Builds a failure from a kind and a message.
pub fn api_error(kind: ErrorKind, message: &str) -> (r: ApiError)
    ensures
        r.kind == kind,
        r.message@ == message@,
{
    ApiError { kind, message: message.to_owned() }
}

/// The generic failure reported when a storage operation goes wrong.
pub fn db_error() -> (r: ApiError)
    ensures
        r.kind == ErrorKind::Internal,
        r.message@ == "Database operation failed"@,
{
    api_error(ErrorKind::Internal, "Database operation failed")
}

/// A storage failure with a short safe context, never internal error text.
pub fn db_error_with_context(context: &str) -> (r: ApiError)
    ensures
        r.kind == ErrorKind::Internal,
        r.message@ == "Database error: "@ + context@,
{
    let mut m = String::from_str("Database error: ");
    m.append(context);
    ApiError { kind: ErrorKind::Internal, message: m }
}

} // verus!
