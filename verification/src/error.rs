use vstd::prelude::*;

verus! {

/// Request-level failures surfaced to the caller of the storage operations.
#[derive(Debug, Clone)]
pub enum ServiceError {
    /// The resolved path lies outside every allowed prefix.
    Forbidden(String),
    /// A bad input: missing source, occupied rename target, failed mutation.
    BadRequest(String),
    /// An upload target that already holds a file.
    Conflict(String),
    /// A classification branch that a well-formed request never reaches.
    InternalServerError,
}

} // verus!
