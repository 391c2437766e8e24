use vstd::prelude::*;

verus! {

/// The classes of failure an operation can report, mirroring the
/// HTTP-equivalent status classes of the service boundary.
#[derive(Clone, Copy, Debug, PartialEq, Eq, Structural)]
pub enum ErrorKind {
    /// Malformed input: bad identifier format, out-of-range enum, length limits.
    Validation,
    /// Missing or invalid credential.
    Auth,
    /// Authenticated, but the actor's role does not permit the operation.
    Permission,
    /// Target not found, or not visible to the actor.
    NotFound,
    /// The request conflicts with persisted state (illegal transition, lock).
    Conflict,
    /// The underlying store failed.
    Storage,
}

/// An operation failure: a class plus one human-readable message.
#[derive(Debug)]
pub struct ApiError {
    pub kind: ErrorKind,
    pub message: String,
}

impl ApiError {
    pub fn new(kind: ErrorKind, message: &str) -> (r: ApiError)
        ensures
            r.kind == kind,
            r.message@ == message@,
    {
        ApiError { kind, message: message.to_owned() }
    }

    /// The HTTP-equivalent status code for this error's class.
    pub fn status_code(&self) -> (r: u16)
        ensures
            r == spec_status_code(self.kind),
    {
        match self.kind {
            ErrorKind::Validation => 400,
            ErrorKind::Auth => 401,
            ErrorKind::Permission => 403,
            ErrorKind::NotFound => 404,
            ErrorKind::Conflict => 409,
            ErrorKind::Storage => 500,
        }
    }
}

pub open spec fn spec_status_code(kind: ErrorKind) -> u16 {
    match kind {
        ErrorKind::Validation => 400,
        ErrorKind::Auth => 401,
        ErrorKind::Permission => 403,
        ErrorKind::NotFound => 404,
        ErrorKind::Conflict => 409,
        ErrorKind::Storage => 500,
    }
}

} // verus!
