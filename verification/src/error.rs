//! The errors of the service and the HTTP status each one is answered with.

use vstd::prelude::*;

verus! {

/// Why a request could not be served.
#[derive(Debug, Clone, Copy, PartialEq, Eq, Structural)]
pub enum MATError {
    /// A required form field was empty.
    Empty,
    /// A domain does not have the shape of an address.
    NotAnURI,
    /// A field could not be percent-decoded, or decoded to nothing.
    URLEnconding,
    /// The database failed.
    DBError,
    /// The database holds no such entry.
    DBNotFound,
    /// The database already holds such an entry.
    DBAlreadyIn,
}

/// An HTTP status, by its numeric code.
#[derive(Debug, Clone, Copy, PartialEq, Eq, Structural)]
pub struct Status {
    pub code: u16,
}

/// The status code that answers each error: malformed input is a bad
/// request (400), a database failure an internal error (500), a missing
/// entry "no content" (204) and a duplicate a conflict (409).
pub open spec fn status_code(e: MATError) -> u16 {
    match e {
        MATError::Empty => 400,
        MATError::NotAnURI => 400,
        MATError::URLEnconding => 400,
        MATError::DBError => 500,
        MATError::DBNotFound => 204,
        MATError::DBAlreadyIn => 409,
    }
}

/// Bad input is answered 400 (bad request), a failing database 500
/// (internal server error), a missing entry 204 (no content) and a
/// duplicate 409 (conflict).
pub proof fn lemma_status_codes(e: MATError)
    ensures
        (e == MATError::Empty || e == MATError::NotAnURI || e == MATError::URLEnconding) ==> status_code(e) == 400,
        e == MATError::DBError ==> status_code(e) == 500,
        e == MATError::DBNotFound ==> status_code(e) == 204,
        e == MATError::DBAlreadyIn ==> status_code(e) == 409,
{
}

impl MATError {
    /// The HTTP status that answers this error.
    pub fn to_status(&self) -> (s: Status)
        ensures
            s.code == status_code(*self),
    {
        match self {
            MATError::Empty => Status { code: 400 },
            MATError::NotAnURI => Status { code: 400 },
            MATError::URLEnconding => Status { code: 400 },
            MATError::DBError => Status { code: 500 },
            MATError::DBNotFound => Status { code: 204 },
            MATError::DBAlreadyIn => Status { code: 409 },
        }
    }
}

} // verus!
