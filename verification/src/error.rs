//! Error kinds and the error body that the HTTP surface returns.

use crate::text::{decimal, decimal_string, join3};
use vstd::prelude::*;
use vstd::string::*;

verus! {

/// Why an operation failed.
#[derive(Clone, Copy, Debug, PartialEq, Eq, Structural)]
pub enum ErrorKind {
    /// A malformed identifier or version vector.
    InvalidArgument,
    /// No token, or one that does not verify.
    Unauthenticated,
    /// A valid token whose principals do not suffice, or an attempt to
    /// rebind a peer.
    PermissionDenied,
    /// No such document, stream, room or version.
    NotFound,
    /// A document or block type that is not known.
    Unsupported,
    /// What a save needs is missing.
    Conflict,
    /// The store could not be reached or the transaction failed.
    StoreUnavailable,
    /// The identity service could not be reached.
    IdentityUnavailable,
    /// A codec failure or a broken invariant.
    Internal,
}

/// The HTTP status code that stands for a kind of error.
pub open spec fn http_code_of(kind: ErrorKind) -> u16 {
    match kind {
        ErrorKind::InvalidArgument => 400,
        ErrorKind::Unauthenticated => 401,
        ErrorKind::PermissionDenied => 403,
        ErrorKind::NotFound => 404,
        ErrorKind::Conflict => 409,
        ErrorKind::StoreUnavailable => 503,
        ErrorKind::Unsupported => 500,
        ErrorKind::IdentityUnavailable => 500,
        ErrorKind::Internal => 500,
    }
}

/// The reason phrase of the status codes this service answers with; empty for
/// any other code.
pub open spec fn reason_of(code: u16) -> Seq<char> {
    if code == 400 {
        "Bad Request"@
    } else if code == 401 {
        "Unauthorized"@
    } else if code == 403 {
        "Forbidden"@
    } else if code == 404 {
        "Not Found"@
    } else if code == 409 {
        "Conflict"@
    } else if code == 500 {
        "Internal Server Error"@
    } else if code == 503 {
        "Service Unavailable"@
    } else {
        Seq::empty()
    }
}

/// The status line of a code: the code in decimal, a blank, the reason.
pub open spec fn status_line_of(code: u16) -> Seq<char> {
    decimal(code as nat) + " "@ + reason_of(code)
}

impl ErrorKind {
    /// The HTTP status code for this kind.
    pub fn http_code(self) -> (code: u16)
        ensures
            code == http_code_of(self),
    {
        match self {
            ErrorKind::InvalidArgument => 400,
            ErrorKind::Unauthenticated => 401,
            ErrorKind::PermissionDenied => 403,
            ErrorKind::NotFound => 404,
            ErrorKind::Conflict => 409,
            ErrorKind::StoreUnavailable => 503,
            ErrorKind::Unsupported => 500,
            ErrorKind::IdentityUnavailable => 500,
            ErrorKind::Internal => 500,
        }
    }
}

/// The error body of an HTTP answer.
#[derive(Debug)]
pub struct ErrorResponse {
    pub code: u16,
    pub status: String,
    pub error: String,
}

impl ErrorResponse {
    /// The body says `kind` with the text `message`.
    pub open spec fn says(&self, kind: ErrorKind, message: Seq<char>) -> bool {
        &&& self.code == http_code_of(kind)
        &&& self.status@ == status_line_of(http_code_of(kind))
        &&& self.error@ == message
    }

    /// The error body for a kind of error and its message.
    pub fn new(kind: ErrorKind, message: String) -> (r: ErrorResponse)
        ensures
            r.says(kind, message@),
    {
        let code = kind.http_code();
        ErrorResponse { code, status: status_line(code), error: message }
    }
}

/// The reason phrase of a status code.
pub fn reason(code: u16) -> (r: &'static str)
    ensures
        r@ == reason_of(code),
{
    if code == 400 {
        "Bad Request"
    } else if code == 401 {
        "Unauthorized"
    } else if code == 403 {
        "Forbidden"
    } else if code == 404 {
        "Not Found"
    } else if code == 409 {
        "Conflict"
    } else if code == 500 {
        "Internal Server Error"
    } else if code == 503 {
        "Service Unavailable"
    } else {
        proof {
            reveal_strlit("");
        }
        assert(""@ =~= Seq::<char>::empty());
        ""
    }
}

/// The status line of a code, such as `403 Forbidden`.
pub fn status_line(code: u16) -> (r: String)
    ensures
        r@ == status_line_of(code),
{
    let digits = decimal_string(code as u64);
    join3(digits.as_str(), " ", reason(code))
}

} // verus!
