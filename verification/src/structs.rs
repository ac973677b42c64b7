//! HTTP status codes as the relay answers with them.
use vstd::prelude::*;

verus! {

pub const SWITCHING_PROTOCOLS: u16 = 101;
pub const OK: u16 = 200;
pub const CREATED: u16 = 201;
pub const NO_CONTENT: u16 = 204;
pub const PARTIAL_CONTENT: u16 = 206;
pub const BAD_REQUEST: u16 = 400;
pub const UNAUTHORIZED: u16 = 401;
pub const NOT_FOUND: u16 = 404;
pub const PROXY_AUTHENTICATION_REQUIRED: u16 = 407;
pub const GONE: u16 = 410;
pub const UNPROCESSABLE_ENTITY: u16 = 422;
pub const INTERNAL_SERVER_ERROR: u16 = 500;
pub const BAD_GATEWAY: u16 = 502;
pub const GATEWAY_TIMEOUT: u16 = 504;

/// The status with which a request is answered when it cannot be relayed.
#[derive(Debug, Clone, Copy, PartialEq, Eq, Structural)]
pub struct MyStatusCode {
    pub code: u16,
}

impl MyStatusCode {
    /// The given status.
    pub fn from_status(code: u16) -> (r: MyStatusCode)
        ensures
            r.code == code,
    {
        MyStatusCode { code }
    }

    /// A header that is not readable text: `400 Bad Request`.
    pub fn unreadable_header() -> (r: MyStatusCode)
        ensures
            r.code == BAD_REQUEST,
    {
        MyStatusCode { code: BAD_REQUEST }
    }

    /// A body that is not valid UTF-8: `422 Unprocessable Entity`.
    pub fn invalid_utf8() -> (r: MyStatusCode)
        ensures
            r.code == UNPROCESSABLE_ENTITY,
    {
        MyStatusCode { code: UNPROCESSABLE_ENTITY }
    }

    /// A body that is not the JSON expected: `422 Unprocessable Entity`.
    pub fn invalid_json() -> (r: MyStatusCode)
        ensures
            r.code == UNPROCESSABLE_ENTITY,
    {
        MyStatusCode { code: UNPROCESSABLE_ENTITY }
    }
}

/// Whether `error_for_status` treats the status as an error: a client
/// (4xx) or server (5xx) error.
pub open spec fn is_error_status(code: u16) -> bool {
    400 <= code && code < 600
}

/// How `hyper::StatusCode` writes itself (`Display`): the code and its
/// canonical reason.
pub uninterp spec fn status_display(code: u16) -> Seq<char>;

/// Calls `hyper::StatusCode::from_u16` and `StatusCode::to_string`. Claims
/// the text is `status_display(code)`; `from_u16` accepts exactly the codes
/// from 100 to 999, which `requires` asks for.
#[verifier::external_body]
pub(crate) fn status_text(code: u16) -> (r: String)
    requires
        100 <= code <= 999,
    ensures
        r@ == status_display(code),
{
    hyper::StatusCode::from_u16(code).map(|s| s.to_string()).unwrap_or_default()
}

} // verus!
