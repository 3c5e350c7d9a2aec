//! The response envelope this layer produces: an HTTP status code and a
//! structured body that the surrounding plumbing renders as JSON.

use vstd::prelude::*;
use vstd::string::*;
use crate::records::{CustomerRow, UserProfile};

verus! {

/// Success, including the found-nothing case, which is an empty object
/// rather than a not-found error.
pub const STATUS_OK: u16 = 200;

/// Unauthorized request, malformed input, or a unique-key lookup that
/// unexpectedly matched more than one row.
pub const STATUS_UNAUTHORIZED: u16 = 401;

/// Unsupported HTTP method or operation name.
pub const STATUS_METHOD_NOT_ALLOWED: u16 = 405;

/// A store operation failed: insert, update, delete or transaction.
pub const STATUS_STORE_FAILURE: u16 = 503;

/// The JSON body of a response, in structured form.
pub enum Body {
    /// The empty object.
    Empty,
    /// An object with a single message field.
    Message(String),
    /// A customer row, serialized field by field.
    Customer(CustomerRow),
    /// The user envelope: a data object holding a user object, which is
    /// empty when no row matched.
    UserEnvelope(Option<UserProfile>),
}

/// A response: status code and structured body.
pub struct ApiResponse {
    pub status: u16,
    pub body: Body,
}

/// The response is a message with this status and this text.
pub open spec fn is_message(r: ApiResponse, status: u16, text: Seq<char>) -> bool {
    r.status == status && (r.body matches Body::Message(m) && m@ == text)
}

/// The response is the empty object with this status.
pub open spec fn is_empty_object(r: ApiResponse, status: u16) -> bool {
    r.status == status && (r.body matches Body::Empty)
}

/// Build a message response with the given status and text.
pub fn message_response(status: u16, text: &str) -> (r: ApiResponse)
    ensures
        is_message(r, status, text@),
{
    ApiResponse { status, body: Body::Message(String::from_str(text)) }
}

} // verus!
