//! The request shapes this layer consumes, after the surrounding plumbing
//! has read the event envelope and decoded any JSON body into plain values.

use vstd::prelude::*;

verus! {

/// The HTTP method of the inbound request, as far as this layer cares.
pub enum HttpMethod {
    Get,
    Post,
    Other,
}

/// The recognized fields of a customer POST body.
pub struct CustomerPost {
    pub method: String,
    pub id: Option<i64>,
    pub ssn: Option<String>,
    pub first_name: Option<String>,
    pub last_name: Option<String>,
    pub email: Option<String>,
}

/// The recognized fields of a user POST body.
pub struct UserPost {
    pub id: String,
    pub method: String,
    pub first_name: Option<String>,
    pub last_name: Option<String>,
    pub email: Option<String>,
    pub documents: Option<Vec<String>>,
}

/// What became of the POST body: absent, not decodable as the recognized
/// shape, or decoded.
pub enum ParsedBody<T> {
    Missing,
    Malformed,
    Valid(T),
}

} // verus!
