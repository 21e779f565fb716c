//! The error value that every failing endpoint answers with.

use vstd::prelude::*;
use axum::extract::rejection::{JsonRejection, QueryRejection};
use crate::text::join2;

verus! {

/// The request was malformed or refused (HTTP 400).
pub const STATUS_BAD_REQUEST: u16 = 400;

/// Authentication is missing or invalid (HTTP 401).
pub const STATUS_UNAUTHORIZED: u16 = 401;

/// The request conflicts with existing state (HTTP 409).
pub const STATUS_CONFLICT: u16 = 409;

/// The server failed on its side (HTTP 500).
pub const STATUS_INTERNAL_SERVER_ERROR: u16 = 500;

#[verifier::external_type_specification]
#[verifier::external_body]
pub struct ExJsonRejection(JsonRejection);

#[verifier::external_type_specification]
#[verifier::external_body]
pub struct ExQueryRejection(QueryRejection);

/// The text that `JsonRejection::body_text` gives for a rejection: its
/// `Display` rendering, a function of the rejection alone.
pub uninterp spec fn json_rejection_text(rejection: JsonRejection) -> Seq<char>;

/// The text that `QueryRejection::body_text` gives for a rejection: its
/// `Display` rendering, a function of the rejection alone.
pub uninterp spec fn query_rejection_text(rejection: QueryRejection) -> Seq<char>;

/// Calls `JsonRejection::body_text`; its result is named by
/// [`json_rejection_text`].
#[verifier::external_body]
fn json_rejection_body_text(rejection: &JsonRejection) -> (s: String)
    ensures
        s@ == json_rejection_text(*rejection),
{
    rejection.body_text()
}

/// Calls `QueryRejection::body_text`; its result is named by
/// [`query_rejection_text`].
#[verifier::external_body]
fn query_rejection_body_text(rejection: &QueryRejection) -> (s: String)
    ensures
        s@ == query_rejection_text(*rejection),
{
    rejection.body_text()
}

/// An HTTP status code with the message that is sent as `{"error": message}`.
#[derive(Debug)]
pub struct ApiError {
    status: u16,
    message: String,
}

impl ApiError {
    /// The status code of the error.
    pub closed spec fn spec_status(&self) -> u16 {
        self.status
    }

    /// The message of the error.
    pub closed spec fn spec_message(&self) -> Seq<char> {
        self.message@
    }

    /// The status code is a three-digit HTTP status.
    #[verifier::type_invariant]
    closed spec fn status_is_http(&self) -> bool {
        100 <= self.status <= 999
    }

    /// An error with the given status code (a three-digit HTTP status, as
    /// every `StatusCode` is) and message.
    pub fn new(status: u16, message: String) -> (e: ApiError)
        requires
            100 <= status <= 999,
        ensures
            e.spec_status() == status,
            e.spec_message() == message@,
    {
        ApiError { status, message }
    }

    /// A 400 error whose message is the rendered error `error`.
    pub fn bad_request(error: String) -> (e: ApiError)
        ensures
            e.spec_status() == STATUS_BAD_REQUEST,
            e.spec_message() == error@,
    {
        Self::new(STATUS_BAD_REQUEST, error)
    }

    /// A 401 error with the given message.
    pub fn unauthorized(message: String) -> (e: ApiError)
        ensures
            e.spec_status() == STATUS_UNAUTHORIZED,
            e.spec_message() == message@,
    {
        Self::new(STATUS_UNAUTHORIZED, message)
    }

    /// A 409 error whose message is the rendered error `error`.
    pub fn conflict(error: String) -> (e: ApiError)
        ensures
            e.spec_status() == STATUS_CONFLICT,
            e.spec_message() == error@,
    {
        Self::new(STATUS_CONFLICT, error)
    }

    /// A 500 error reading `Configuration error: ` and the rendered error.
    pub fn internal(error: String) -> (e: ApiError)
        ensures
            e.spec_status() == STATUS_INTERNAL_SERVER_ERROR,
            e.spec_message() == "Configuration error: "@ + error@,
    {
        Self::new(STATUS_INTERNAL_SERVER_ERROR, join2("Configuration error: ", error.as_str()))
    }

    /// The 400 error for a request body that could not be read, given the
    /// rejection's text.
    pub fn from_json_rejection_text(body_text: &str) -> (e: ApiError)
        ensures
            e.spec_status() == STATUS_BAD_REQUEST,
            e.spec_message() == "Invalid request body: "@ + body_text@,
    {
        Self::bad_request(join2("Invalid request body: ", body_text))
    }

    /// The 400 error for query parameters that could not be read, given the
    /// rejection's text.
    pub fn from_query_rejection_text(body_text: &str) -> (e: ApiError)
        ensures
            e.spec_status() == STATUS_BAD_REQUEST,
            e.spec_message() == "Invalid query parameters: "@ + body_text@,
    {
        Self::bad_request(join2("Invalid query parameters: ", body_text))
    }

    /// The 400 error for a request body that axum could not read as JSON.
    pub fn from_json_rejection(rejection: JsonRejection) -> (e: ApiError)
        ensures
            e.spec_status() == STATUS_BAD_REQUEST,
            e.spec_message() == "Invalid request body: "@ + json_rejection_text(rejection),
    {
        let text = json_rejection_body_text(&rejection);
        Self::from_json_rejection_text(text.as_str())
    }

    /// The 400 error for query parameters that axum could not read.
    pub fn from_query_rejection(rejection: QueryRejection) -> (e: ApiError)
        ensures
            e.spec_status() == STATUS_BAD_REQUEST,
            e.spec_message() == "Invalid query parameters: "@ + query_rejection_text(rejection),
    {
        let text = query_rejection_body_text(&rejection);
        Self::from_query_rejection_text(text.as_str())
    }

    /// The status code of the error.
    pub fn status(&self) -> (s: u16)
        ensures
            s == self.spec_status(),
            100 <= s <= 999,
    {
        proof {
            use_type_invariant(self);
        }
        self.status
    }

    /// The message of the error.
    pub fn message(&self) -> (m: &str)
        ensures
            m@ == self.spec_message(),
    {
        self.message.as_str()
    }
}

} // verus!
