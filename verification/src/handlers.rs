//! What the HTTP handlers decide: the bearer token of a request and the response to it.

use vstd::prelude::*;

use crate::error::Error;
use crate::text::{header_text_byte, header_value_text, trim_start_matches, trim_start_matches_text};

verus! {

/// Prefix stripped from the `Authorization` header.
pub const BEARER_PREFIX: &'static str = "Bearer ";

/// Why a request was not authenticated.
#[derive(Debug, Clone, Copy, PartialEq, Eq)]
pub enum AuthFailure {
    /// No `Authorization` header.
    MissingHeader,
    /// The header is not visible ASCII text.
    InvalidEncoding,
    /// The token did not verify.
    InvalidToken,
}

/// The header's bytes read as characters.
pub open spec fn header_chars(bytes: Seq<u8>) -> Seq<char> {
    bytes.map_values(|b: u8| b as char)
}

/// Whether every byte of the header may be read as text.
pub open spec fn header_is_text(bytes: Seq<u8>) -> bool {
    forall|i: int| 0 <= i < bytes.len() ==> header_text_byte(#[trigger] bytes[i])
}

/// The token of a request with this `Authorization` header (its bytes, if present): the
/// header text with every leading `"Bearer "` removed.
pub fn bearer_token(authorization: Option<&[u8]>) -> (r: Result<String, AuthFailure>)
    ensures
        match authorization {
            None => r == Err::<String, AuthFailure>(AuthFailure::MissingHeader),
            Some(bytes) => if header_is_text(bytes@) {
                r matches Ok(t) && t@ == trim_start_matches(header_chars(bytes@), BEARER_PREFIX@)
            } else {
                r == Err::<String, AuthFailure>(AuthFailure::InvalidEncoding)
            },
        },
{
    match authorization {
        None => Err(AuthFailure::MissingHeader),
        Some(bytes) => match header_value_text(bytes) {
            None => Err(AuthFailure::InvalidEncoding),
            Some(text) => Ok(trim_start_matches_text(text.as_str(), BEARER_PREFIX)),
        },
    }
}

/// A handler's answer: HTTP status and message.
pub struct HandlerResponse {
    pub status: u16,
    pub message: String,
}

/// The authenticated endpoints, which answer a failed authentication each from the
/// statuses that its documentation lists.
#[derive(Debug, Clone, Copy, PartialEq, Eq)]
pub enum AuthenticatedEndpoint {
    /// `/api/v1/events` and `/api/v2/events`: documented 200, 401, 500.
    SingleEvent,
    /// `/api/v1/events/bulk` and `/api/v2/events/bulk`: documented 200, 400, 403, 500.
    BulkEvents,
    /// `/api/v1/events/new-ai-influencer-message`: documented 200, 401, 500.
    InfluencerMessage,
}

/// The message that tells a failed authentication.
pub open spec fn auth_failure_message(failure: AuthFailure) -> Seq<char> {
    match failure {
        AuthFailure::MissingHeader => "Missing Authorization header"@,
        AuthFailure::InvalidEncoding => "Invalid Authorization header encoding"@,
        AuthFailure::InvalidToken => "Invalid authentication token"@,
    }
}

/// The status with which `endpoint` answers `failure`: 401 (Unauthorized) on the
/// single-event and AI-influencer endpoints; on the bulk endpoints 400 for a header that
/// cannot be read and 403 (Forbidden) for a missing header or a rejected token.
pub open spec fn auth_failure_status(endpoint: AuthenticatedEndpoint, failure: AuthFailure) -> u16 {
    match endpoint {
        AuthenticatedEndpoint::BulkEvents => match failure {
            AuthFailure::InvalidEncoding => 400,
            _ => 403,
        },
        _ => 401,
    }
}

/// The answer of `endpoint` to a request that was not authenticated.
pub fn auth_failure_response(endpoint: AuthenticatedEndpoint, failure: AuthFailure) -> (r:
    HandlerResponse)
    ensures
        r.status == auth_failure_status(endpoint, failure),
        r.message@ == auth_failure_message(failure),
        endpoint != AuthenticatedEndpoint::BulkEvents ==> r.status == 401,
        endpoint == AuthenticatedEndpoint::BulkEvents ==> (r.status == 400 || r.status == 403),
{
    let status: u16 = match endpoint {
        AuthenticatedEndpoint::BulkEvents => match failure {
            AuthFailure::InvalidEncoding => 400,
            _ => 403,
        },
        _ => 401,
    };
    let message = match failure {
        AuthFailure::MissingHeader => String::from_str("Missing Authorization header"),
        AuthFailure::InvalidEncoding => String::from_str("Invalid Authorization header encoding"),
        AuthFailure::InvalidToken => String::from_str("Invalid authentication token"),
    };
    HandlerResponse { status, message }
}

/// The event endpoints: one event per request, or many.
#[derive(Debug, Clone, Copy, PartialEq, Eq)]
pub enum EventRoute {
    Single,
    Bulk,
}

/// The error that a failed event processing is reported as.
pub fn processing_error(route: EventRoute) -> (r: Error)
    ensures
        route == EventRoute::Single ==> (r matches Error::Unknown(m) && m@
            == "Failed to process event"@),
        route == EventRoute::Bulk ==> (r matches Error::Unknown(m) && m@
            == "Failed to process bulk events"@),
{
    match route {
        EventRoute::Single => Error::Unknown(String::from_str("Failed to process event")),
        EventRoute::Bulk => Error::Unknown(String::from_str("Failed to process bulk events")),
    }
}

/// The answer of an event endpoint once the request is authenticated, by whether its
/// events were processed.
pub fn event_response(route: EventRoute, processed: bool) -> (r: HandlerResponse)
    ensures
        processed && route == EventRoute::Single ==> r.status == 200 && r.message@
            == "Event processed"@,
        processed && route == EventRoute::Bulk ==> r.status == 200 && r.message@
            == "Events processed"@,
        !processed && route == EventRoute::Single ==> r.status == 500 && r.message@
            == "Failed to process event"@,
        !processed && route == EventRoute::Bulk ==> r.status == 500 && r.message@
            == "Failed to process bulk events"@,
{
    match (route, processed) {
        (EventRoute::Single, true) => HandlerResponse {
            status: 200,
            message: String::from_str("Event processed"),
        },
        (EventRoute::Bulk, true) => HandlerResponse {
            status: 200,
            message: String::from_str("Events processed"),
        },
        (EventRoute::Single, false) => HandlerResponse {
            status: 500,
            message: String::from_str("Failed to process event"),
        },
        (EventRoute::Bulk, false) => HandlerResponse {
            status: 500,
            message: String::from_str("Failed to process bulk events"),
        },
    }
}

/// The answer of the AI-influencer message endpoint once the notification is handed on.
pub fn influencer_message_response() -> (r: HandlerResponse)
    ensures
        r.status == 200,
        r.message@ == "AI Influencer Chat Notification Processed"@,
{
    HandlerResponse {
        status: 200,
        message: String::from_str("AI Influencer Chat Notification Processed"),
    }
}

/// The token that the authenticated health check verifies, or the error it fails with.
pub fn health_check_token(authorization: Option<&[u8]>) -> (r: Result<String, Error>)
    ensures
        match authorization {
            None => r matches Err(Error::AuthTokenMissing),
            Some(bytes) => if header_is_text(bytes@) {
                r matches Ok(t) && t@ == trim_start_matches(header_chars(bytes@), BEARER_PREFIX@)
            } else {
                r matches Err(Error::AuthTokenInvalid)
            },
        },
{
    match bearer_token(authorization) {
        Ok(t) => Ok(t),
        Err(AuthFailure::MissingHeader) => Err(Error::AuthTokenMissing),
        Err(_) => Err(Error::AuthTokenInvalid),
    }
}

/// The message of a passed authenticated health check.
pub fn health_check_message() -> (r: String)
    ensures
        r@ == "Authenticated health check passed"@,
{
    String::from_str("Authenticated health check passed")
}

} // verus!
