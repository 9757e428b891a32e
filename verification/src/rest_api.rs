//! Request checks of the management REST API: authorization against the
//! configured bearer token, the proxy-port path segment, and bounded
//! rejection text.

use crate::proxy_pool::subsystem::{bounded_prefix, bounded_to_bytes, utf8_len};
use crate::text::{chars_equal, parse_u16_chars, str_chars, trim, trim_string};
use vstd::prelude::*;

verus! {

/// Longest extractor rejection text put into a response, in UTF-8 bytes.
pub const MAX_REJECTION_MESSAGE_BYTES: usize = 300;

/// An API failure: an HTTP status, a stable code and a message.
#[derive(Debug, Clone)]
pub struct ApiError {
    pub status: u16,
    pub code: &'static str,
    pub message: String,
}

impl ApiError {
    pub fn new(status: u16, code: &'static str, message: String) -> (error: ApiError)
        ensures
            error.status == status,
            error.code == code,
            error.message == message,
    {
        ApiError { status, code, message }
    }

    /// A 401 `unauthorized` failure.
    pub fn unauthorized(message: &str) -> (error: ApiError)
        ensures
            error.status == 401,
            error.code@ == "unauthorized"@,
            error.message@ == message@,
    {
        ApiError::new(401, "unauthorized", message.to_string())
    }

    /// Whether the response carries a `WWW-Authenticate` challenge.
    pub fn challenges(&self) -> (challenge: bool)
        ensures
            challenge == (self.status == 401),
    {
        self.status == 401
    }
}

/// The verdict on a request's credentials: the REST API is off without a
/// configured token; a request needs a bearer token, and the one it gives
/// must equal the configured one.
pub open spec fn authorization_spec(expected: Option<Seq<char>>, provided: Option<Seq<char>>) -> Result<(), Seq<char>> {
    match expected {
        None => Err("REST API is disabled because REST_API_TOKEN is not configured"@),
        Some(e) => match provided {
            None => Err("Missing or invalid Authorization: Bearer header"@),
            Some(p) => if p == e {
                Ok(())
            } else {
                Err("Invalid REST API token"@)
            },
        },
    }
}

/// Checks a request's bearer token against the configured token.
pub fn authorize(expected: Option<&str>, provided: Option<&str>) -> (verdict: Result<(), ApiError>)
    ensures
        match authorization_spec(
            match expected { Some(e) => Some(e@), None => None },
            match provided { Some(p) => Some(p@), None => None },
        ) {
            Ok(()) => verdict is Ok,
            Err(m) => verdict matches Err(e) && e.status == 401 && e.code@ == "unauthorized"@ && e.message@ == m,
        },
{
    match expected {
        None => Err(ApiError::unauthorized("REST API is disabled because REST_API_TOKEN is not configured")),
        Some(e) => match provided {
            None => Err(ApiError::unauthorized("Missing or invalid Authorization: Bearer header")),
            Some(p) => {
                let pc = str_chars(p);
                let ec = str_chars(e);
                if chars_equal(pc.as_slice(), ec.as_slice()) {
                    Ok(())
                } else {
                    Err(ApiError::unauthorized("Invalid REST API token"))
                }
            },
        },
    }
}

/// The proxy port named by a path segment: the trimmed segment as `u16`.
pub fn parse_proxy_port(segment: &str) -> (port: Result<u16, ApiError>)
    ensures
        match crate::text::parse_u16(trim(segment@)) {
            Some(p) => port == Ok::<u16, ApiError>(p),
            None => port matches Err(e) && e.status == 400 && e.code@ == "invalid_proxy_port"@
                && e.message@ == "path parameter must be an integer proxy port between 1 and 65535"@,
        },
{
    let trimmed = trim_string(segment);
    let chars = str_chars(trimmed.as_str());
    match parse_u16_chars(chars.as_slice()) {
        Some(p) => Ok(p),
        None => Err(ApiError::new(
            400,
            "invalid_proxy_port",
            String::from_str("path parameter must be an integer proxy port between 1 and 65535"),
        )),
    }
}

/// Extractor rejection text cut to 300 bytes on a character boundary.
pub fn bounded_rejection_message(text: &str) -> (bounded: String)
    ensures
        bounded@ == bounded_prefix(text@, MAX_REJECTION_MESSAGE_BYTES as nat),
        utf8_len(bounded@) <= MAX_REJECTION_MESSAGE_BYTES,
{
    bounded_to_bytes(text, MAX_REJECTION_MESSAGE_BYTES)
}

} // verus!
