//! What the provider adapters decide about an HTTP response before parsing
//! it: the body-size bound, the status, the text encoding, and how transport
//! errors are reported.

use crate::retry::machine::{prefix_chars, push_status, status_display};
use crate::search::types::{SearchError, SearchErrorKind, SearchProviderKind};
use crate::search::util::{decode_utf8_lossy, encoded_bytes, urlencoding_simple, utf8_encode, utf8_lossy};
use crate::text::{
    contains_seq, decimal, push_decimal, push_str, str_chars, string_from_range, trim_end_char,
    trim_end_char_len,
};
use vstd::prelude::*;

verus! {

/// Characters of a failed response body quoted in the error.
pub const QUOTED_BODY_CHARS: usize = 300;

/// The refusal of a response whose declared length exceeds the bound.
pub open spec fn declared_too_large(max_bytes: usize) -> Seq<char> {
    "response content-length exceeds "@ + decimal(max_bytes as nat) + " bytes"@
}

/// The refusal of a response whose body outgrows the bound.
pub open spec fn body_too_large(max_bytes: usize) -> Seq<char> {
    "response exceeded "@ + decimal(max_bytes as nat) + " bytes"@
}

/// Refuses a response whose `Content-Length` exceeds `max_bytes`.
pub fn check_declared_length(provider: SearchProviderKind, content_length: Option<u64>, max_bytes: usize) -> (verdict: Result<(), SearchError>)
    ensures
        match content_length {
            Some(n) if n > max_bytes => verdict matches Err(e) && e.provider == provider
                && e.kind == SearchErrorKind::ResponseTooLarge && e.message@ == declared_too_large(max_bytes),
            _ => verdict is Ok,
        },
{
    match content_length {
        Some(n) => {
            if n > max_bytes as u64 {
                let mut message = String::new();
                push_str(&mut message, "response content-length exceeds ");
                push_decimal(&mut message, max_bytes as u64);
                push_str(&mut message, " bytes");
                Err(SearchError::new(provider, SearchErrorKind::ResponseTooLarge, message))
            } else {
                Ok(())
            }
        },
        None => Ok(()),
    }
}

/// Appends a received chunk to the body, or refuses it where the body would
/// grow past `max_bytes` (the body is then left as it was).
pub fn append_chunk(provider: SearchProviderKind, body: &mut Vec<u8>, chunk: &[u8], max_bytes: usize) -> (verdict: Result<(), SearchError>)
    ensures
        old(body)@.len() + chunk@.len() > max_bytes ==> final(body)@ == old(body)@ && (verdict matches Err(e)
            && e.provider == provider && e.kind == SearchErrorKind::ResponseTooLarge && e.message@
            == body_too_large(max_bytes)),
        old(body)@.len() + chunk@.len() <= max_bytes ==> final(body)@ == old(body)@ + chunk@ && verdict is Ok,
{
    if chunk.len() > max_bytes || body.len() > max_bytes - chunk.len() {
        let mut message = String::new();
        push_str(&mut message, "response exceeded ");
        push_decimal(&mut message, max_bytes as u64);
        push_str(&mut message, " bytes");
        return Err(SearchError::new(provider, SearchErrorKind::ResponseTooLarge, message));
    }
    let mut i: usize = 0;
    let ghost start = body@;
    while i < chunk.len()
        invariant
            i <= chunk@.len(),
            body@ == start + chunk@.take(i as int),
        decreases chunk@.len() - i,
    {
        body.push(chunk[i]);
        i = i + 1;
        assert(body@ =~= start + chunk@.take(i as int));
    }
    assert(chunk@.take(chunk@.len() as int) =~= chunk@);
    Ok(())
}

/// The error for a response with a non-success status: the status, then the
/// start of the body decoded leniently.
pub open spec fn status_failure_message(status: u16, body: Seq<u8>) -> Seq<char> {
    "status "@ + status_display(status) + ": "@ + prefix_chars(utf8_lossy(body), QUOTED_BODY_CHARS as nat)
}

/// `None` for a success status; else the provider's HTTP-status error.
pub fn status_failure(provider: SearchProviderKind, status: u16, body: &[u8]) -> (failure: Option<SearchError>)
    ensures
        200 <= status <= 299 ==> failure is None,
        !(200 <= status <= 299) ==> (failure matches Some(e) && e.provider == provider && e.kind
            == SearchErrorKind::HttpStatus && e.message@ == status_failure_message(status, body@)),
{
    if 200 <= status && status <= 299 {
        return None;
    }
    let text = decode_utf8_lossy(body);
    let quoted = crate::retry::machine::prefix_string(text.as_str(), QUOTED_BODY_CHARS);
    let mut message = String::new();
    push_str(&mut message, "status ");
    push_status(&mut message, status);
    push_str(&mut message, ": ");
    push_str(&mut message, quoted.as_str());
    Some(SearchError::new(provider, SearchErrorKind::HttpStatus, message))
}

/// What `String::from_utf8` makes of `bytes`: the text, or the `Display`
/// text of its error.
pub uninterp spec fn utf8_strict(bytes: Seq<u8>) -> Result<Seq<char>, Seq<char>>;

/// Decodes `bytes` as strict UTF-8 (trusted: `String::from_utf8`, the error
/// rendered with `to_string`); text comes back only where the bytes are its
/// UTF-8 encoding.
#[verifier::external_body]
fn decode_utf8_strict(bytes: Vec<u8>) -> (decoded: Result<String, String>)
    ensures
        match decoded {
            Ok(text) => utf8_strict(bytes@) == Ok::<Seq<char>, Seq<char>>(text@) && utf8_encode(text@)
                == bytes@,
            Err(message) => utf8_strict(bytes@) == Err::<Seq<char>, Seq<char>>(message@),
        },
{
    String::from_utf8(bytes).map_err(|error| error.to_string())
}

/// The text body of an HTML provider's response: the status error, else the
/// body as strict UTF-8, else a malformed-response error.
pub fn text_body(provider: SearchProviderKind, status: u16, body: Vec<u8>) -> (text: Result<String, SearchError>)
    ensures
        !(200 <= status <= 299) ==> (text matches Err(e) && e.provider == provider && e.kind
            == SearchErrorKind::HttpStatus && e.message@ == status_failure_message(status, body@)),
        200 <= status <= 299 ==> match utf8_strict(body@) {
            Ok(s) => text matches Ok(t) && t@ == s,
            Err(m) => text matches Err(e) && e.provider == provider && e.kind
                == SearchErrorKind::MalformedResponse && e.message@ == "response is not valid UTF-8: "@ + m,
        },
{
    match status_failure(provider, status, body.as_slice()) {
        Some(error) => Err(error),
        None => match decode_utf8_strict(body) {
            Ok(text) => Ok(text),
            Err(detail) => {
                let mut message = String::new();
                push_str(&mut message, "response is not valid UTF-8: ");
                push_str(&mut message, detail.as_str());
                Err(SearchError::new(provider, SearchErrorKind::MalformedResponse, message))
            },
        },
    }
}

/// The error for a JSON body that does not parse, with the parser's message.
pub fn invalid_json(provider: SearchProviderKind, detail: &str) -> (error: SearchError)
    ensures
        error.provider == provider,
        error.kind == SearchErrorKind::MalformedResponse,
        error.message@ == "invalid JSON response: "@ + detail@,
{
    let mut message = String::new();
    push_str(&mut message, "invalid JSON response: ");
    push_str(&mut message, detail);
    SearchError::new(provider, SearchErrorKind::MalformedResponse, message)
}

/// The error for a failed request: a timeout, else a transport error, with
/// the client's message.
pub fn request_error(provider: SearchProviderKind, is_timeout: bool, detail: String) -> (error: SearchError)
    ensures
        error.provider == provider,
        error.kind == (if is_timeout { SearchErrorKind::Timeout } else { SearchErrorKind::Transport }),
        error.message == detail,
{
    let kind = if is_timeout { SearchErrorKind::Timeout } else { SearchErrorKind::Transport };
    SearchError::new(provider, kind, detail)
}

/// The error for an endpoint URL that does not parse.
pub fn endpoint_error(provider: SearchProviderKind, detail: String) -> (error: SearchError)
    ensures
        error.provider == provider,
        error.kind == SearchErrorKind::UnsafeEndpoint,
        error.message == detail,
{
    SearchError::new(provider, SearchErrorKind::UnsafeEndpoint, detail)
}


/// The SearXNG JSON search URL for a query: the base URL extended with the
/// encoded query where it already has a query string, else its `/search`
/// path (trailing slashes dropped) with the query.
pub open spec fn searxng_url_spec(base_url: Seq<char>, query: Seq<char>) -> Seq<char> {
    let encoded = encoded_bytes(utf8_encode(query));
    if contains_seq(base_url, seq!['?']) {
        base_url + "&q="@ + encoded + "&format=json"@
    } else {
        trim_end_char(base_url, '/') + "/search?q="@ + encoded + "&format=json"@
    }
}

/// The URL of a SearXNG search for `query`.
pub fn searxng_search_url(base_url: &str, query: &str) -> (url: String)
    ensures
        url@ == searxng_url_spec(base_url@, query@),
{
    let encoded = urlencoding_simple(query);
    let chars = str_chars(base_url);
    let mark: Vec<char> = vec!['?'];
    assert(mark@ =~= seq!['?']);
    let mut url = if crate::text::contains(chars.as_slice(), mark.as_slice()) {
        let mut u = base_url.to_string();
        push_str(&mut u, "&q=");
        u
    } else {
        let end = trim_end_char_len(chars.as_slice(), 0, '/');
        assert(chars@.subrange(0, chars@.len() as int) =~= chars@);
        let mut u = string_from_range(chars.as_slice(), 0, end);
        push_str(&mut u, "/search?q=");
        u
    };
    push_str(&mut url, encoded.as_str());
    push_str(&mut url, "&format=json");
    url
}

} // verus!
