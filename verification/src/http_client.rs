//! What the HTTP client decides around its requests: its timeout, when
//! redirects are followed, and which error an answer is.

use vstd::prelude::*;
use crate::json::{parse_json, parsed_json, JsonValue};
use crate::text::{concat2, contains_str, dec, has_sub, owned, push_str, u64_to_string};

verus! {

/// Errors of HTTP requests.
#[derive(Debug, Clone)]
pub enum HttpClientError {
    RequestError(String),
    ParseError(String),
    ServerError(String),
    EmptyResponse,
}

/// The text an error is shown as.
pub open spec fn error_text(e: HttpClientError) -> Seq<char> {
    match e {
        HttpClientError::RequestError(m) => "HTTP request error: "@ + m@,
        HttpClientError::ParseError(m) => "Failed to parse response: "@ + m@,
        HttpClientError::ServerError(m) => "Server error: "@ + m@,
        HttpClientError::EmptyResponse => "Empty response from server"@,
    }
}

impl HttpClientError {
    /// The text the error is shown as.
    pub fn message(&self) -> (r: String)
        ensures
            r@ == error_text(*self),
    {
        match self {
            HttpClientError::RequestError(m) => concat2("HTTP request error: ", m.as_str()),
            HttpClientError::ParseError(m) => concat2("Failed to parse response: ", m.as_str()),
            HttpClientError::ServerError(m) => concat2("Server error: ", m.as_str()),
            HttpClientError::EmptyResponse => owned("Empty response from server"),
        }
    }
}

/// The number of redirects followed when no header is attached.
pub const DEFAULT_REDIRECT_LIMIT: u32 = 5;

/// How many redirects a request follows: none when headers are attached, so
/// that a credential is never re-sent to a host a redirect chose.
pub fn redirect_limit(header_count: usize) -> (r: u32)
    ensures
        r == if header_count == 0 {
            DEFAULT_REDIRECT_LIMIT
        } else {
            0
        },
{
    if header_count == 0 {
        DEFAULT_REDIRECT_LIMIT
    } else {
        0
    }
}

/// The error an answer with an error status is.
pub open spec fn spec_status_error(code: u16, body: Seq<char>) -> Seq<char> {
    if code == 401 {
        "HTTP 401 Unauthorized: Authentication failed. Check that the proxy_secret is correct in secrets.txt and matches what the OAuth service expects. Error: "@
            + body
    } else {
        "HTTP "@ + dec(code as nat) + " error: "@ + body
    }
}

/// The error an answer with an error status is.
pub fn status_error(code: u16, body: &str) -> (r: HttpClientError)
    ensures
        r matches HttpClientError::ServerError(m) && m@ == spec_status_error(code, body@),
{
    if code == 401 {
        HttpClientError::ServerError(concat2(
            "HTTP 401 Unauthorized: Authentication failed. Check that the proxy_secret is correct in secrets.txt and matches what the OAuth service expects. Error: ",
            body,
        ))
    } else {
        let mut m = owned("HTTP ");
        let n = u64_to_string(code as u64);
        push_str(&mut m, n.as_str());
        push_str(&mut m, " error: ");
        push_str(&mut m, body);
        HttpClientError::ServerError(m)
    }
}

/// Whether a body looks like an HTML page.
pub open spec fn looks_like_html(body: Seq<char>) -> bool {
    has_sub(body, "<html"@) || has_sub(body, "<!DOCTYPE"@)
}

/// The message a body that is not JSON is reported with.
pub open spec fn parse_error_text(body: Seq<char>, parse_error: Seq<char>) -> Seq<char> {
    if looks_like_html(body) {
        "Response is HTML instead of expected JSON. The OAuth service might be returning an error page."@
    } else {
        "Failed to parse response: "@ + parse_error
    }
}

/// The error a body that is not JSON is: an HTML page is named as such.
pub fn json_parse_error(body: &str, parse_error: &str) -> (r: HttpClientError)
    ensures
        r matches HttpClientError::ParseError(m) && m@ == parse_error_text(body@, parse_error@),
{
    if contains_str(body, "<html") || contains_str(body, "<!DOCTYPE") {
        HttpClientError::ParseError(owned(
            "Response is HTML instead of expected JSON. The OAuth service might be returning an error page.",
        ))
    } else {
        HttpClientError::ParseError(concat2("Failed to parse response: ", parse_error))
    }
}

/// An empty body is an error of its own.
pub fn check_not_empty(body: &str) -> (r: Result<(), HttpClientError>)
    ensures
        r is Err <==> body@.len() == 0,
        r matches Err(e) ==> e is EmptyResponse,
{
    if body.unicode_len() == 0 {
        Err(HttpClientError::EmptyResponse)
    } else {
        Ok(())
    }
}

/// A body read with one byte to spare is refused when it is over the cap.
pub fn check_body_size(len: u64, max_bytes: u64) -> (r: Result<(), HttpClientError>)
    ensures
        r is Err <==> len > max_bytes,
        r matches Err(e) ==> (e matches HttpClientError::ParseError(m)
            && m@ == "Response body exceeds the "@ + dec(max_bytes as nat) + " byte limit"@),
{
    if len > max_bytes {
        let mut m = owned("Response body exceeds the ");
        let n = u64_to_string(max_bytes);
        push_str(&mut m, n.as_str());
        push_str(&mut m, " byte limit");
        Err(HttpClientError::ParseError(m))
    } else {
        Ok(())
    }
}

/// How much of a body to read to know whether it is over the cap.
pub fn read_limit(max_bytes: u64) -> (r: u64)
    ensures
        r == if max_bytes == u64::MAX {
            u64::MAX as int
        } else {
            max_bytes + 1
        },
{
    max_bytes.saturating_add(1)
}

/// An HTTP client over ureq, with one timeout for every request.
#[derive(Debug, Clone)]
pub struct UreqHttpClient {
    timeout_secs: u64,
}

impl UreqHttpClient {
    /// A client whose requests time out after `timeout_secs` seconds.
    pub fn new(timeout_secs: u64) -> (r: UreqHttpClient)
        ensures
            r.spec_timeout() == timeout_secs,
    {
        UreqHttpClient { timeout_secs }
    }

    pub closed spec fn spec_timeout(&self) -> u64 {
        self.timeout_secs
    }

    /// The timeout, in seconds.
    pub fn timeout_secs(&self) -> (r: u64)
        ensures
            r == self.spec_timeout(),
    {
        self.timeout_secs
    }
}

impl Default for UreqHttpClient {
    fn default() -> (r: UreqHttpClient)
        ensures
            r.spec_timeout() == 5,
    {
        UreqHttpClient::new(5)
    }
}

/// A response body as JSON: an empty body is `EmptyResponse`; one that
/// reads is its tree; one that does not is the parse error for it.
pub fn json_body(text: &str) -> (r: Result<JsonValue, HttpClientError>)
    ensures
        text@.len() == 0 ==> r matches Err(HttpClientError::EmptyResponse),
        text@.len() > 0 ==> match parsed_json(text@) {
            Ok(v) => r matches Ok(w) && w == v,
            Err(e) => r matches Err(HttpClientError::ParseError(m)) && m@ == parse_error_text(text@, e),
        },
{
    match check_not_empty(text) {
        Ok(()) => {},
        Err(e) => return Err(e),
    }
    match parse_json(text) {
        Ok(v) => Ok(v),
        Err(e) => Err(json_parse_error(text, e.as_str())),
    }
}

} // verus!
