use vstd::prelude::*;
use crate::error::{AppError, decimal, decimal_text};
use crate::models::WebhookRequest;
use crate::query::{as_map, collapse_headers, parse_query, query_map, unique_keys};

verus! {

pub open spec fn is_hex_digit(c: char) -> bool {
    ('0' <= c && c <= '9') || ('a' <= c && c <= 'f') || ('A' <= c && c <= 'F')
}

/// The code of a character with ASCII upper case folded to lower case.
pub open spec fn ascii_fold(c: char) -> u32 {
    if 'A' <= c && c <= 'Z' {
        (c as u32 + 32) as u32
    } else {
        c as u32
    }
}

/// `xxxxxxxx-xxxx-xxxx-xxxx-xxxxxxxxxxxx` with hexadecimal digits `x`.
pub open spec fn is_hyphenated_uuid(s: Seq<char>) -> bool {
    s.len() == 36 && forall|i: int|
        0 <= i < 36 ==> if i == 8 || i == 13 || i == 18 || i == 23 {
            #[trigger] s[i] == '-'
        } else {
            is_hex_digit(s[i])
        }
}

/// The texts `uuid::Uuid::parse_str` accepts: 32 hexadecimal digits, the
/// hyphenated form, the hyphenated form in braces, or the hyphenated form after
/// `urn:uuid:` in any ASCII case.
pub open spec fn is_uuid_text(s: Seq<char>) -> bool {
    ||| (s.len() == 32 && forall|i: int| 0 <= i < 32 ==> is_hex_digit(#[trigger] s[i]))
    ||| is_hyphenated_uuid(s)
    ||| (s.len() == 38 && s[0] == '{' && s[37] == '}' && is_hyphenated_uuid(s.subrange(1, 37)))
    ||| (s.len() == 45 && (forall|i: int|
        0 <= i < 9 ==> ascii_fold(#[trigger] s[i]) == ascii_fold("urn:uuid:"@[i]))
        && is_hyphenated_uuid(s.subrange(9, 45)))
}

/// Relies on `uuid::Uuid::parse_str`: it accepts exactly the forms above
/// (its `try_parse`, `parse_hyphenated` and `decode_hex32`), and never panics.
#[verifier::external_body]
fn uuid_parses(s: &str) -> (r: bool)
    ensures
        r == is_uuid_text(s@),
{
    uuid::Uuid::parse_str(s).is_ok()
}

/// The result of checking a session identifier, given whether it parsed.
pub fn check_session_id(session_id: &str, parsed: bool) -> (r: Result<(), AppError>)
    ensures
        parsed <==> r is Ok,
        !parsed ==> (r matches Err(AppError::InvalidUuid(s)) && s@ == session_id@),
{
    if parsed {
        Ok(())
    } else {
        Err(AppError::InvalidUuid(String::from_str(session_id)))
    }
}

/// A session identifier must be a UUID; otherwise `InvalidUuid` carrying the text.
pub fn validate_session_id(session_id: &str) -> (r: Result<(), AppError>)
    ensures
        is_uuid_text(session_id@) <==> r is Ok,
        !is_uuid_text(session_id@) ==> (r matches Err(AppError::InvalidUuid(s)) && s@
            == session_id@),
{
    let parsed = uuid_parses(session_id);
    check_session_id(session_id, parsed)
}

/// The answer to a lookup for a session that must exist.
pub fn require_session(exists: bool) -> (r: Result<(), AppError>)
    ensures
        exists <==> r is Ok,
        !exists ==> r matches Err(AppError::SessionNotFound),
{
    if exists {
        Ok(())
    } else {
        Err(AppError::SessionNotFound)
    }
}

/// Where the admission of one captured call stands.
#[derive(Debug)]
pub enum IngestStep {
    /// Ask the store whether the session exists.
    CheckSession,
    /// Ask the store how many requests the session holds.
    CountRequests,
    /// Write the request to the store and publish it.
    Archive,
    /// The request is captured; acknowledge it.
    Acknowledge,
    Reject(AppError),
}

/// What the store answered to the last step.
#[derive(Debug)]
pub enum StoreReply {
    Exists(bool),
    Count(usize),
    Saved,
    Failed(String),
}

pub open spec fn rate_limit_text(max_requests: nat) -> Seq<char> {
    "Maximum "@ + decimal(max_requests) + " requests per session exceeded"@
}

fn rate_limit_message(max_requests: usize) -> (r: String)
    ensures
        r@ == rate_limit_text(max_requests as nat),
{
    let mut m = String::from_str("Maximum ");
    m.append(decimal_text(max_requests).as_str());
    m.append(" requests per session exceeded");
    m
}

/// First step of admission, given whether the session identifier parsed:
/// a malformed identifier, then an oversized body, is rejected before any store access.
pub fn begin_ingest_checked(session_id: &str, parsed: bool, body_len: usize, max_body: usize) -> (r:
    IngestStep)
    ensures
        !parsed ==> (r matches IngestStep::Reject(AppError::InvalidUuid(s)) && s@ == session_id@),
        parsed && body_len > max_body ==> (r matches IngestStep::Reject(
            AppError::PayloadTooLarge { size, limit },
        ) && size == body_len && limit == max_body),
        parsed && body_len <= max_body ==> r is CheckSession,
{
    if !parsed {
        IngestStep::Reject(AppError::InvalidUuid(String::from_str(session_id)))
    } else if body_len > max_body {
        IngestStep::Reject(AppError::PayloadTooLarge { size: body_len, limit: max_body })
    } else {
        IngestStep::CheckSession
    }
}

/// First step of admission of a call with a body of `body_len` bytes.
pub fn begin_ingest(session_id: &str, body_len: usize, max_body: usize) -> (r: IngestStep)
    ensures
        !is_uuid_text(session_id@) ==> (r matches IngestStep::Reject(AppError::InvalidUuid(s))
            && s@ == session_id@),
        is_uuid_text(session_id@) && body_len > max_body ==> (r matches IngestStep::Reject(
            AppError::PayloadTooLarge { size, limit },
        ) && size == body_len && limit == max_body),
        is_uuid_text(session_id@) && body_len <= max_body ==> r is CheckSession,
{
    let parsed = uuid_parses(session_id);
    begin_ingest_checked(session_id, parsed, body_len, max_body)
}

/// Next step of admission once the store answered: a missing session is
/// `SessionNotFound`, a session already holding `max_requests` requests is
/// `RateLimitExceeded`, a store failure is a `Redis` error.
pub fn advance_ingest(step: IngestStep, reply: StoreReply, max_requests: usize) -> (r: IngestStep)
    ensures
        reply matches StoreReply::Failed(e) ==> (step is CheckSession || step is CountRequests
            || step is Archive) ==> (r matches IngestStep::Reject(AppError::Redis(m)) && m@ == e@),
        step is CheckSession ==> (reply matches StoreReply::Exists(b) ==> (b ==> r is CountRequests)
            && (!b ==> r matches IngestStep::Reject(AppError::SessionNotFound))),
        step is CountRequests ==> (reply matches StoreReply::Count(c) ==> (c < max_requests
            ==> r is Archive) && (c >= max_requests ==> (r matches IngestStep::Reject(
            AppError::RateLimitExceeded(m)) && m@ == rate_limit_text(max_requests as nat)))),
        step is Archive ==> (reply is Saved ==> r is Acknowledge),
        (step is Acknowledge || step is Reject) ==> r == step,
        (step is CheckSession && !(reply is Exists || reply is Failed)) || (step is CountRequests
            && !(reply is Count || reply is Failed)) || (step is Archive && !(reply is Saved
            || reply is Failed)) ==> r matches IngestStep::Reject(AppError::Internal(_)),
{
    match (step, reply) {
        (IngestStep::Acknowledge, _) => IngestStep::Acknowledge,
        (IngestStep::Reject(e), _) => IngestStep::Reject(e),
        (_, StoreReply::Failed(e)) => IngestStep::Reject(AppError::Redis(e)),
        (IngestStep::CheckSession, StoreReply::Exists(b)) => {
            if b {
                IngestStep::CountRequests
            } else {
                IngestStep::Reject(AppError::SessionNotFound)
            }
        },
        (IngestStep::CountRequests, StoreReply::Count(c)) => {
            if c < max_requests {
                IngestStep::Archive
            } else {
                IngestStep::Reject(AppError::RateLimitExceeded(rate_limit_message(max_requests)))
            }
        },
        (IngestStep::Archive, StoreReply::Saved) => IngestStep::Acknowledge,
        _ => IngestStep::Reject(AppError::Internal(String::from_str("unexpected store reply"))),
    }
}

/// Text of a body, as `String::from_utf8_lossy` decodes it.
pub uninterp spec fn utf8_lossy(b: Seq<u8>) -> Seq<char>;

/// Relies on `String::from_utf8_lossy`: the body as text, each invalid UTF-8
/// sequence replaced by U+FFFD; a function of the bytes alone.
#[verifier::external_body]
fn lossy_text(b: &[u8]) -> (r: String)
    ensures
        r@ == utf8_lossy(b@),
{
    String::from_utf8_lossy(b).to_string()
}

/// The record of one admitted call whose body reads as `body_text` and is
/// `body_len` bytes long.
pub fn capture_request_text(
    request_id: &str,
    method: &str,
    path: &str,
    query_string: &str,
    header_lines: Vec<(String, String)>,
    body_text: String,
    body_len: usize,
    ip_address: String,
    user_agent: String,
    timestamp: &str,
) -> (r: WebhookRequest)
    ensures
        r.request_id@ == request_id@,
        r.method@ == method@,
        r.path@ == path@,
        unique_keys(r.query_params@),
        as_map(r.query_params@) == query_map(query_string@),
        unique_keys(r.headers@),
        as_map(r.headers@) == as_map(header_lines@),
        r.body@ == body_text@,
        r.ip_address@ == ip_address@,
        r.user_agent@ == user_agent@,
        r.timestamp@ == timestamp@,
        r.content_length == body_len,
{
    WebhookRequest {
        request_id: String::from_str(request_id),
        method: String::from_str(method),
        path: String::from_str(path),
        query_params: parse_query(query_string),
        headers: collapse_headers(header_lines),
        body: body_text,
        ip_address,
        user_agent,
        timestamp: String::from_str(timestamp),
        content_length: body_len,
    }
}

/// The record of one admitted call: parameters parsed from the query string,
/// header lines collapsed to one value per name, the body as text and its size.
pub fn capture_request(
    request_id: &str,
    method: &str,
    path: &str,
    query_string: &str,
    header_lines: Vec<(String, String)>,
    body: &[u8],
    ip_address: String,
    user_agent: String,
    timestamp: &str,
) -> (r: WebhookRequest)
    ensures
        r.request_id@ == request_id@,
        r.method@ == method@,
        r.path@ == path@,
        unique_keys(r.query_params@),
        as_map(r.query_params@) == query_map(query_string@),
        unique_keys(r.headers@),
        as_map(r.headers@) == as_map(header_lines@),
        r.body@ == utf8_lossy(body@),
        r.ip_address@ == ip_address@,
        r.user_agent@ == user_agent@,
        r.timestamp@ == timestamp@,
        r.content_length == body@.len(),
{
    let text = lossy_text(body);
    capture_request_text(
        request_id,
        method,
        path,
        query_string,
        header_lines,
        text,
        body.len(),
        ip_address,
        user_agent,
        timestamp,
    )
}

} // verus!
