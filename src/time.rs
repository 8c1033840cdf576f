use vstd::prelude::*;
use crate::models::Session;

verus! {

/// Milliseconds since the Unix epoch of a timestamp text, as chrono reads it.
pub uninterp spec fn rfc3339_millis(s: Seq<char>) -> Option<i64>;

/// RFC 3339 text of the instant `secs` seconds and `nanos` nanoseconds after
/// the Unix epoch, or `None` when chrono holds no such instant.
pub uninterp spec fn rfc3339_at(secs: i64, nanos: u32) -> Option<Seq<char>>;

/// Relies on `str::parse::<chrono::DateTime<chrono::Utc>>` and
/// `DateTime::timestamp_millis`: the instant a timestamp text names, in
/// milliseconds, or `None` when the text is not one; a function of the text alone.
#[verifier::external_body]
fn parse_millis(s: &str) -> (r: Option<i64>)
    ensures
        r == rfc3339_millis(s@),
{
    s.parse::<chrono::DateTime<chrono::Utc>>().ok().map(|dt| dt.timestamp_millis())
}

/// Relies on `chrono::DateTime::<Utc>::from_timestamp`, which gives `None`
/// outside chrono's range of instants, and `DateTime::to_rfc3339`, which writes
/// any year it holds (with a sign beyond 9999) and never fails.
#[verifier::external_body]
fn format_instant(secs: i64, nanos: u32) -> (r: Option<String>)
    ensures
        r is None <==> rfc3339_at(secs, nanos) is None,
        r matches Some(t) ==> rfc3339_at(secs, nanos) == Some(t@),
{
    chrono::DateTime::<chrono::Utc>::from_timestamp(secs, nanos).map(|d| d.to_rfc3339())
}

/// The order-index score of a request, given how its timestamp parsed: the
/// parsed instant, else the current time, so that no request lacks a score.
pub fn score_from(parsed: Option<i64>, now_millis: i64) -> (r: i64)
    ensures
        r == (match parsed {
            Some(m) => m,
            None => now_millis,
        }),
{
    match parsed {
        Some(m) => m,
        None => now_millis,
    }
}

/// The order-index score of a request stamped `timestamp`.
pub fn index_score(timestamp: &str, now_millis: i64) -> (r: i64)
    ensures
        r == (match rfc3339_millis(timestamp@) {
            Some(m) => m,
            None => now_millis,
        }),
{
    score_from(parse_millis(timestamp), now_millis)
}

/// When a session created at second `now_secs` with a lifetime of
/// `ttl_seconds` expires, if that second fits in `i64`.
pub open spec fn expiry_seconds(now_secs: i64, ttl_seconds: u64) -> Option<i64> {
    let e = now_secs + ttl_seconds;
    if e <= i64::MAX {
        Some(e as i64)
    } else {
        None
    }
}

/// A session record from the texts of its creation and expiry instants;
/// `None` when either instant has no text.
pub fn session_record(session_id: &str, created_at: Option<String>, expires_at: Option<String>) -> (r:
    Option<Session>)
    ensures
        r is None <==> created_at is None || expires_at is None,
        r matches Some(s) ==> {
            &&& s.session_id@ == session_id@
            &&& created_at matches Some(c) && s.created_at@ == c@
            &&& expires_at matches Some(e) && s.expires_at@ == e@
        },
{
    match (created_at, expires_at) {
        (Some(c), Some(e)) => Some(Session { session_id: String::from_str(session_id), created_at: c, expires_at: e }),
        _ => None,
    }
}

/// A new session record: created at `now_secs` seconds and `now_nanos`
/// nanoseconds after the Unix epoch, expiring `ttl_seconds` later.  It is
/// `None` only when an instant lies beyond what chrono can hold, some
/// 262,000 years away.
pub fn new_session(session_id: &str, now_secs: i64, now_nanos: u32, ttl_seconds: u64) -> (r: Option<Session>)
    ensures
        r is None <==> (expiry_seconds(now_secs, ttl_seconds) is None || rfc3339_at(now_secs, now_nanos) is None
            || rfc3339_at(expiry_seconds(now_secs, ttl_seconds)->0, now_nanos) is None),
        r matches Some(s) ==> {
            &&& s.session_id@ == session_id@
            &&& rfc3339_at(now_secs, now_nanos) == Some(s.created_at@)
            &&& rfc3339_at(expiry_seconds(now_secs, ttl_seconds)->0, now_nanos) == Some(s.expires_at@)
        },
{
    let end = (now_secs as i128) + (ttl_seconds as i128);
    if end > i64::MAX as i128 {
        return None;
    }
    let expires = end as i64;
    let created_at = format_instant(now_secs, now_nanos);
    let expires_at = format_instant(expires, now_nanos);
    session_record(session_id, created_at, expires_at)
}

} // verus!
