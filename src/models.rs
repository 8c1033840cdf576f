use vstd::prelude::*;

verus! {

/// Largest page size a history query may ask for.
pub const MAX_PAGE_LIMIT: usize = 1000;

/// A capture session as it is stored: identifier and RFC 3339 timestamps.
#[derive(Debug, Clone)]
pub struct Session {
    pub session_id: String,
    pub created_at: String,
    pub expires_at: String,
}

/// One captured HTTP call.  `query_params` and `headers` hold unique keys.
#[derive(Debug, Clone)]
pub struct WebhookRequest {
    pub request_id: String,
    pub method: String,
    pub path: String,
    pub query_params: Vec<(String, String)>,
    pub headers: Vec<(String, String)>,
    pub body: String,
    pub ip_address: String,
    pub user_agent: String,
    pub timestamp: String,
    pub content_length: usize,
}

/// Reply to a session creation.
#[derive(Debug)]
pub struct CreateSessionResponse {
    pub session_id: String,
    pub ingestion_url: String,
    pub stream_url: String,
    pub requests_url: String,
    pub expires_at: String,
}

/// Acknowledgement of one captured call.
#[derive(Debug)]
pub struct CaptureResponse {
    pub status: String,
    pub request_id: String,
}

/// One page of a session's history.
#[derive(Debug)]
pub struct RequestsResponse {
    pub session_id: String,
    pub total_requests: usize,
    pub requests: Vec<WebhookRequest>,
}

/// Pagination parameters of a history query.
#[derive(Debug)]
pub struct FetchRequestsQuery {
    pub limit: usize,
    pub offset: usize,
}

/// Liveness report of the service.
#[derive(Debug)]
pub struct HealthResponse {
    pub status: String,
    pub redis: String,
    pub version: String,
    pub uptime_seconds: u64,
}

/// Page size used when a query names none.
pub fn default_limit() -> (r: usize)
    ensures
        r == 100,
{
    100
}

pub open spec fn clamp_limit(limit: int) -> int {
    if limit < 1 {
        1
    } else if limit > MAX_PAGE_LIMIT {
        MAX_PAGE_LIMIT as int
    } else {
        limit
    }
}

impl FetchRequestsQuery {
    /// A query with the default page size and no offset.
    pub fn with_defaults() -> (r: FetchRequestsQuery)
        ensures
            r.limit == 100,
            r.offset == 0,
    {
        FetchRequestsQuery { limit: default_limit(), offset: 0 }
    }

    /// The requested page size, clamped into `1..=1000`.
    pub fn validated_limit(&self) -> (r: usize)
        ensures
            r as int == clamp_limit(self.limit as int),
            1 <= r <= MAX_PAGE_LIMIT,
    {
        if self.limit < 1 {
            1
        } else if self.limit > MAX_PAGE_LIMIT {
            MAX_PAGE_LIMIT
        } else {
            self.limit
        }
    }
}

/// `"{base}/{section}/{id}"`.
pub open spec fn endpoint_url(base: Seq<char>, section: Seq<char>, id: Seq<char>) -> Seq<char> {
    base + "/"@ + section + "/"@ + id
}

fn build_endpoint(base: &str, section: &str, id: &str) -> (r: String)
    ensures
        r@ == endpoint_url(base@, section@, id@),
{
    let mut s = String::from_str(base);
    s.append("/");
    s.append(section);
    s.append("/");
    s.append(id);
    s
}

impl CreateSessionResponse {
    /// The reply to a session creation: the three endpoint URLs under `base_url`
    /// (ingestion `i`, stream `s`, history `r`) and the session's expiry.
    pub fn for_session(base_url: &str, session: &Session) -> (r: CreateSessionResponse)
        ensures
            r.session_id@ == session.session_id@,
            r.ingestion_url@ == endpoint_url(base_url@, "i"@, session.session_id@),
            r.stream_url@ == endpoint_url(base_url@, "s"@, session.session_id@),
            r.requests_url@ == endpoint_url(base_url@, "r"@, session.session_id@),
            r.expires_at@ == session.expires_at@,
    {
        let id = session.session_id.as_str();
        CreateSessionResponse {
            session_id: String::from_str(id),
            ingestion_url: build_endpoint(base_url, "i", id),
            stream_url: build_endpoint(base_url, "s", id),
            requests_url: build_endpoint(base_url, "r", id),
            expires_at: String::from_str(session.expires_at.as_str()),
        }
    }
}

impl CaptureResponse {
    /// The acknowledgement `{status: "captured", request_id}`.
    pub fn captured(request_id: &str) -> (r: CaptureResponse)
        ensures
            r.status@ == "captured"@,
            r.request_id@ == request_id@,
    {
        CaptureResponse { status: String::from_str("captured"), request_id: String::from_str(request_id) }
    }
}

impl HealthResponse {
    /// The health report: `healthy`/`connected` when the store answered,
    /// `degraded`/`disconnected` otherwise.
    pub fn report(store_ok: bool, version: &str, uptime_seconds: u64) -> (r: HealthResponse)
        ensures
            r.status@ == (if store_ok { "healthy"@ } else { "degraded"@ }),
            r.redis@ == (if store_ok { "connected"@ } else { "disconnected"@ }),
            r.version@ == version@,
            r.uptime_seconds == uptime_seconds,
    {
        let status = if store_ok { "healthy" } else { "degraded" };
        let redis = if store_ok { "connected" } else { "disconnected" };
        HealthResponse {
            status: String::from_str(status),
            redis: String::from_str(redis),
            version: String::from_str(version),
            uptime_seconds,
        }
    }
}

} // verus!
