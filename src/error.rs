use vstd::prelude::*;

verus! {

/// Why a request to the service was refused.
#[derive(Debug, Clone)]
pub enum AppError {
    SessionNotFound,
    InvalidUuid(String),
    PayloadTooLarge { size: usize, limit: usize },
    RateLimitExceeded(String),
    /// The backing store could not be reached or answered with an error.
    Redis(String),
    /// Stored data could not be encoded or decoded.
    Serialization(String),
    Internal(String),
}

/// Body of an error reply.
#[derive(Debug)]
pub struct ErrorResponse {
    pub error: String,
    pub message: String,
    pub status: u16,
}

pub open spec fn status_of(e: AppError) -> u16 {
    match e {
        AppError::SessionNotFound => 404,
        AppError::InvalidUuid(_) => 400,
        AppError::PayloadTooLarge { .. } => 413,
        AppError::RateLimitExceeded(_) => 429,
        AppError::Redis(_) => 500,
        AppError::Serialization(_) => 500,
        AppError::Internal(_) => 500,
    }
}

pub open spec fn code_of(e: AppError) -> Seq<char> {
    match e {
        AppError::SessionNotFound => "session_not_found"@,
        AppError::InvalidUuid(_) => "invalid_uuid"@,
        AppError::PayloadTooLarge { .. } => "payload_too_large"@,
        AppError::RateLimitExceeded(_) => "rate_limit_exceeded"@,
        AppError::Redis(_) => "redis_error"@,
        AppError::Serialization(_) => "serialization_error"@,
        AppError::Internal(_) => "internal_error"@,
    }
}

pub open spec fn digit_char(d: nat) -> char {
    "0123456789"@[d as int]
}

/// Decimal notation of `n`, without leading zeros.
pub open spec fn decimal(n: nat) -> Seq<char>
    decreases n,
{
    if n < 10 {
        seq![digit_char(n)]
    } else {
        decimal(n / 10) + seq![digit_char(n % 10)]
    }
}

pub open spec fn message_of(e: AppError) -> Seq<char> {
    match e {
        AppError::SessionNotFound => "Session not found or expired"@,
        AppError::InvalidUuid(s) => "Invalid UUID format: "@ + s@,
        AppError::PayloadTooLarge { size, limit } => "Payload too large: "@ + decimal(size as nat)
            + " bytes exceeds limit of "@ + decimal(limit as nat) + " bytes"@,
        AppError::RateLimitExceeded(s) => "Rate limit exceeded: "@ + s@,
        AppError::Redis(s) => "Redis error: "@ + s@,
        AppError::Serialization(s) => "Serialization error: "@ + s@,
        AppError::Internal(s) => "Internal server error: "@ + s@,
    }
}

/// Decimal text of a count.
pub fn decimal_text(n: usize) -> (r: String)
    ensures
        r@ == decimal(n as nat),
    decreases n,
{
    let digits = "0123456789";
    proof {
        reveal_strlit("0123456789");
    }
    let d = n % 10;
    let one = digits.substring_char(d, d + 1);
    assert(one@ =~= seq![digit_char(d as nat)]);
    if n < 10 {
        String::from_str(one)
    } else {
        let mut s = decimal_text(n / 10);
        s.append(one);
        s
    }
}

impl AppError {
    /// HTTP status that reports this error.
    pub fn status_code(&self) -> (r: u16)
        ensures
            r == status_of(*self),
    {
        match self {
            AppError::SessionNotFound => 404,
            AppError::InvalidUuid(_) => 400,
            AppError::PayloadTooLarge { .. } => 413,
            AppError::RateLimitExceeded(_) => 429,
            AppError::Redis(_) => 500,
            AppError::Serialization(_) => 500,
            AppError::Internal(_) => 500,
        }
    }

    /// Machine-readable code of this error.
    pub fn error_code(&self) -> (r: String)
        ensures
            r@ == code_of(*self),
    {
        let c = match self {
            AppError::SessionNotFound => "session_not_found",
            AppError::InvalidUuid(_) => "invalid_uuid",
            AppError::PayloadTooLarge { .. } => "payload_too_large",
            AppError::RateLimitExceeded(_) => "rate_limit_exceeded",
            AppError::Redis(_) => "redis_error",
            AppError::Serialization(_) => "serialization_error",
            AppError::Internal(_) => "internal_error",
        };
        String::from_str(c)
    }

    /// Human-readable description of this error.
    pub fn message(&self) -> (r: String)
        ensures
            r@ == message_of(*self),
    {
        match self {
            AppError::SessionNotFound => String::from_str("Session not found or expired"),
            AppError::InvalidUuid(s) => String::from_str("Invalid UUID format: ").concat(s.as_str()),
            AppError::PayloadTooLarge { size, limit } => {
                let mut m = String::from_str("Payload too large: ");
                m.append(decimal_text(*size).as_str());
                m.append(" bytes exceeds limit of ");
                m.append(decimal_text(*limit).as_str());
                m.append(" bytes");
                m
            },
            AppError::RateLimitExceeded(s) => String::from_str("Rate limit exceeded: ").concat(s.as_str()),
            AppError::Redis(s) => String::from_str("Redis error: ").concat(s.as_str()),
            AppError::Serialization(s) => String::from_str("Serialization error: ").concat(s.as_str()),
            AppError::Internal(s) => String::from_str("Internal server error: ").concat(s.as_str()),
        }
    }

    /// The reply body for this error: code, message and status.
    pub fn error_response(&self) -> (r: ErrorResponse)
        ensures
            r.error@ == code_of(*self),
            r.message@ == message_of(*self),
            r.status == status_of(*self),
    {
        ErrorResponse { error: self.error_code(), message: self.message(), status: self.status_code() }
    }
}

} // verus!
