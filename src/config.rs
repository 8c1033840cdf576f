use vstd::prelude::*;
use crate::error::{decimal, decimal_text};

verus! {

/// Service configuration.
#[derive(Debug, Clone)]
pub struct Settings {
    pub server: ServerSettings,
    pub redis: RedisSettings,
    pub session: SessionSettings,
}

#[derive(Debug, Clone)]
pub struct ServerSettings {
    pub host: String,
    pub port: u16,
    /// Public base URL of the endpoints handed out at session creation.
    pub listen_url: String,
    pub max_body_size: usize,
    pub cors_allowed_origins: String,
}

#[derive(Debug, Clone)]
pub struct RedisSettings {
    pub url: String,
    pub pool_size: usize,
}

#[derive(Debug, Clone)]
pub struct SessionSettings {
    pub ttl_seconds: u64,
    pub max_requests_per_session: usize,
}

pub const DEFAULT_PORT: u16 = 8080;

pub const DEFAULT_MAX_BODY_SIZE: usize = 10_485_760;

pub const DEFAULT_POOL_SIZE: usize = 10;

pub const DEFAULT_TTL_SECONDS: u64 = 10800;

pub const DEFAULT_MAX_REQUESTS: usize = 1000;

/// `http://localhost:{port}`.
pub open spec fn local_url(port: u16) -> Seq<char> {
    "http://localhost:"@ + decimal(port as nat)
}

/// The base URL used when none is configured.
pub fn default_listen_url(port: u16) -> (r: String)
    ensures
        r@ == local_url(port),
{
    let mut u = String::from_str("http://localhost:");
    u.append(decimal_text(port as usize).as_str());
    u
}

impl Settings {
    /// The configuration with every value left at its default.
    pub fn defaults() -> (r: Settings)
        ensures
            r.server.host@ == "0.0.0.0"@,
            r.server.port == DEFAULT_PORT,
            r.server.listen_url@ == local_url(DEFAULT_PORT),
            r.server.max_body_size == DEFAULT_MAX_BODY_SIZE,
            r.server.cors_allowed_origins@ == "*"@,
            r.redis.url@ == "redis://localhost:6379"@,
            r.redis.pool_size == DEFAULT_POOL_SIZE,
            r.session.ttl_seconds == DEFAULT_TTL_SECONDS,
            r.session.max_requests_per_session == DEFAULT_MAX_REQUESTS,
    {
        Settings {
            server: ServerSettings {
                host: String::from_str("0.0.0.0"),
                port: DEFAULT_PORT,
                listen_url: default_listen_url(DEFAULT_PORT),
                max_body_size: DEFAULT_MAX_BODY_SIZE,
                cors_allowed_origins: String::from_str("*"),
            },
            redis: RedisSettings { url: String::from_str("redis://localhost:6379"), pool_size: DEFAULT_POOL_SIZE },
            session: SessionSettings {
                ttl_seconds: DEFAULT_TTL_SECONDS,
                max_requests_per_session: DEFAULT_MAX_REQUESTS,
            },
        }
    }
}

} // verus!
