use listener::client::{client_address, user_agent_or_unknown};
use listener::error::{decimal_text, AppError};
use listener::ingest::{
    advance_ingest, begin_ingest, capture_request, require_session, validate_session_id, IngestStep,
    StoreReply,
};
use listener::keys::{index_key, request_key, session_key};
use listener::models::{
    default_limit, CaptureResponse, CreateSessionResponse, FetchRequestsQuery, HealthResponse, Session,
    WebhookRequest,
};
use listener::pagination::{assemble_page, page_range, page_window};
use listener::query::{collapse_headers, insert_last_wins, parse_query};
use listener::registry::{ChannelRegistry, PublishOutcome};
use listener::sse::{encode_frame, StreamInput, StreamMux};
use listener::store::{decode_request, field_value, parse_count, request_commands, session_commands, StoreCommand};
use listener::time::{index_score, new_session};
use tokio::sync::broadcast::error::TryRecvError;

const SID: &str = "0190f5a0-7a3c-7b6e-9d2f-1c2b3a4d5e6f";

fn pairs(v: &[(&str, &str)]) -> Vec<(String, String)> {
    v.iter().map(|(k, x)| (k.to_string(), x.to_string())).collect()
}

fn lookup<'a>(v: &'a [(String, String)], k: &str) -> Option<&'a str> {
    v.iter().find(|(key, _)| key == k).map(|(_, x)| x.as_str())
}

fn sample_request(id: &str) -> WebhookRequest {
    capture_request(
        id,
        "POST",
        "/i/x",
        "",
        Vec::new(),
        b"{\"x\":1}",
        "10.0.0.1".to_string(),
        "curl".to_string(),
        "2024-01-01T00:00:00+00:00",
    )
}

#[test]
fn default_page_size_is_one_hundred() {
    assert_eq!(default_limit(), 100);
    let q = FetchRequestsQuery::with_defaults();
    assert_eq!(q.limit, 100);
    assert_eq!(q.offset, 0);
}

#[test]
fn validated_limit_clamps_into_range() {
    assert_eq!(FetchRequestsQuery { limit: 0, offset: 0 }.validated_limit(), 1);
    assert_eq!(FetchRequestsQuery { limit: 5000, offset: 0 }.validated_limit(), 1000);
    assert_eq!(FetchRequestsQuery { limit: 1000, offset: 0 }.validated_limit(), 1000);
    assert_eq!(FetchRequestsQuery { limit: 42, offset: 3 }.validated_limit(), 42);
}

#[test]
fn session_response_builds_endpoint_urls() {
    let s = Session {
        session_id: "abc".to_string(),
        created_at: "c".to_string(),
        expires_at: "e".to_string(),
    };
    let r = CreateSessionResponse::for_session("http://localhost:8080", &s);
    assert_eq!(r.session_id, "abc");
    assert_eq!(r.ingestion_url, "http://localhost:8080/i/abc");
    assert_eq!(r.stream_url, "http://localhost:8080/s/abc");
    assert_eq!(r.requests_url, "http://localhost:8080/r/abc");
    assert_eq!(r.expires_at, "e");
}

#[test]
fn capture_acknowledgement() {
    let r = CaptureResponse::captured("rid");
    assert_eq!(r.status, "captured");
    assert_eq!(r.request_id, "rid");
}

#[test]
fn health_report_words() {
    let ok = HealthResponse::report(true, "0.1.0", 5);
    assert_eq!((ok.status.as_str(), ok.redis.as_str()), ("healthy", "connected"));
    let bad = HealthResponse::report(false, "0.1.0", 5);
    assert_eq!((bad.status.as_str(), bad.redis.as_str()), ("degraded", "disconnected"));
    assert_eq!(bad.version, "0.1.0");
    assert_eq!(bad.uptime_seconds, 5);
}

#[test]
fn error_statuses_codes_and_messages() {
    let cases = vec![
        (AppError::SessionNotFound, 404, "session_not_found", "Session not found or expired"),
        (AppError::InvalidUuid("zz".to_string()), 400, "invalid_uuid", "Invalid UUID format: zz"),
        (
            AppError::PayloadTooLarge { size: 20, limit: 10 },
            413,
            "payload_too_large",
            "Payload too large: 20 bytes exceeds limit of 10 bytes",
        ),
        (AppError::RateLimitExceeded("m".to_string()), 429, "rate_limit_exceeded", "Rate limit exceeded: m"),
        (AppError::Redis("down".to_string()), 500, "redis_error", "Redis error: down"),
        (AppError::Serialization("bad".to_string()), 500, "serialization_error", "Serialization error: bad"),
        (AppError::Internal("x".to_string()), 500, "internal_error", "Internal server error: x"),
    ];
    for (e, status, code, message) in cases {
        assert_eq!(e.status_code(), status);
        assert_eq!(e.error_code(), code);
        assert_eq!(e.message(), message);
        let body = e.error_response();
        assert_eq!((body.status, body.error.as_str(), body.message.as_str()), (status, code, message));
    }
}

#[test]
fn decimal_text_of_counts() {
    assert_eq!(decimal_text(0), "0");
    assert_eq!(decimal_text(7), "7");
    assert_eq!(decimal_text(10), "10");
    assert_eq!(decimal_text(1234567), "1234567");
    assert_eq!(decimal_text(usize::MAX), usize::MAX.to_string());
}

#[test]
fn store_key_layout() {
    assert_eq!(session_key("s1"), "session:s1");
    assert_eq!(request_key("s1", "r1"), "request:s1:r1");
    assert_eq!(index_key("s1"), "session:s1:requests");
}

#[test]
fn query_string_forms() {
    let q = parse_query("a=b&c=&d&&a=z&k=v=w");
    assert_eq!(q.len(), 4);
    assert_eq!(lookup(&q, "a"), Some("z"));
    assert_eq!(lookup(&q, "c"), Some(""));
    assert_eq!(lookup(&q, "d"), Some(""));
    assert_eq!(lookup(&q, "k"), Some("v=w"));
    assert!(parse_query("").is_empty());
    assert!(parse_query("&&").is_empty());
    let u = parse_query("ключ=значение");
    assert_eq!(lookup(&u, "ключ"), Some("значение"));
}

#[test]
fn header_lines_collapse_to_last() {
    let h = collapse_headers(pairs(&[("X-A", "1"), ("X-B", "2"), ("X-A", "3")]));
    assert_eq!(h.len(), 2);
    assert_eq!(lookup(&h, "X-A"), Some("3"));
    assert_eq!(lookup(&h, "X-B"), Some("2"));
    let mut v = pairs(&[("k", "1")]);
    insert_last_wins(&mut v, "k".to_string(), "2".to_string());
    insert_last_wins(&mut v, "j".to_string(), "0".to_string());
    assert_eq!(v, pairs(&[("k", "2"), ("j", "0")]));
}

#[test]
fn malformed_session_id_is_rejected_first() {
    match begin_ingest("not-a-uuid", 10_000, 10) {
        IngestStep::Reject(AppError::InvalidUuid(s)) => assert_eq!(s, "not-a-uuid"),
        other => panic!("unexpected {:?}", other),
    }
    assert!(validate_session_id(SID).is_ok());
    assert!(matches!(validate_session_id("xyz"), Err(AppError::InvalidUuid(_))));
}

#[test]
fn oversized_body_is_rejected_before_store_access() {
    match begin_ingest(SID, 11, 10) {
        IngestStep::Reject(AppError::PayloadTooLarge { size, limit }) => assert_eq!((size, limit), (11, 10)),
        other => panic!("unexpected {:?}", other),
    }
    assert!(matches!(begin_ingest(SID, 10, 10), IngestStep::CheckSession));
}

#[test]
fn missing_session_is_not_found() {
    assert!(matches!(
        advance_ingest(IngestStep::CheckSession, StoreReply::Exists(false), 5),
        IngestStep::Reject(AppError::SessionNotFound)
    ));
    assert!(matches!(
        advance_ingest(IngestStep::CheckSession, StoreReply::Exists(true), 5),
        IngestStep::CountRequests
    ));
    assert!(matches!(require_session(false), Err(AppError::SessionNotFound)));
    assert!(require_session(true).is_ok());
}

#[test]
fn rate_limit_boundary() {
    assert!(matches!(advance_ingest(IngestStep::CountRequests, StoreReply::Count(2), 3), IngestStep::Archive));
    match advance_ingest(IngestStep::CountRequests, StoreReply::Count(3), 3) {
        IngestStep::Reject(AppError::RateLimitExceeded(m)) => {
            assert_eq!(m, "Maximum 3 requests per session exceeded")
        },
        other => panic!("unexpected {:?}", other),
    }
}

#[test]
fn store_failure_and_completion() {
    match advance_ingest(IngestStep::Archive, StoreReply::Failed("gone".to_string()), 3) {
        IngestStep::Reject(AppError::Redis(m)) => assert_eq!(m, "gone"),
        other => panic!("unexpected {:?}", other),
    }
    assert!(matches!(advance_ingest(IngestStep::Archive, StoreReply::Saved, 3), IngestStep::Acknowledge));
    assert!(matches!(
        advance_ingest(IngestStep::Archive, StoreReply::Count(1), 3),
        IngestStep::Reject(AppError::Internal(_))
    ));
    assert!(matches!(advance_ingest(IngestStep::Acknowledge, StoreReply::Saved, 3), IngestStep::Acknowledge));
}

#[test]
fn page_windows() {
    assert_eq!(page_window(10, 0), (0, 9));
    assert_eq!(page_window(10, 10), (10, 19));
    assert_eq!(page_window(20, 0), (0, 19));
    assert_eq!(page_window(0, 0), (1, 0));
    assert_eq!(page_window(0, 5), (6, 5));
}

#[test]
fn page_ranges_for_any_input() {
    assert_eq!(page_range(10, 0), Some((0, 9)));
    assert_eq!(page_range(0, 0), Some((1, 0)));
    assert_eq!(page_range(usize::MAX, 3), Some((3, isize::MAX)));
    assert_eq!(page_range(1, isize::MAX as usize - 1), Some((isize::MAX - 1, isize::MAX)));
    assert_eq!(page_range(1, isize::MAX as usize), None);
    assert_eq!(page_range(0, usize::MAX), None);
}

#[test]
fn page_skips_expired_records() {
    let page = assemble_page(vec![Some(sample_request("a")), None, Some(sample_request("c"))]);
    let ids: Vec<&str> = page.iter().map(|r| r.request_id.as_str()).collect();
    assert_eq!(ids, vec!["a", "c"]);
    assert!(assemble_page(vec![None, None]).is_empty());
}

#[test]
fn stored_counts() {
    assert_eq!(parse_count("42"), Some(42));
    assert_eq!(parse_count("+7"), Some(7));
    assert_eq!(parse_count("0"), Some(0));
    assert_eq!(parse_count(""), None);
    assert_eq!(parse_count("+"), None);
    assert_eq!(parse_count("4a"), None);
    assert_eq!(parse_count("-1"), None);
    assert_eq!(parse_count(&usize::MAX.to_string()), Some(usize::MAX));
    assert_eq!(parse_count("99999999999999999999999"), None);
}

#[test]
fn field_lookup() {
    let f = pairs(&[("a", "1"), ("b", "2"), ("a", "3")]);
    assert_eq!(field_value(&f, "a"), "3");
    assert_eq!(field_value(&f, "b"), "2");
    assert_eq!(field_value(&f, "zz"), "");
}

#[test]
fn session_batch_layout() {
    let s = Session {
        session_id: "s1".to_string(),
        created_at: "c".to_string(),
        expires_at: "e".to_string(),
    };
    let cmds = session_commands(&s, 60);
    assert_eq!(cmds.len(), 4);
    match &cmds[3] {
        StoreCommand::Expire { key, seconds } => assert_eq!((key.as_str(), *seconds), ("session:s1", 60)),
        other => panic!("unexpected {:?}", other),
    }
}

#[test]
fn captured_request_round_trips_through_store_batch() {
    let req = sample_request("r1");
    let cmds = request_commands("s1", &req, "{}", "{}", 60, 1704067200000);
    assert_eq!(cmds.len(), 13);
    let mut fields: Vec<(String, String)> = Vec::new();
    for c in &cmds {
        if let StoreCommand::HashSet { key, field, value } = c {
            assert_eq!(key, "request:s1:r1");
            fields.push((field.clone(), value.clone()));
        }
    }
    match &cmds[11] {
        StoreCommand::IndexAdd { key, member, score } => {
            assert_eq!((key.as_str(), member.as_str(), *score), ("session:s1:requests", "r1", 1704067200000))
        },
        other => panic!("unexpected {:?}", other),
    }
    let back = decode_request(&fields, Vec::new(), Vec::new()).expect("stored");
    assert_eq!(back.method, "POST");
    assert_eq!(back.body, "{\"x\":1}");
    assert_eq!(back.request_id, "r1");
    assert_eq!(back.content_length, 7);
    assert!(decode_request(&Vec::new(), Vec::new(), Vec::new()).is_none());
}

#[test]
fn capture_then_history_scenario() {
    let ack = CaptureResponse::captured("r1");
    assert_eq!((ack.status.as_str(), ack.request_id.as_str()), ("captured", "r1"));
    let req = sample_request("r1");
    let cmds = request_commands(SID, &req, "{}", "{}", 60, 1);
    let fields: Vec<(String, String)> = cmds
        .iter()
        .filter_map(|c| match c {
            StoreCommand::HashSet { field, value, .. } => Some((field.clone(), value.clone())),
            _ => None,
        })
        .collect();
    let limit = FetchRequestsQuery { limit: 10, offset: 0 }.validated_limit();
    assert_eq!(page_window(limit, 0), (0, 9));
    let page = assemble_page(vec![decode_request(&fields, Vec::new(), Vec::new())]);
    assert_eq!(page.len(), 1);
    assert_eq!(page[0].method, "POST");
    assert_eq!(page[0].body, "{\"x\":1}");
}

#[test]
fn capture_record_fields() {
    let r = capture_request(
        "id",
        "PUT",
        "/i/s/tail",
        "a=1&a=2",
        pairs(&[("H", "x"), ("H", "y")]),
        &[0x61, 0xff, 0x62],
        "ip".to_string(),
        "ua".to_string(),
        "ts",
    );
    assert_eq!(r.body, "a\u{FFFD}b");
    assert_eq!(r.content_length, 3);
    assert_eq!(lookup(&r.query_params, "a"), Some("2"));
    assert_eq!(lookup(&r.headers, "H"), Some("y"));
    assert_eq!((r.method.as_str(), r.path.as_str(), r.timestamp.as_str()), ("PUT", "/i/s/tail", "ts"));
}

#[test]
fn frames_and_stream_order() {
    assert_eq!(encode_frame("ping", "{}"), "event: ping\ndata: {}\n\n");
    let mut mux = StreamMux::new();
    assert_eq!(mux.on_input(StreamInput::Request("r".to_string())), None);
    assert_eq!(mux.on_input(StreamInput::Open("{\"t\":1}".to_string())), Some("event: ping\ndata: {\"t\":1}\n\n".to_string()));
    assert_eq!(mux.on_input(StreamInput::Open("x".to_string())), None);
    assert_eq!(mux.on_input(StreamInput::Request("{\"a\":2}".to_string())), Some("event: request\ndata: {\"a\":2}\n\n".to_string()));
    assert_eq!(mux.on_input(StreamInput::Tick("t".to_string())), Some("event: ping\ndata: t\n\n".to_string()));
    assert_eq!(mux.on_input(StreamInput::Lagged(44)), None);
    assert_eq!(mux.on_input(StreamInput::Lagged(u64::MAX)), None);
    assert_eq!(mux.dropped, u64::MAX);
}

#[test]
fn client_address_priority() {
    assert_eq!(client_address(Some("1.1.1.1"), Some("2.2.2.2"), Some("3.3.3.3")), "1.1.1.1");
    assert_eq!(client_address(None, Some("  2.2.2.2 , 9.9.9.9"), Some("3.3.3.3")), "2.2.2.2");
    assert_eq!(client_address(None, None, Some("3.3.3.3")), "3.3.3.3");
    assert_eq!(client_address(None, None, None), "unknown");
    assert_eq!(user_agent_or_unknown(Some("curl/8")), "curl/8");
    assert_eq!(user_agent_or_unknown(None), "unknown");
}

#[test]
fn timestamps_and_scores() {
    assert_eq!(index_score("2024-01-01T00:00:00Z", 5), 1704067200000);
    assert_eq!(index_score("2024-01-01T00:00:00.250+00:00", 5), 1704067200250);
    assert_eq!(index_score("yesterday", 5), 5);
    let s = new_session("sid", 0, 0, 10).expect("in range");
    assert_eq!(s.session_id, "sid");
    assert_eq!(s.created_at, "1970-01-01T00:00:00+00:00");
    assert_eq!(s.expires_at, "1970-01-01T00:00:10+00:00");
    let sub = new_session("sid", 1704067200, 250_000_000, 60).expect("in range");
    assert_eq!(sub.created_at, "2024-01-01T00:00:00.250+00:00");
    assert_eq!(sub.expires_at, "2024-01-01T00:01:00.250+00:00");
    let far = new_session("sid", 0, 0, 400 * 365 * 86400 * 100).expect("within chrono's range");
    assert!(far.expires_at.starts_with('+'));
    assert!(new_session("sid", i64::MAX - 5, 0, 1).is_none());
    assert!(new_session("sid", 0, 0, u64::MAX).is_none());
    assert!(listener::time::session_record("sid", None, Some("e".to_string())).is_none());
}

#[test]
fn publish_without_channel_or_subscribers() {
    let mut reg = ChannelRegistry::new();
    assert_eq!(reg.publish(SID, &sample_request("a")), PublishOutcome::NoChannel);
    let rx = reg.subscribe(SID);
    drop(rx);
    assert_eq!(reg.publish(SID, &sample_request("b")), PublishOutcome::NoSubscribers);
}

#[test]
fn early_subscriber_sees_capture_late_one_does_not() {
    let mut reg = ChannelRegistry::new();
    let mut early = reg.subscribe(SID);
    assert_eq!(reg.channel_count(), 1);
    assert_eq!(reg.publish(SID, &sample_request("first")), PublishOutcome::Delivered(1));
    let mut late = reg.subscribe(SID);
    assert_eq!(reg.channel_count(), 1);
    assert_eq!(early.try_recv().expect("delivered").request_id, "first");
    assert!(matches!(late.try_recv(), Err(TryRecvError::Empty)));
}

#[test]
fn two_subscribers_receive_in_same_order() {
    let mut reg = ChannelRegistry::new();
    let mut a = reg.subscribe(SID);
    let mut b = reg.subscribe(SID);
    for id in ["1", "2", "3"] {
        assert_eq!(reg.publish(SID, &sample_request(id)), PublishOutcome::Delivered(2));
    }
    for id in ["1", "2", "3"] {
        assert_eq!(a.try_recv().unwrap().request_id, id);
        assert_eq!(b.try_recv().unwrap().request_id, id);
    }
}

#[test]
fn idle_subscriber_lags_but_keeps_receiving() {
    let mut reg = ChannelRegistry::new();
    let mut rx = reg.subscribe(SID);
    for i in 0..300 {
        reg.publish(SID, &sample_request(&i.to_string()));
    }
    let mut mux = StreamMux::new();
    mux.on_input(StreamInput::Open("{}".to_string()));
    match rx.try_recv() {
        Err(TryRecvError::Lagged(n)) => {
            assert!(n > 0);
            assert_eq!(mux.on_input(StreamInput::Lagged(n)), None);
        },
        other => panic!("unexpected {:?}", other.map(|r| r.request_id)),
    }
    assert!(mux.dropped > 0);
    let next = rx.try_recv().expect("newer items remain");
    assert!(mux.on_input(StreamInput::Request(next.request_id.clone())).is_some());
    reg.publish(SID, &sample_request("fresh"));
    let mut last = String::new();
    while let Ok(r) = rx.try_recv() {
        last = r.request_id;
    }
    assert_eq!(last, "fresh");
}

#[test]
fn cleanup_reclaims_only_idle_channels() {
    let mut reg = ChannelRegistry::new();
    let other = "0190f5a0-7a3c-7b6e-9d2f-000000000000";
    let rx1 = reg.subscribe(SID);
    let _rx2 = reg.subscribe(other);
    reg.cleanup(SID);
    assert_eq!(reg.channel_count(), 2);
    drop(rx1);
    reg.cleanup(SID);
    assert_eq!(reg.channel_count(), 1);
    assert_eq!(reg.publish(SID, &sample_request("x")), PublishOutcome::NoChannel);
    reg.cleanup_all();
    assert_eq!(reg.channel_count(), 1);
    let mut empty = ChannelRegistry::new();
    empty.cleanup_all();
    assert_eq!(empty.channel_count(), 0);
}

#[test]
fn retain_live_keeps_order() {
    let mut reg = ChannelRegistry::new();
    let ids = ["a", "b", "c"];
    let mut rxs = Vec::new();
    for id in ids {
        rxs.push(reg.subscribe(id));
    }
    reg.retain_live(&vec![1, 0, 2]);
    assert_eq!(reg.channel_count(), 2);
    assert_eq!(reg.publish("b", &sample_request("x")), PublishOutcome::NoChannel);
    assert_eq!(reg.publish("c", &sample_request("x")), PublishOutcome::Delivered(1));
}

#[test]
fn configuration_defaults() {
    let s = listener::config::Settings::defaults();
    assert_eq!(s.server.host, "0.0.0.0");
    assert_eq!(s.server.port, 8080);
    assert_eq!(s.server.listen_url, "http://localhost:8080");
    assert_eq!(s.server.max_body_size, 10_485_760);
    assert_eq!(s.server.cors_allowed_origins, "*");
    assert_eq!(s.redis.url, "redis://localhost:6379");
    assert_eq!(s.redis.pool_size, 10);
    assert_eq!(s.session.ttl_seconds, 10800);
    assert_eq!(s.session.max_requests_per_session, 1000);
    assert_eq!(listener::config::default_listen_url(3000), "http://localhost:3000");
}

#[test]
fn session_round_trips_through_store_batch() {
    let s = new_session("sid", 0, 0, 10).expect("in range");
    let cmds = session_commands(&s, 10);
    let fields: Vec<(String, String)> = cmds
        .iter()
        .filter_map(|c| match c {
            StoreCommand::HashSet { field, value, .. } => Some((field.clone(), value.clone())),
            _ => None,
        })
        .collect();
    let back = listener::store::decode_session(&fields).expect("stored");
    assert_eq!(back.session_id, "sid");
    assert_eq!(back.expires_at, "1970-01-01T00:00:10+00:00");
    assert!(listener::store::decode_session(&Vec::new()).is_none());
}

#[test]
fn close_if_idle_follows_the_count() {
    let mut reg = ChannelRegistry::new();
    let _a = reg.subscribe("a");
    let _b = reg.subscribe("b");
    reg.close_if_idle("a", 3);
    assert_eq!(reg.channel_count(), 2);
    reg.close_if_idle("zz", 0);
    assert_eq!(reg.channel_count(), 2);
    reg.close_if_idle("a", 0);
    assert_eq!(reg.channel_count(), 1);
    assert_eq!(reg.publish("a", &sample_request("x")), PublishOutcome::NoChannel);
}

#[test]
fn publish_reaches_only_the_named_session() {
    let mut reg = ChannelRegistry::new();
    let mut a = reg.subscribe("a");
    let mut b = reg.subscribe("b");
    assert!(reg.sender_of("a").is_some());
    assert!(reg.sender_of("zz").is_none());
    assert_eq!(reg.publish("b", &sample_request("for-b")), PublishOutcome::Delivered(1));
    assert!(matches!(a.try_recv(), Err(TryRecvError::Empty)));
    assert_eq!(b.try_recv().unwrap().request_id, "for-b");
}

#[test]
fn new_channel_buffers_two_hundred_fifty_six_items() {
    let mut reg = ChannelRegistry::new();
    let mut rx = reg.subscribe(SID);
    for i in 0..256 {
        reg.publish(SID, &sample_request(&i.to_string()));
    }
    assert_eq!(rx.try_recv().unwrap().request_id, "0");
    reg.publish(SID, &sample_request("256"));
    reg.publish(SID, &sample_request("257"));
    assert!(matches!(rx.try_recv(), Err(TryRecvError::Lagged(1))));
}

#[test]
fn session_id_forms() {
    let ok = [
        "0190f5a07a3c7b6e9d2f1c2b3a4d5e6f",
        "0190F5A0-7A3C-7B6E-9D2F-1C2B3A4D5E6F",
        "{0190f5a0-7a3c-7b6e-9d2f-1c2b3a4d5e6f}",
        "URN:uuid:0190f5a0-7a3c-7b6e-9d2f-1c2b3a4d5e6f",
    ];
    for s in ok {
        assert!(validate_session_id(s).is_ok(), "{}", s);
    }
    let bad = [
        "",
        "0190f5a0-7a3c-7b6e-9d2f-1c2b3a4d5e6",
        "0190f5a0x7a3c-7b6e-9d2f-1c2b3a4d5e6f",
        "0190g5a0-7a3c-7b6e-9d2f-1c2b3a4d5e6f",
        "(0190f5a0-7a3c-7b6e-9d2f-1c2b3a4d5e6f)",
        "urn:uuie:0190f5a0-7a3c-7b6e-9d2f-1c2b3a4d5e6f",
        "0190f5a0-7a3c-7b6e-9d2f-1c2b3a4d5é6",
    ];
    for s in bad {
        assert!(matches!(validate_session_id(s), Err(AppError::InvalidUuid(_))), "{}", s);
    }
}

#[test]
fn forwarded_address_trims_unicode_white_space() {
    assert_eq!(client_address(None, Some("\u{3000}\t4.4.4.4\u{a0},5.5.5.5"), None), "4.4.4.4");
    assert_eq!(client_address(None, Some(" \u{2003} "), None), "");
}

#[test]
fn closing_twice_changes_nothing() {
    let mut reg = ChannelRegistry::new();
    let a = reg.subscribe("a");
    let _b = reg.subscribe("b");
    drop(a);
    reg.cleanup("a");
    assert!(reg.sender_of("a").is_none());
    reg.cleanup("a");
    reg.close_if_idle("a", 0);
    assert_eq!(reg.channel_count(), 1);
    assert!(reg.sender_of("b").is_some());
}
