use relay_core::addr::{IpAddress, SocketAddress};
use relay_core::capture::loop_detection::LoopDetector;
use relay_core::flow::{
    Flow, HttpResponse, Layer, NetworkInfo, ResponseTiming, TextMap, Timestamp, TransportProtocol,
};
use relay_core::intercept::{
    blocks_session, ends_connect_round, fold_request_headers, ConnectAction, InterceptionResult, NoOpInterceptor,
    RequestVerdict, ResponseVerdict,
};
use relay_core::policy::{ProxyPolicy, QuicMode};
use relay_core::proxy::circuit_breaker::CircuitBreaker;
use relay_core::proxy::exchange::{
    apply_quic_downgrade, is_websocket_request, Exchange, Phase, Step, UpstreamFailure,
};
use relay_core::proxy::http_utils::{HttpVersion, RequestHead, ResponseHead};

/// A moment shortly after 1970.
fn at(nanos: u32) -> Timestamp {
    Timestamp { secs: 1, nanos }
}

fn policy() -> ProxyPolicy {
    ProxyPolicy {
        transparent_enabled: false,
        strict_http_semantics: false,
        max_body_size: 10 * 1024 * 1024,
        request_timeout_ms: 100,
        quic_mode: QuicMode::Passthrough,
        quic_downgrade_clear_cache: false,
        rule_body_inspect_budget: 1024 * 1024,
    }
}

fn create_test_flow() -> Flow {
    Flow {
        id: 1,
        start_time: Timestamp { secs: 0, nanos: 0 },
        end_time: None,
        close_reason: None,
        network: NetworkInfo {
            client_ip: "127.0.0.1".to_string(),
            client_port: 12345,
            server_ip: "1.1.1.1".to_string(),
            server_port: 80,
            server_host: None,
            protocol: TransportProtocol::TCP,
            tls: false,
            tls_version: None,
            sni: None,
        },
        layer: Layer::Unknown,
        tags: vec![],
        meta: TextMap::new(),
        resilience_trace: None,
        rule_variables: TextMap::new(),
        matched_rules: vec![],
    }
}

fn response_head(fields: &[(&str, &str)]) -> ResponseHead {
    let mut headers = hyper::HeaderMap::new();
    for (name, value) in fields {
        headers.append(
            hyper::header::HeaderName::from_bytes(name.as_bytes()).expect("name"),
            value.parse().expect("value"),
        );
    }
    ResponseHead {
        status: 200,
        version: HttpVersion::Http11,
        headers,
    }
}

fn request_head(uri: &str, fields: &[(&str, &str)]) -> RequestHead {
    RequestHead {
        method: "GET".to_string(),
        uri: uri.to_string(),
        version: HttpVersion::Http11,
        headers: response_head(fields).headers,
    }
}

fn client() -> SocketAddress {
    SocketAddress::new(IpAddress::V4(0x7f00_0001), 12345)
}

fn mock(status: u16) -> HttpResponse {
    HttpResponse {
        status,
        status_text: "X".to_string(),
        version: "HTTP/1.1".to_string(),
        headers: vec![],
        cookies: vec![],
        body: None,
        trailers: vec![],
        timing: ResponseTiming {
            time_to_first_byte: None,
            time_to_last_byte: None,
            connect_time_ms: None,
            ssl_time_ms: None,
        },
    }
}

#[test]
fn test_quic_downgrade_logic() {
    let policy = ProxyPolicy {
        quic_mode: QuicMode::Downgrade,
        quic_downgrade_clear_cache: true,
        ..policy()
    };
    let mut parts = response_head(&[("Alt-Svc", "h3=\":443\"; ma=86400, h3-29=\":443\"; ma=86400")]);
    let mut flow = create_test_flow();

    apply_quic_downgrade(&mut parts, &mut flow, &policy);

    assert!(parts.headers.get("Alt-Svc").is_none());
    assert!(flow.tags.contains(&"quic-downgraded".to_string()));
    if let Some(val) = parts.headers.get("clear-site-data") {
        assert_eq!(val, "\"cache\"");
    } else {
        panic!("clear-site-data header missing");
    }
}

#[test]
fn test_quic_passthrough_logic() {
    let policy = ProxyPolicy {
        quic_mode: QuicMode::Passthrough,
        ..policy()
    };
    let mut parts = response_head(&[("Alt-Svc", "h3=\":443\"")]);
    let mut flow = create_test_flow();

    apply_quic_downgrade(&mut parts, &mut flow, &policy);

    assert!(parts.headers.get("Alt-Svc").is_some());
    assert!(!flow.tags.contains(&"quic-downgraded".to_string()));
}

#[test]
fn test_quic_downgrade_without_clear_cache_does_not_add_header() {
    let policy = ProxyPolicy {
        quic_mode: QuicMode::Downgrade,
        quic_downgrade_clear_cache: false,
        ..policy()
    };
    let mut parts = response_head(&[("Alt-Svc", "h3=\":443\"; ma=86400")]);
    let mut flow = create_test_flow();

    apply_quic_downgrade(&mut parts, &mut flow, &policy);

    assert!(parts.headers.get("Alt-Svc").is_none());
    assert!(flow.tags.contains(&"quic-downgraded".to_string()));
    assert!(
        parts.headers.get("clear-site-data").is_none(),
        "clear-site-data should only be injected when quic_downgrade_clear_cache=true"
    );
}

fn routed() -> (Exchange, CircuitBreaker) {
    let mut ex = Exchange::begin(&request_head("http://example.com/", &[]), client(), false, policy(), None);
    assert!(matches!(ex.request_headers(InterceptionResult::Continue, at(1)), Step::Proceed));
    assert!(matches!(ex.request_body(RequestVerdict::Continue, at(2)), Step::Proceed));
    assert!(ex.phase == Phase::Routing);
    (ex, CircuitBreaker::default())
}

#[test]
fn test_timeout_sets_trace_timeout_type() {
    let (mut ex, mut breaker) = routed();
    let sent = ex
        .route(&LoopDetector::new(vec![]), &mut breaker, None, 0, at(3))
        .expect("dispatch");
    assert_eq!(sent.timeout_ms, 100);
    assert_eq!(sent.host, "example.com");
    assert_eq!(sent.port, 80);
    let step = ex.upstream_failed(&mut breaker, &sent.key, UpstreamFailure::TimedOut, 100, at(4));
    match step {
        Step::Finish(answer) => assert_eq!(answer.head.status, 504),
        other => panic!("expected an answer, got {other:?}"),
    }
    let trace = ex.flow.resilience_trace.as_ref().expect("trace");
    assert_eq!(trace.timeout_type.as_deref(), Some("total"), "timeout_type should be 'total'");
    assert!(
        trace.upstream_errors.iter().any(|e| e.contains("Timed Out")),
        "upstream_errors should contain timeout error"
    );
    assert_eq!(ex.flow.end_time, Some(at(4)));
}

#[test]
fn test_circuit_breaker_sets_trace() {
    let host_key = format!("127.0.0.1:{}", 49152);
    let mut breaker = CircuitBreaker::new(1, 30_000_000_000);
    breaker.record_failure(&host_key, 0);
    assert!(!breaker.allow_request(&host_key, 0), "circuit should be open");

    let policy = ProxyPolicy {
        request_timeout_ms: 5000,
        ..policy()
    };
    let head = request_head(&format!("http://{}", host_key), &[]);
    let mut ex = Exchange::begin(&head, client(), false, policy, None);
    assert!(matches!(ex.request_headers(InterceptionResult::Continue, at(1)), Step::Proceed));
    assert!(matches!(ex.request_body(RequestVerdict::Continue, at(2)), Step::Proceed));
    let step = ex
        .route(&LoopDetector::new(vec![]), &mut breaker, None, 1, at(3))
        .expect_err("circuit should be open");
    match step {
        Step::Finish(answer) => assert_eq!(answer.head.status, 503),
        other => panic!("expected an answer, got {other:?}"),
    }
    assert!(
        ex.flow.resilience_trace.as_ref().expect("trace").circuit_open,
        "circuit_open should be true"
    );
}

#[test]
fn a_failed_upstream_is_a_bad_gateway() {
    let (mut ex, mut breaker) = routed();
    let sent = ex
        .route(&LoopDetector::new(vec![]), &mut breaker, None, 0, at(3))
        .expect("dispatch");
    let failure = UpstreamFailure::Failed("refused".to_string());
    match ex.upstream_failed(&mut breaker, &sent.key, failure, 5, at(4)) {
        Step::Finish(answer) => assert_eq!(answer.head.status, 502),
        other => panic!("expected an answer, got {other:?}"),
    }
    assert!(ex.phase == Phase::Done);
}

#[test]
fn an_exchange_runs_to_its_answer() {
    let (mut ex, mut breaker) = routed();
    let sent = ex
        .route(&LoopDetector::new(vec![]), &mut breaker, Some("http://proxy:3128"), 0, at(3))
        .expect("dispatch");
    assert_eq!(sent.key, "http://proxy:3128");
    assert_eq!(sent.request.method, "GET");
    let mut upstream = response_head(&[("content-type", "text/plain"), ("content-length", "2")]);
    ex.upstream_answered(&mut breaker, &sent.key, &mut upstream);
    ex.first_byte(7);
    assert!(matches!(ex.response_headers(InterceptionResult::Continue, at(5)), Step::Proceed));
    assert!(matches!(ex.response_body(ResponseVerdict::Continue, at(6)), Step::Proceed));
    let answer = ex.answer(&upstream, 9, at(7));
    assert_eq!(answer.head.status, 200);
    assert_eq!(answer.head.headers.get("content-type").unwrap(), "text/plain");
    assert!(answer.body.is_none(), "the upstream's own body streams on");
    assert_eq!(ex.flow.end_time, Some(at(7)));
    match &ex.flow.layer {
        Layer::Http(http) => assert_eq!(
            http.response.as_ref().expect("response").timing.time_to_first_byte,
            Some(7)
        ),
        other => panic!("expected http, got {other:?}"),
    }
}

#[test]
fn interceptors_can_end_an_exchange() {
    let begin = || Exchange::begin(&request_head("http://example.com/", &[]), client(), false, policy(), None);

    let mut dropped = begin();
    match dropped.request_headers(InterceptionResult::Drop, at(1)) {
        Step::Finish(answer) => assert_eq!(answer.head.status, 403),
        other => panic!("expected an answer, got {other:?}"),
    }

    let mut mocked = begin();
    match mocked.request_headers(InterceptionResult::MockResponse(mock(418)), at(1)) {
        Step::Finish(answer) => assert_eq!(answer.head.status, 418),
        other => panic!("expected an answer, got {other:?}"),
    }
    assert_eq!(mocked.flow.end_time, Some(at(1)));
}

#[test]
fn websocket_requests_are_told_from_others() {
    let ws = request_head(
        "http://example.com/socket",
        &[("connection", "keep-alive, Upgrade"), ("upgrade", "WebSocket")],
    );
    assert!(is_websocket_request(&ws));
    assert!(!is_websocket_request(&request_head("http://example.com/", &[])));
    assert!(!is_websocket_request(&request_head(
        "http://example.com/",
        &[("connection", "Upgrade"), ("upgrade", "h2c")]
    )));
}

#[test]
fn verdicts_of_several_interceptors_are_folded() {
    let mut flow = create_test_flow();
    let mut outcome = InterceptionResult::Continue;
    assert!(!fold_request_headers(&mut flow, &mut outcome, InterceptionResult::Continue));
    assert!(matches!(outcome, InterceptionResult::Continue));
    assert!(fold_request_headers(&mut flow, &mut outcome, InterceptionResult::MockResponse(mock(200))));
    assert!(matches!(outcome, InterceptionResult::MockResponse(_)));
    assert!(ends_connect_round(&ConnectAction::Drop {
        reason: "no".to_string()
    }));
    assert!(!ends_connect_round(&ConnectAction::Allow));
    assert!(blocks_session(&InterceptionResult::Drop));
    assert!(!blocks_session(&InterceptionResult::MockResponse(mock(200))));
    assert!(matches!(
        NoOpInterceptor.on_udp_session(&create_test_flow()),
        InterceptionResult::Continue
    ));
}
