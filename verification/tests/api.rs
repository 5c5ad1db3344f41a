use relay_core::addr::{IpAddress, SocketAddress};
use relay_core::api::events::{audit_frame, flow_frame, lifecycle_frame, Received, SseFrame};
use relay_core::api::flows::{audit_limit, export_query, search_query, FlowQueryParams, ReplayParams};
use relay_core::api::policy::{check_patch, mask_upstream};
use relay_core::api::proxy::{
    proxy_control_unavailable, requester_label, shutdown_unavailable, start_status, status_for, stop_text,
    version_info, ProxyControlErrorCode, ProxyStartOutcome, ProxyStopOutcome,
};
use relay_core::api::replay::{
    body_bytes, captured_request, is_replay_header, plan_replay, replay_answer_headers, replay_failure_status,
    replay_proxy_url, require_running_proxy, trusts_proxy_ca, CoreStatusSnapshot, ReplayResponse,
    RuntimeLifecyclePhase,
};
use relay_core::api::rules::{
    check_script, default_action, default_content_type, default_phase, delete_status, intercept_rule, mock_url,
    set_intercept, MockRequest, SetInterceptRequest,
};
use relay_core::api::server::{cookie_value, is_authorized, require_bearer_token, HttpApiConfig};
use relay_core::api::webui::{asset_path, mime_guess_from_path, serve, Served};
use relay_core::control::manifest::CONTROL_API_VERSION;
use relay_core::flow::{
    BodyData, Flow, HttpLayer, HttpRequest, Layer, NetworkInfo, TargetUrl, TextMap, Timestamp,
    TransportProtocol,
};
use relay_core::proxy::body_codec::process_body;
use relay_core::proxy::outbound::{UpstreamAuth, UpstreamProxyConfig};

fn headers(fields: &[(&'static str, &str)]) -> hyper::HeaderMap {
    let mut m = hyper::HeaderMap::new();
    for (name, value) in fields {
        m.append(*name, value.parse().expect("value"));
    }
    m
}

#[test]
fn the_webui_cookie_authorizes_a_request() {
    let headers = headers(&[("cookie", "theme=dark; relay_core_token=s3cret; other=1")]);

    assert!(is_authorized(&headers, "s3cret"));
    assert!(
        !is_authorized(&headers, "different"),
        "a cookie that is merely present is not authorization"
    );
}

#[test]
fn a_bearer_header_still_authorizes_a_request() {
    let headers = headers(&[("authorization", "Bearer s3cret")]);

    assert!(is_authorized(&headers, "s3cret"));
    assert!(
        !is_authorized(&hyper::HeaderMap::new(), "s3cret"),
        "no credential is not authorization"
    );
}

#[test]
fn cookie_values_are_read_by_exact_name() {
    assert_eq!(
        cookie_value("relay_core_token=a b; x=1", "relay_core_token").as_deref(),
        Some("a b")
    );
    assert_eq!(
        cookie_value("relay_core_token_extra=1", "relay_core_token"),
        None,
        "a name that merely starts the same is a different cookie"
    );
    assert_eq!(cookie_value("", "relay_core_token"), None);
}

#[test]
fn status_endpoint_is_available_without_auth_by_default() {
    let config = HttpApiConfig::new(8082);
    assert!(require_bearer_token(&config, "GET", &hyper::HeaderMap::new()).is_none());
    assert_eq!(config.addr, SocketAddress::new(IpAddress::V4(0x7f00_0001), 8082));
    assert!(config.allowed_origins.is_empty());
    assert!(!config.is_exposed());
}

#[test]
fn status_endpoint_requires_bearer_token_when_configured() {
    let config = HttpApiConfig::new(8082)
        .with_bearer_token("secret-token".to_string())
        .with_webui(true)
        .with_allowed_origins(vec!["https://allowed.example".to_string()]);
    assert!(config.serve_webui);
    let refused = require_bearer_token(&config, "GET", &hyper::HeaderMap::new()).expect("refused");
    assert_eq!(refused.head.status, 401);
    assert_eq!(refused.head.headers.get("www-authenticate").unwrap(), "Bearer");
    assert_eq!(refused.head.headers.get("content-type").unwrap(), "application/json");
    assert_eq!(refused.body, br#"{"error":"missing_or_invalid_bearer_token"}"#);
    let carrying = headers(&[("authorization", "Bearer secret-token")]);
    assert!(require_bearer_token(&config, "GET", &carrying).is_none());
    assert!(
        require_bearer_token(&config, "OPTIONS", &hyper::HeaderMap::new()).is_none(),
        "a preflight carries no token"
    );
}

#[test]
fn an_open_api_on_the_network_is_exposed() {
    let mut config = HttpApiConfig::new(1);
    config.addr = SocketAddress::new(IpAddress::V4(0), 1);
    assert!(config.is_exposed());
    assert!(!config.with_bearer_token("t".to_string()).is_exposed());
}

fn snapshot(phase: RuntimeLifecyclePhase, port: Option<u16>) -> CoreStatusSnapshot {
    CoreStatusSnapshot {
        phase,
        running: false,
        port,
        uptime: None,
        last_error: None,
    }
}

#[test]
fn a_stopped_proxy_cannot_replay() {
    let error = require_running_proxy(&snapshot(RuntimeLifecyclePhase::Stopped, Some(8080))).unwrap_err();
    assert!(error.contains("not running"));
    assert_eq!(
        require_running_proxy(&snapshot(RuntimeLifecyclePhase::Running, Some(8080))),
        Ok(8080)
    );
    assert!(require_running_proxy(&snapshot(RuntimeLifecyclePhase::Running, None)).is_err());
}

#[test]
fn a_replay_sets_its_own_framing() {
    for name in ["Host", "connection", "Content-Length", "TE", "Proxy-Connection"] {
        assert!(!is_replay_header(name), "{name}");
    }
    for name in ["Cookie", "Authorization", "Trailers"] {
        assert!(is_replay_header(name), "{name}");
    }
}

fn body(encoding: &str, content: &str) -> BodyData {
    BodyData {
        encoding: encoding.to_string(),
        content: content.to_string(),
        size: 0,
        grpc: None,
    }
}

#[test]
fn replayed_bodies_are_those_that_were_recorded() {
    for bytes in [&b"plain"[..], b"\xff\x00\xfe", b""] {
        for kind in ["text/plain", "image/png"] {
            let fields = vec![("content-type".to_string(), kind.to_string())];
            let (encoding, content) = process_body(bytes, &fields);
            assert_eq!(body_bytes(&body(&encoding, &content)).as_deref(), Ok(bytes));
        }
    }
    assert_eq!(body_bytes(&body("BASE64", "aGk=")).as_deref(), Ok(&b"hi"[..]));
    let e = body_bytes(&body("base64", "!!")).unwrap_err();
    assert!(e.starts_with("replay body is not valid base64: "), "{e}");
}

#[test]
fn a_captured_request_is_repeated() {
    let fields = vec![
        ("Host".to_string(), "h".to_string()),
        ("X-A".to_string(), "1".to_string()),
    ];
    let q = captured_request("PUT", "http://h/x", &fields, Some(&body("utf-8", "b"))).expect("request");
    assert_eq!(q.method, "PUT");
    assert_eq!(q.url, "http://h/x");
    assert_eq!(q.headers, vec![("X-A".to_string(), "1".to_string())]);
    assert_eq!(q.body.as_deref(), Some(&b"b"[..]));
    let e = captured_request("NO METHOD", "http://h/", &[], None).unwrap_err();
    assert!(e.starts_with("Invalid method"));
    assert_eq!(replay_failure_status(&e), 400);
    assert_eq!(replay_failure_status("replay body is not valid base64: x"), 400);
    assert_eq!(replay_failure_status("Replay request failed: x"), 502);
    assert_eq!(replay_proxy_url(8080), "http://127.0.0.1:8080");
    assert!(trusts_proxy_ca(Some("pem")));
    assert!(!trusts_proxy_ca(Some("")));
    assert!(!trusts_proxy_ca(None));
}

fn flow(layer: Layer) -> Flow {
    Flow {
        id: 1,
        start_time: Timestamp { secs: 0, nanos: 0 },
        end_time: None,
        close_reason: None,
        network: NetworkInfo {
            client_ip: "127.0.0.1".to_string(),
            client_port: 1,
            server_ip: "127.0.0.1".to_string(),
            server_port: 2,
            server_host: None,
            protocol: TransportProtocol::TCP,
            tls: false,
            tls_version: None,
            sni: None,
        },
        layer,
        tags: vec![],
        meta: TextMap::new(),
        resilience_trace: None,
        rule_variables: TextMap::new(),
        matched_rules: vec![],
    }
}

fn http_flow() -> Flow {
    flow(Layer::Http(HttpLayer {
        request: HttpRequest {
            method: "GET".to_string(),
            url: TargetUrl {
                href: "http://example.com/".to_string(),
                scheme: "http".to_string(),
                host: Some("example.com".to_string()),
                port: Some(80),
            },
            version: "HTTP/1.1".to_string(),
            headers: vec![],
            cookies: vec![],
            query: vec![],
            body: None,
        },
        response: None,
        error: None,
    }))
}

#[test]
fn a_replay_is_planned_or_refused() {
    let running = snapshot(RuntimeLifecyclePhase::Running, Some(9));
    let (port, q) = plan_replay(Some(&http_flow()), "1", &running).expect("plan");
    assert_eq!(port, 9);
    assert_eq!(q.url, "http://example.com/");
    let e = plan_replay(None, "abc", &running).unwrap_err();
    assert_eq!((e.status, e.message.as_str()), (404, "Flow abc not found"));
    let e = plan_replay(Some(&flow(Layer::Unknown)), "1", &running).unwrap_err();
    assert_eq!((e.status, e.message.as_str()), (400, "Replay only supports HTTP flows"));
    let e = plan_replay(
        Some(&http_flow()),
        "1",
        &snapshot(RuntimeLifecyclePhase::Stopped, Some(9)),
    )
    .unwrap_err();
    assert_eq!(e.status, 503);
}

#[test]
fn answers_to_a_replay_are_shown() {
    let mut m = headers(&[("x-a", "1")]);
    m.append("x-b", hyper::header::HeaderValue::from_bytes(&[0xff]).unwrap());
    assert_eq!(
        replay_answer_headers(&m),
        vec![
            ("x-a".to_string(), "1".to_string()),
            ("x-b".to_string(), String::new())
        ]
    );
    let r = ReplayResponse {
        status: 200,
        url: "u".to_string(),
        headers: vec![],
        body: String::new(),
    };
    assert_eq!(r.clone(), r);
}

fn params(limit: Option<usize>, offset: Option<usize>) -> FlowQueryParams {
    FlowQueryParams {
        host: Some("api.example.com".to_string()),
        path: Some("/p".to_string()),
        path_contains: None,
        method: None,
        status_min: None,
        status_max: None,
        has_error: None,
        is_websocket: None,
        limit,
        offset,
    }
}

#[test]
fn flows_endpoint_returns_pagination_metadata() {
    let q = search_query(params(Some(1), Some(1)));
    assert_eq!(q.limit, Some(1));
    assert_eq!(q.offset, Some(1));
    assert_eq!(q.host.as_deref(), Some("api.example.com"));
    assert_eq!(q.path_contains.as_deref(), Some("/p"));
}

#[test]
fn pages_are_neither_empty_nor_endless() {
    assert_eq!(search_query(params(None, None)).limit, Some(50));
    assert_eq!(search_query(params(None, None)).offset, Some(0));
    assert_eq!(search_query(params(Some(0), None)).limit, Some(1));
    assert_eq!(search_query(params(Some(1000), None)).limit, Some(200));
    assert_eq!(export_query(params(None, None)).offset, None);
    let mut p = params(None, None);
    p.path_contains = Some("/q".to_string());
    assert_eq!(search_query(p).path_contains.as_deref(), Some("/q"));
    assert_eq!(audit_limit(None), 50);
    assert_eq!(audit_limit(Some(1)), 1);
    assert!(!ReplayParams::default().accept_invalid_certs);
}

#[test]
fn rules_are_made_from_requests() {
    assert_eq!(default_phase(), "request");
    assert_eq!(default_action(), "continue");
    assert_eq!(default_content_type(), "application/json");
    let req = SetInterceptRequest {
        url_pattern: "*.x".to_string(),
        phase: None,
    };
    let rule = intercept_rule(&req, "id-1".to_string());
    assert_eq!(rule.rule_id, "id-1");
    assert_eq!(rule.phase, "request");
    assert_eq!(rule.name, "api-intercept:*.x");
    assert_eq!(rule.priority, 100);
    let one = set_intercept(&req);
    let two = set_intercept(&req);
    assert_eq!(one.rule_id.len(), 36);
    assert_ne!(one.rule_id, two.rule_id);

    let mock = mock_url(MockRequest {
        url_pattern: "*.y".to_string(),
        status: 201,
        body: None,
        content_type: None,
    });
    assert!(mock.rule_id.starts_with("api-mock-"));
    assert_eq!(mock.rule_id.len(), 9 + 36);
    assert_eq!(mock.content_type, "application/json");
    assert_eq!(mock.body, "");
    assert_eq!(mock.status, 201);
    assert_eq!(delete_status(Some(true)), 200);
    assert_eq!(delete_status(Some(false)), 404);
    assert_eq!(delete_status(None), 500);
    assert!(check_script("x").is_ok());
    assert_eq!(check_script("  \n").unwrap_err().status, 400);
}

fn upstream(password: &str) -> UpstreamProxyConfig {
    UpstreamProxyConfig {
        proxy_url: "http://p".to_string(),
        bypass_hosts: vec!["a".to_string()],
        auth: Some(UpstreamAuth {
            username: "u".to_string(),
            password: password.to_string(),
        }),
    }
}

#[test]
fn another_upstream_needs_a_restart() {
    assert!(check_patch(&None, &None).is_ok());
    assert!(check_patch(&Some(upstream("a")), &None).is_ok());
    assert!(check_patch(&Some(upstream("a")), &Some(upstream("a"))).is_ok());
    let e = check_patch(&Some(upstream("a")), &Some(upstream("b"))).unwrap_err();
    assert_eq!(e.status, 409);
    assert!(check_patch(&None, &Some(upstream("a"))).is_err());
}

#[test]
fn passwords_are_masked() {
    let mut u = upstream("secret");
    mask_upstream(&mut u);
    let auth = u.auth.expect("auth");
    assert_eq!(auth.password, "***");
    assert_eq!(auth.username, "u");
}

#[test]
fn a_taken_port_is_reported_as_a_coded_conflict() {
    assert_eq!(status_for(ProxyControlErrorCode::StartFailed), 409);
    assert_eq!(status_for(ProxyControlErrorCode::InvalidConfig), 400);
    assert_eq!(status_for(ProxyControlErrorCode::StartTimeout), 504);
    assert_eq!(status_for(ProxyControlErrorCode::StopTimeout), 504);
    assert_eq!(status_for(ProxyControlErrorCode::StopFailed), 500);
}

#[test]
fn starting_twice_is_a_success_not_a_conflict() {
    assert_eq!(start_status(ProxyStartOutcome::Started { port: 1 }), 201);
    assert_eq!(start_status(ProxyStartOutcome::AlreadyRunning { port: 1 }), 200);
}

#[test]
fn stopping_nothing_reports_already_stopped() {
    assert_eq!(stop_text(ProxyStopOutcome::AlreadyStopped), "already_stopped");
    assert_eq!(stop_text(ProxyStopOutcome::Stopped), "stopped");
}

#[test]
fn a_host_without_proxy_control_says_so() {
    let f = proxy_control_unavailable();
    assert_eq!(f.status, 503);
    assert_eq!(f.code, "proxy_control_unavailable");
}

#[test]
fn a_host_without_a_shutdown_signal_refuses() {
    let f = shutdown_unavailable();
    assert_eq!(f.status, 503);
    assert_eq!(f.code, "shutdown_unavailable");
}

#[test]
fn a_start_records_who_asked_for_it() {
    assert_eq!(
        requester_label(&headers(&[("x-relay-client", " cli:relay start ")])).as_deref(),
        Some("cli:relay start")
    );
    assert_eq!(requester_label(&headers(&[("x-relay-client", "  ")])), None);
    assert_eq!(requester_label(&hyper::HeaderMap::new()), None);
}

#[test]
fn the_served_version_is_the_one_clients_expect() {
    let v = version_info("9.9");
    assert_eq!(v.engine_version, "9.9");
    assert_eq!(v.api_version, CONTROL_API_VERSION);
    assert_eq!(v.capabilities.len(), 7);
    assert_eq!(v.capabilities[0], "flows");
}

#[test]
fn a_slow_stream_is_told_what_it_missed() {
    let (frame, dropped) = audit_frame(Received::Lagged(3));
    assert_eq!(frame.event, "audit-lagged");
    assert_eq!(dropped, 3);
    let (frame, dropped) = audit_frame(Received::Item(Some("{}".to_string())));
    assert_eq!((frame.event.as_str(), frame.data.as_str(), dropped), ("audit", "{}", 0));
    let (frame, dropped) = flow_frame(Err(4));
    assert_eq!(frame.expect("frame").event, "lagged");
    assert_eq!(dropped, 4);
    assert!(flow_frame(Ok(None)).0.is_none());
    let named = SseFrame {
        event: "http-body".to_string(),
        data: "{}".to_string(),
    };
    assert_eq!(flow_frame(Ok(Some(named))).0.expect("frame").event, "http-body");
    assert_eq!(lifecycle_frame(None).event, "lifecycle");
}

#[test]
fn webui_handler_serves_index_at_root() {
    assert_eq!(asset_path("/"), "index.html");
    assert_eq!(asset_path("//a/b.js"), "a/b.js");
    match serve("/", true, true) {
        Served::File { name, content_type } => {
            assert_eq!(name, "index.html");
            assert!(content_type.contains("html"), "expected html, got: {content_type}");
        }
        other => panic!("expected the index, got {other:?}"),
    }
    assert!(matches!(serve("/flows/7", false, true), Served::Index { .. }));
    assert!(matches!(serve("/", false, false), Served::Missing { .. }));
}

#[test]
fn files_have_the_type_of_their_extension() {
    for (path, kind) in [
        ("index.html", "text/html; charset=utf-8"),
        ("a/b.css", "text/css; charset=utf-8"),
        ("x.min.js", "application/javascript; charset=utf-8"),
        ("x.json", "application/json"),
        ("x.png", "image/png"),
        ("x.svg", "image/svg+xml"),
        ("x.ico", "image/x-icon"),
        ("x.woff", "font/woff"),
        ("x.woff2", "font/woff2"),
        ("x.ttf", "font/ttf"),
        ("x.wasm", "application/wasm"),
        ("noext", "application/octet-stream"),
        ("x.HTML", "application/octet-stream"),
    ] {
        assert_eq!(mime_guess_from_path(path), kind, "{path}");
    }
}
