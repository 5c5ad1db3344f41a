use relay_core::addr::{IpAddress, SocketAddress};
use relay_core::capture::loop_detection::LoopDetector;
use relay_core::flow::{
    BodyData, Flow, HttpLayer, HttpRequest, HttpResponse, Layer, NetworkInfo, ResponseTiming, TargetUrl,
    TextMap, Timestamp, TransportProtocol,
};
use relay_core::metrics::{get_proxy_invalid_status, Metrics};
use relay_core::policy::{ProxyPolicy, QuicMode};
use relay_core::proxy::http_utils::{
    absolute_url, body_data_to_bytes, build_client_response_from_flow, build_client_response_head,
    build_forward_request, coalesce_cookie_headers, create_error_response, create_initial_flow, is_hop_by_hop,
    mock_to_response, parse_http_version, parse_request_meta, reframe_request_headers_for_replaced_body,
    request_body_from_flow_len, response_body_from_flow_len, update_flow_with_response, HttpVersion, RequestHead,
    ResponseHead,
};

fn policy() -> ProxyPolicy {
    ProxyPolicy {
        transparent_enabled: false,
        strict_http_semantics: false,
        max_body_size: 10 * 1024 * 1024,
        request_timeout_ms: 30_000,
        quic_mode: QuicMode::Passthrough,
        quic_downgrade_clear_cache: false,
        rule_body_inspect_budget: 1024 * 1024,
    }
}

fn head(method: &str, uri: &str, fields: &[(&str, &str)]) -> RequestHead {
    let mut headers = hyper::HeaderMap::new();
    for (name, value) in fields {
        headers.append(
            hyper::header::HeaderName::from_bytes(name.as_bytes()).expect("name"),
            value.parse().expect("value"),
        );
    }
    RequestHead {
        method: method.to_string(),
        uri: uri.to_string(),
        version: HttpVersion::Http11,
        headers,
    }
}

fn client() -> SocketAddress {
    SocketAddress::new(IpAddress::V4(0x7f00_0001), 12345)
}

fn timing() -> ResponseTiming {
    ResponseTiming {
        time_to_first_byte: None,
        time_to_last_byte: None,
        connect_time_ms: None,
        ssl_time_ms: None,
    }
}

fn sample_response_with(status: u16, headers: Vec<(String, String)>, body: Option<BodyData>) -> HttpResponse {
    HttpResponse {
        status,
        status_text: "X".to_string(),
        version: "HTTP/1.1".to_string(),
        headers,
        cookies: vec![],
        body,
        trailers: vec![],
        timing: timing(),
    }
}

fn sample_flow_with_response(status: u16) -> Flow {
    Flow {
        id: 1,
        start_time: Timestamp { secs: 0, nanos: 0 },
        end_time: None,
        close_reason: None,
        network: NetworkInfo {
            client_ip: "127.0.0.1".to_string(),
            client_port: 12345,
            server_ip: "1.1.1.1".to_string(),
            server_port: 80,
            server_host: None,
            protocol: TransportProtocol::TCP,
            tls: false,
            tls_version: None,
            sni: None,
        },
        layer: Layer::Http(HttpLayer {
            request: HttpRequest {
                method: "GET".to_string(),
                url: TargetUrl {
                    href: "http://example.com/a".to_string(),
                    scheme: "http".to_string(),
                    host: Some("example.com".to_string()),
                    port: Some(80),
                },
                version: "HTTP/1.1".to_string(),
                headers: vec![],
                cookies: vec![],
                query: vec![],
                body: None,
            },
            response: Some(HttpResponse {
                status,
                status_text: "X".to_string(),
                version: "HTTP/2.0".to_string(),
                headers: vec![
                    ("X-Test".to_string(), "1".to_string()),
                    ("content-length".to_string(), "999".to_string()),
                    ("connection".to_string(), "keep-alive".to_string()),
                ],
                cookies: vec![],
                body: None,
                trailers: vec![],
                timing: timing(),
            }),
            error: None,
        }),
        tags: vec![],
        meta: TextMap::new(),
        resilience_trace: None,
        rule_variables: TextMap::new(),
        matched_rules: vec![],
    }
}

fn http(flow: &mut Flow) -> &mut HttpLayer {
    match &mut flow.layer {
        Layer::Http(http) => http,
        _ => panic!("expected http layer"),
    }
}

#[test]
fn every_cookie_field_is_parsed_and_forwarded_as_one_header() {
    let req = head(
        "GET",
        "http://sso.example/login",
        &[("cookie", "sid=aaa"), ("cookie", "portal=bbb"), ("host", "sso.example")],
    );
    let meta = parse_request_meta(&req, false);
    let names: Vec<_> = meta.cookies.iter().map(|cookie| cookie.name.as_str()).collect();
    assert_eq!(names, vec!["sid", "portal"], "both cookie fields are parsed");

    let mut flow = sample_flow_with_response(200);
    http(&mut flow).request.headers = meta.headers;
    let forward =
        build_forward_request(&mut flow, None, &policy(), &LoopDetector::new(vec![]), false).expect("forward");
    let cookies: Vec<_> = forward
        .headers
        .get_all("cookie")
        .iter()
        .map(|value| value.to_str().expect("cookie text"))
        .collect();
    assert_eq!(cookies, vec!["sid=aaa; portal=bbb"], "the upstream sees one Cookie header");
}

#[test]
fn test_mock_to_response_decodes_base64_and_reframes() {
    let decoded = b"hello".to_vec();
    let mock = sample_response_with(
        200,
        vec![
            ("content-type".to_string(), "application/octet-stream".to_string()),
            ("content-encoding".to_string(), "gzip".to_string()),
            ("transfer-encoding".to_string(), "chunked".to_string()),
            ("content-length".to_string(), "999".to_string()),
        ],
        Some(BodyData {
            encoding: "base64".to_string(),
            content: data_encoding::BASE64.encode(&decoded),
            size: decoded.len() as u64,
            grpc: None,
        }),
    );

    let resp = mock_to_response(mock);
    assert_eq!(resp.body, decoded, "base64 mock body must be decoded, not sent as base64 text");
    assert_eq!(
        resp.head.headers.get("content-length").and_then(|v| v.to_str().ok()),
        None,
        "stale upstream content-length must not be copied onto the mock response"
    );
    assert!(
        !resp.head.headers.contains_key("transfer-encoding"),
        "transfer-encoding must be stripped: the mock body is a known-length buffer"
    );
    assert!(
        !resp.head.headers.contains_key("content-encoding"),
        "content-encoding must be dropped when it no longer describes the body"
    );
    assert_eq!(
        resp.head.headers.get("content-type").and_then(|v| v.to_str().ok()),
        Some("application/octet-stream"),
        "unrelated headers must survive"
    );
}

#[test]
fn test_mock_to_response_without_body_drops_content_encoding() {
    let mock = sample_response_with(204, vec![("content-encoding".to_string(), "br".to_string())], None);

    let resp = mock_to_response(mock);
    assert!(resp.body.is_empty());
    assert!(!resp.head.headers.contains_key("content-encoding"));
}

#[test]
fn a_proxied_request_records_its_target() {
    let meta = parse_request_meta(&head("GET", "http://example.com/a/b", &[]), false);
    let flow = create_initial_flow(meta, None, client(), false, false);

    assert_eq!(
        flow.network.server_host.as_deref(),
        Some("example.com:80"),
        "the target must be recorded, with the scheme's default port filled in"
    );
    assert_eq!(
        flow.network.server_ip, "0.0.0.0",
        "the peer address stays unknown rather than being invented"
    );

    let meta = parse_request_meta(&head("GET", "https://example.com:8443/x", &[]), true);
    let flow = create_initial_flow(meta, None, client(), true, false);
    assert_eq!(flow.network.server_host.as_deref(), Some("example.com:8443"));
}

#[test]
fn test_parse_request_meta_relative_uri_uses_host_http() {
    let meta = parse_request_meta(&head("GET", "/api/v1?q=1", &[("Host", "example.com:8080")]), false);
    assert_eq!(meta.url_str, "http://example.com:8080/api/v1?q=1");
    assert_eq!(meta.query, vec![("q".to_string(), "1".to_string())]);
}

#[test]
fn test_parse_request_meta_relative_uri_uses_host_https_in_mitm() {
    let meta = parse_request_meta(&head("GET", "/secure", &[("Host", "secure.example.com")]), true);
    assert_eq!(meta.url_str, "https://secure.example.com/secure");
}

#[test]
fn test_build_client_response_from_flow_uses_default_version_currently() {
    let flow = sample_flow_with_response(201);
    let mut counters = Metrics::new();
    let resp = build_client_response_from_flow(&flow, HttpVersion::Http11, true, &mut counters)
        .expect("response should build");
    assert_eq!(resp.head.version, HttpVersion::Http11);
    assert_eq!(resp.head.status, 201);
    assert_eq!(
        resp.head.headers.get("x-test").and_then(|v| v.to_str().ok()),
        Some("1")
    );
    assert!(
        resp.head.headers.get("content-length").is_none(),
        "content-length should be stripped from forwarded mock response"
    );
    assert!(resp.head.headers.get("connection").is_none());
}

#[test]
fn test_build_client_response_from_flow_invalid_status_strict_fails() {
    let flow = sample_flow_with_response(1000);
    let mut counters = Metrics::new();
    let err = build_client_response_from_flow(&flow, HttpVersion::Http11, true, &mut counters)
        .expect_err("strict mode should reject invalid status");
    assert!(err.contains("Invalid status code"));
    assert_eq!(get_proxy_invalid_status(&counters), 1);
}

#[test]
fn test_build_client_response_from_flow_invalid_status_non_strict_fallback_ok() {
    let mut flow = sample_flow_with_response(1000);
    if let Some(res) = &mut http(&mut flow).response {
        res.body = Some(BodyData {
            encoding: "utf-8".to_string(),
            content: "hello".to_string(),
            size: 5,
            grpc: None,
        });
    }

    let mut counters = Metrics::new();
    let resp = build_client_response_from_flow(&flow, HttpVersion::Http11, false, &mut counters)
        .expect("non-strict should fallback");
    assert_eq!(resp.head.status, 200);
    assert_eq!(resp.body, b"hello");
}

#[test]
fn known_versions_round_trip_from_the_debug_format() {
    for (text, expected) in [
        ("HTTP/1.1", HttpVersion::Http11),
        ("HTTP/1.0", HttpVersion::Http10),
        ("HTTP/2.0", HttpVersion::Http2),
        ("HTTP/3.0", HttpVersion::Http3),
        ("HTTP/0.9", HttpVersion::Http09),
    ] {
        assert_eq!(parse_http_version(text), expected, "parsing {text}");
        assert_eq!(expected.write(), text);
    }
    assert_eq!(format!("{:?}", hyper::Version::HTTP_2), HttpVersion::Http2.write());
}

#[test]
fn variant_spellings_are_accepted() {
    for text in ["http/2", "HTTP/2", "Http/2.0", " http/2.0 "] {
        assert_eq!(parse_http_version(text), HttpVersion::Http2, "parsing {text:?}");
    }
}

#[test]
fn unknown_versions_fall_back_to_http_1_1() {
    for text in ["", " ", "gopher/1", "HTTP/9.9"] {
        assert_eq!(
            parse_http_version(text),
            HttpVersion::Http11,
            "parsing {text:?} should fall back rather than guess"
        );
    }
}

fn pair(a: &str, b: &str) -> (String, String) {
    (a.to_string(), b.to_string())
}

#[test]
fn cookies_are_joined_where_the_first_stood() {
    let joined = coalesce_cookie_headers(&[
        pair("a", "1"),
        pair("Cookie", "x=1"),
        pair("b", "2"),
        pair("cookie", ""),
        pair("COOKIE", "y=2"),
    ]);
    assert_eq!(joined, vec![pair("a", "1"), pair("Cookie", "x=1; y=2"), pair("b", "2")]);
    assert_eq!(
        coalesce_cookie_headers(&[pair("a", "1"), pair("cookie", "")]),
        vec![pair("a", "1")]
    );
    assert_eq!(
        coalesce_cookie_headers(&[pair("set-cookie", "a=1"), pair("set-cookie", "b=2")]).len(),
        2
    );
}

#[test]
fn replaced_bodies_are_framed_anew() {
    let fields = reframe_request_headers_for_replaced_body(
        &[
            pair("Content-Length", "5"),
            pair("x", "y"),
            pair("Content-Encoding", "gzip"),
            pair("transfer-encoding", "chunked"),
        ],
        12,
    );
    assert_eq!(fields, vec![pair("x", "y"), pair("Content-Length", "12")]);
}

#[test]
fn connection_fields_are_told_from_others() {
    for name in ["Connection", "keep-alive", "Upgrade", "TE", "Proxy-Authorization"] {
        assert!(is_hop_by_hop(name), "{name}");
    }
    for name in ["Cookie", "Content-Type", "X-Connection"] {
        assert!(!is_hop_by_hop(name), "{name}");
    }
}

#[test]
fn connection_fields_do_not_reach_the_upstream() {
    let mut flow = sample_flow_with_response(200);
    http(&mut flow).request.headers = vec![
        pair("connection", "close"),
        pair("x-kept", "1"),
        pair("proxy-authorization", "Basic x"),
    ];
    let forward =
        build_forward_request(&mut flow, None, &policy(), &LoopDetector::new(vec![]), false).expect("forward");
    assert!(!forward.headers.contains_key("connection"));
    assert!(!forward.headers.contains_key("proxy-authorization"));
    assert!(forward.headers.contains_key("x-kept"));
    assert_eq!(forward.uri.text, "http://example.com/a");
    assert_eq!(forward.uri.path_and_query.as_deref(), Some("/a"));
}

#[test]
fn a_replaced_body_is_forwarded_with_its_own_length() {
    let mut flow = sample_flow_with_response(200);
    http(&mut flow).request.headers = vec![
        pair("Content-Length", "999"),
        pair("X-Many", "1"),
        pair("content-encoding", "gzip"),
        pair("x-many", "2"),
    ];
    http(&mut flow).request.body = Some(BodyData {
        encoding: "base64".to_string(),
        content: "aGVsbG8=".to_string(),
        size: 5,
        grpc: None,
    });
    let forward =
        build_forward_request(&mut flow, None, &policy(), &LoopDetector::new(vec![]), true).expect("forward");
    let lengths: Vec<&[u8]> = forward.headers.get_all("content-length").iter().map(|v| v.as_bytes()).collect();
    assert_eq!(lengths, vec![b"5".as_slice()]);
    let many: Vec<&[u8]> = forward.headers.get_all("x-many").iter().map(|v| v.as_bytes()).collect();
    assert_eq!(many, vec![b"1".as_slice(), b"2".as_slice()]);
    assert!(!forward.headers.contains_key("content-encoding"));
}

#[test]
fn a_route_to_the_proxy_itself_is_refused() {
    let own = SocketAddress::new(IpAddress::V4(0x7f00_0001), 8080);
    let mut flow = sample_flow_with_response(200);
    let transparent = ProxyPolicy {
        transparent_enabled: true,
        ..policy()
    };
    let refused = build_forward_request(&mut flow, Some(own), &transparent, &LoopDetector::new(vec![own]), false)
        .expect_err("a loop");
    assert_eq!(refused.head.status, 508);
}

#[test]
fn a_transparent_request_goes_where_it_was_going() {
    let to = SocketAddress::new(IpAddress::V4(0x0102_0304), 8081);
    let mut flow = sample_flow_with_response(200);
    let transparent = ProxyPolicy {
        transparent_enabled: true,
        ..policy()
    };
    let forward = build_forward_request(&mut flow, Some(to), &transparent, &LoopDetector::new(vec![]), false)
        .expect("forward");
    assert_eq!(forward.uri.text, "http://1.2.3.4:8081/a");
    assert_eq!(flow.network.server_ip, "1.2.3.4");
    assert_eq!(flow.network.server_port, 8081);
}

#[test]
fn an_invalid_method_is_not_forwarded() {
    let mut flow = sample_flow_with_response(200);
    http(&mut flow).request.method = "NOT A METHOD".to_string();
    let strict = ProxyPolicy {
        strict_http_semantics: true,
        ..policy()
    };
    let r = build_forward_request(&mut flow, None, &strict, &LoopDetector::new(vec![]), false);
    assert!(r.is_err());
}

#[test]
fn absolute_urls_take_the_scheme_of_the_connection() {
    assert_eq!(absolute_url(false, "h", "/p"), "http://h/p");
    assert_eq!(absolute_url(true, "h", "/p"), "https://h/p");
}

#[test]
fn errors_are_answered_in_words() {
    let r = create_error_response(502, "Bad Gateway");
    assert_eq!(r.head.status, 502);
    assert_eq!(r.body, b"Bad Gateway");
    assert!(r.head.headers.is_empty());
}

#[test]
fn recorded_bodies_have_the_length_of_their_bytes() {
    let mut flow = sample_flow_with_response(200);
    assert_eq!(request_body_from_flow_len(&flow), None);
    let body = BodyData {
        encoding: "base64".to_string(),
        content: "aGVsbG8=".to_string(),
        size: 5,
        grpc: None,
    };
    assert_eq!(body_data_to_bytes(&Some(body.clone())), b"hello");
    http(&mut flow).request.body = Some(body.clone());
    assert_eq!(request_body_from_flow_len(&flow), Some(5));
    if let Some(r) = &mut http(&mut flow).response {
        r.body = Some(body);
    }
    assert_eq!(response_body_from_flow_len(&flow), Some(5));
}

#[test]
fn a_response_is_recorded_with_its_cookies_and_body() {
    let mut flow = sample_flow_with_response(200);
    let mut fields = hyper::HeaderMap::new();
    fields.append("content-type", "text/plain".parse().unwrap());
    fields.append("set-cookie", "id=7; Path=/x; HttpOnly".parse().unwrap());
    update_flow_with_response(&mut flow, 404, HttpVersion::Http2, &fields, b"gone");
    let response = http(&mut flow).response.as_ref().expect("response").clone();
    assert_eq!(response.status, 404);
    assert_eq!(response.status_text, "404 Not Found");
    assert_eq!(response.version, "HTTP/2.0");
    assert_eq!(response.headers.len(), 2);
    assert_eq!(response.cookies.len(), 1);
    assert_eq!(response.cookies[0].name, "id");
    assert_eq!(response.cookies[0].value, "7");
    assert_eq!(response.cookies[0].path.as_deref(), Some("/x"));
    assert_eq!(response.cookies[0].http_only, Some(true));
    assert_eq!(response.body.expect("body").content, "gone");
}

#[test]
fn the_client_gets_the_recorded_fields_and_the_length_of_the_stream() {
    let flow = sample_flow_with_response(201);
    let mut headers = hyper::HeaderMap::new();
    headers.insert("content-length", "42".parse().unwrap());
    headers.insert("x-old", "1".parse().unwrap());
    let upstream = ResponseHead {
        status: 200,
        version: HttpVersion::Http2,
        headers,
    };
    let sent = build_client_response_head(&flow, &upstream);
    assert_eq!(sent.status, 201);
    assert_eq!(sent.version, HttpVersion::Http11);
    assert_eq!(sent.headers.get("content-length").unwrap(), "42");
    assert_eq!(sent.headers.get("x-test").unwrap(), "1");
    assert!(!sent.headers.contains_key("x-old"));
}
