use relay_core::addr::IpAddress;
use relay_core::proxy::http_utils::{ForwardRequest, HttpVersion};
use relay_core::proxy::outbound::{
    build_absolute_request, connect_request, needs_tunnel, proxy_endpoint, should_bypass, tunnel_granted,
    upstream_proxy_authorization, BypassRule, ConnectHandshake, ConnectStep, UpstreamAuth, UpstreamError,
    UpstreamProxyConfig,
};
use relay_core::urls::TargetUri;

fn ip(a: u8, b: u8, c: u8, d: u8) -> IpAddress {
    IpAddress::V4(u32::from_be_bytes([a, b, c, d]))
}

#[test]
fn bypass_rule_parse_cidr() {
    let rule = BypassRule::parse("cidr:10.0.0.0/8").unwrap();
    assert!(matches!(rule, BypassRule::Cidr { .. }));
}

#[test]
fn bypass_rule_parse_ip_literal() {
    let rule = BypassRule::parse("127.0.0.1").unwrap();
    assert!(matches!(rule, BypassRule::Ip(_)));
}

#[test]
fn bypass_rule_parse_glob() {
    let rule = BypassRule::parse("*.internal.corp").unwrap();
    assert!(matches!(rule, BypassRule::Glob(_)));
}

#[test]
fn bypass_rule_parse_invalid() {
    assert!(BypassRule::parse("cidr:not-a-cidr").is_err());
}

#[test]
fn bypass_rule_cidr_matches_host() {
    let rule = BypassRule::parse("cidr:10.0.0.0/8").unwrap();
    assert!(rule.matches_host("10.1.2.3"));
    assert!(!rule.matches_host("192.168.1.1"));
    assert!(!rule.matches_host("example.com"));
}

#[test]
fn bypass_rule_ip_matches_host() {
    let rule = BypassRule::parse("127.0.0.1").unwrap();
    assert!(rule.matches_host("127.0.0.1"));
    assert!(!rule.matches_host("127.0.0.2"));
}

#[test]
fn bypass_rule_glob_matches_host() {
    let rule = BypassRule::parse("*.internal.corp").unwrap();
    assert!(rule.matches_host("svc.internal.corp"));
    assert!(rule.matches_host("foo.bar.internal.corp"));
    assert!(!rule.matches_host("external.corp"));
    assert!(!rule.matches_host("10.0.0.1"));
}

#[test]
fn bypass_rule_cidr_matches_ip() {
    let rule = BypassRule::parse("cidr:10.0.0.0/8").unwrap();
    assert!(rule.matches_ip(&ip(10, 1, 2, 3)));
    assert!(!rule.matches_ip(&ip(192, 168, 1, 1)));
}

#[test]
fn bypass_rule_glob_never_matches_ip() {
    let rule = BypassRule::parse("*.example.com").unwrap();
    assert!(!rule.matches_ip(&ip(10, 0, 0, 1)));
}

#[test]
fn upstream_error_display() {
    let e = UpstreamError::ConnectRefused { status: 403 };
    assert!(e.message().contains("403"));
}

#[test]
fn every_upstream_error_reads_as_one() {
    assert_eq!(
        UpstreamError::Unreachable("x".to_string()).message(),
        "upstream proxy unreachable: x"
    );
    assert_eq!(UpstreamError::AuthRequired.message(), "upstream proxy authentication required");
    assert_eq!(UpstreamError::Tls("t".to_string()).message(), "upstream TLS error: t");
    assert_eq!(UpstreamError::Io("i".to_string()).message(), "I/O error: i");
}

#[test]
fn unreadable_rules_say_what_is_wrong() {
    let e = BypassRule::parse("cidr:nope").unwrap_err();
    assert!(e.starts_with("invalid CIDR 'nope': "), "{e}");
    let e = BypassRule::parse("***").unwrap_err();
    assert!(e.starts_with("invalid glob '***': "), "{e}");
}

#[test]
fn ipv6_networks_are_matched_too() {
    let rule = BypassRule::parse("cidr:fe80::/10").unwrap();
    assert!(rule.matches_host("fe80::1"));
    assert!(!rule.matches_host("2001:db8::1"));
    assert!(!rule.matches_host("10.0.0.1"));
    assert!(BypassRule::parse("::1").unwrap().matches_host("0:0:0:0:0:0:0:1"));
}

fn upstream(bypass: &[&str]) -> UpstreamProxyConfig {
    UpstreamProxyConfig {
        proxy_url: "http://proxy:3128".to_string(),
        bypass_hosts: bypass.iter().map(|s| s.to_string()).collect(),
        auth: Some(UpstreamAuth {
            username: "Aladdin".to_string(),
            password: "open sesame".to_string(),
        }),
    }
}

#[test]
fn hosts_and_addresses_bypass_the_upstream_proxy() {
    let u = upstream(&["cidr:broken", "*.corp", "cidr:10.0.0.0/8"]);
    assert!(should_bypass(&u, "a.corp", None));
    assert!(should_bypass(&u, "10.9.9.9", None));
    assert!(should_bypass(&u, "example.com", Some(ip(10, 0, 0, 1))));
    assert!(!should_bypass(&u, "example.com", Some(ip(11, 0, 0, 1))));
    assert!(!should_bypass(&upstream(&[]), "a.corp", None));
}

#[test]
fn credentials_are_sent_as_basic() {
    assert_eq!(
        upstream_proxy_authorization(&upstream(&[])).as_deref(),
        Some("Basic QWxhZGRpbjpvcGVuIHNlc2FtZQ==")
    );
    let mut u = upstream(&[]);
    u.auth = None;
    assert_eq!(upstream_proxy_authorization(&u), None);
}

#[test]
fn the_endpoint_of_a_proxy_is_read_from_its_url() {
    assert_eq!(proxy_endpoint("http://proxy:3128", 8080).unwrap(), ("proxy".to_string(), 3128));
    assert_eq!(proxy_endpoint("https://proxy", 8080).unwrap(), ("proxy".to_string(), 443));
    assert_eq!(proxy_endpoint("socks5://proxy", 8080).unwrap(), ("proxy".to_string(), 8080));
    assert_eq!(proxy_endpoint("socks5://proxy", 443).unwrap(), ("proxy".to_string(), 443));
    assert!(proxy_endpoint("not a url", 8080)
        .unwrap_err()
        .message()
        .starts_with("upstream proxy unreachable: invalid proxy URL: "));
    assert_eq!(
        proxy_endpoint("data:x", 8080).unwrap_err().message(),
        "upstream proxy unreachable: proxy URL missing host"
    );
}

fn request(scheme: &str) -> ForwardRequest {
    let mut headers = hyper::HeaderMap::new();
    headers.append("connection", "close".parse().unwrap());
    headers.append("x-a", "1".parse().unwrap());
    headers.append("x-a", "2".parse().unwrap());
    ForwardRequest {
        method: "POST".to_string(),
        uri: TargetUri {
            text: format!("{scheme}://example.com/p?q=1"),
            scheme: Some(scheme.to_string()),
            authority: Some("example.com".to_string()),
            host: Some("example.com".to_string()),
            port: None,
            path_and_query: Some("/p?q=1".to_string()),
        },
        version: Some(HttpVersion::Http11),
        headers,
    }
}

#[test]
fn https_requests_need_a_tunnel() {
    assert!(needs_tunnel(&request("https")));
    assert!(!needs_tunnel(&request("http")));
}

#[test]
fn a_fetched_request_names_its_target() {
    let q = build_absolute_request(&request("http"), "example.com", 8081).expect("request");
    assert_eq!(q.uri.text, "http://example.com:8081/p?q=1");
    assert_eq!(q.method, "POST");
    assert!(!q.headers.contains_key("connection"));
    assert_eq!(q.headers.get_all("x-a").iter().count(), 2);
    let bad = build_absolute_request(&request("http"), "exa mple", 1);
    assert!(matches!(bad, Err(UpstreamError::Io(_))));
}

#[test]
fn a_fetched_request_keeps_a_great_many_fields() {
    let mut many = request("http");
    for i in 0..10_000 {
        let name = hyper::header::HeaderName::from_bytes(format!("x-{i}").as_bytes()).unwrap();
        many.headers.append(name, "v".parse().unwrap());
    }
    let q = build_absolute_request(&many, "example.com", 8081).expect("request");
    assert_eq!(q.headers.keys_len(), 10_001);
    assert_eq!(q.headers.get("x-9999").unwrap(), "v");
}

#[test]
fn a_connect_request_is_written_out() {
    assert_eq!(
        connect_request("example.com", 443, None),
        "CONNECT example.com:443 HTTP/1.1\r\nHost: example.com:443\r\n\r\n"
    );
    assert_eq!(
        connect_request("h", 1, Some("Basic x")),
        "CONNECT h:1 HTTP/1.1\r\nHost: h:1\r\nProxy-Authorization: Basic x\r\n\r\n"
    );
}

fn feed(h: &mut ConnectHandshake, line: &str) -> ConnectStep {
    let mut last = ConnectStep::Read(1);
    for b in line.as_bytes() {
        last = h.on_read(&[*b]);
    }
    last
}

#[test]
fn an_answer_to_connect_is_read_to_its_end() {
    let mut h = ConnectHandshake::new();
    assert!(matches!(feed(&mut h, "HTTP/1.1 200 Connection established\r\n"), ConnectStep::Read(4096)));
    assert!(matches!(h.on_read(b"Via: x\r\n"), ConnectStep::Read(4088)));
    assert!(matches!(h.on_read(b"\r\n"), ConnectStep::Answered(200)));
    assert!(tunnel_granted(200).is_ok());
    assert!(tunnel_granted(299).is_ok());
    assert!(matches!(
        tunnel_granted(407),
        Err(UpstreamError::ConnectRefused { status: 407 })
    ));
}

#[test]
fn an_answer_to_connect_may_have_no_fields() {
    let mut h = ConnectHandshake::new();
    assert!(matches!(feed(&mut h, "HTTP/1.1 200 Connection established\r\n"), ConnectStep::Read(4096)));
    assert!(matches!(h.on_read(b"\r\n"), ConnectStep::Answered(200)));

    let mut h = ConnectHandshake::new();
    feed(&mut h, "HTTP/1.1 407 Proxy Authentication Required\r\n");
    assert!(matches!(h.on_read(b"\r"), ConnectStep::Read(4095)));
    assert!(matches!(h.on_read(b"\n"), ConnectStep::Answered(407)));
}

#[test]
fn a_bad_answer_to_connect_is_refused() {
    let mut h = ConnectHandshake::new();
    assert!(matches!(
        feed(&mut h, "garbage\r\n"),
        ConnectStep::Failed(UpstreamError::ConnectRefused { status: 0 })
    ));
    let mut h = ConnectHandshake::new();
    assert!(matches!(
        feed(&mut h, "HTTP/1.1 abc\r\n"),
        ConnectStep::Failed(UpstreamError::ConnectRefused { status: 0 })
    ));
    let mut h = ConnectHandshake::new();
    assert!(matches!(
        feed(&mut h, &"x".repeat(512)),
        ConnectStep::Failed(UpstreamError::ConnectRefused { status: 0 })
    ));
}

#[test]
fn a_closed_handshake_is_unreachable() {
    let mut h = ConnectHandshake::new();
    match h.on_read(b"") {
        ConnectStep::Failed(e) => assert_eq!(
            e.message(),
            "upstream proxy unreachable: connection closed during CONNECT handshake"
        ),
        other => panic!("expected a failure, got {other:?}"),
    }
    let mut h = ConnectHandshake::new();
    feed(&mut h, "HTTP/1.1 200 OK\r\n");
    match h.on_read(b"") {
        ConnectStep::Failed(e) => assert_eq!(
            e.message(),
            "upstream proxy unreachable: connection closed during CONNECT response"
        ),
        other => panic!("expected a failure, got {other:?}"),
    }
}
