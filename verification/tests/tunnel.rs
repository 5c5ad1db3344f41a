use relay_core::addr::{IpAddress, SocketAddress};
use relay_core::intercept::{ConnectAction, ConnectionInfo, ConnectionStats};
use relay_core::flow::{Layer, Timestamp};
use relay_core::proxy::http_utils::{HttpVersion, RequestHead};
use relay_core::proxy::server::{
    classify_request, connection_flow, on_connect_rules, on_connect_verdict, ConnectOverride, ConnectStep, Incoming,
};
use relay_core::proxy::tunnel::{
    classify_tunnel_preface, hostname, preface_is_decidable, tunnel_request_target, tunnel_scheme, PrefixedStream,
    SniffStep, Sniffer, TunnelProtocol,
};

#[test]
fn prefaces_are_told_apart() {
    assert_eq!(classify_tunnel_preface(&[0x16, 0x03, 0x01]), TunnelProtocol::Tls);
    assert_eq!(
        classify_tunnel_preface(b"PRI * HTTP/2.0\r\n\r\nSM\r\n\r\n"),
        TunnelProtocol::PlaintextH2
    );
    assert_eq!(classify_tunnel_preface(b"GET / HTTP/1.1"), TunnelProtocol::PlaintextHttp1);
    assert_eq!(classify_tunnel_preface(b""), TunnelProtocol::PlaintextHttp1);
}

#[test]
fn a_preface_is_decided_as_soon_as_it_can_be() {
    assert!(!preface_is_decidable(b""));
    assert!(!preface_is_decidable(&[0x16]), "TLS needs two bytes");
    assert!(preface_is_decidable(&[0x16, 0x03]));
    assert!(preface_is_decidable(b"G"));
    assert!(!preface_is_decidable(b"PRI"));
    assert!(preface_is_decidable(b"PRX"));
    assert!(preface_is_decidable(b"PRI * HTTP/2.0\r\n\r\nSM\r\n\r\n"));
}

#[test]
fn sniffed_bytes_are_handed_back() {
    let mut s = Sniffer::new();
    assert_eq!(s.next(), SniffStep::Read(24));
    assert_eq!(s.on_read(b"PR"), SniffStep::Read(22));
    assert_eq!(
        s.on_read(b"I * HTTP/2.0\r\n"),
        SniffStep::Ready(TunnelProtocol::PlaintextH2)
    );
    let mut stream = s.into_stream();
    assert_eq!(stream.read(4), b"PRI ");
    assert!(!stream.is_empty());
    assert_eq!(stream.read(100), b"* HTTP/2.0\r\n");
    assert!(stream.is_empty());
    assert_eq!(stream.read(100), b"");
}

#[test]
fn a_client_that_stops_is_taken_for_http1() {
    let mut s = Sniffer::new();
    assert_eq!(s.on_read(b"PRI"), SniffStep::Read(21));
    assert_eq!(s.on_read(b""), SniffStep::Ready(TunnelProtocol::PlaintextHttp1));
}

#[test]
fn a_prefix_is_read_in_order() {
    let mut p = PrefixedStream::new(vec![1, 2, 3]);
    assert_eq!(p.read(2), vec![1, 2]);
    assert_eq!(p.read(0), Vec::<u8>::new());
    assert_eq!(p.read(2), vec![3]);
}

#[test]
fn tunnels_have_their_own_scheme() {
    assert_eq!(tunnel_scheme(TunnelProtocol::Tls), ("https", true));
    assert_eq!(tunnel_scheme(TunnelProtocol::PlaintextH2), ("http", false));
    assert_eq!(tunnel_scheme(TunnelProtocol::PlaintextHttp1), ("http", false));
    assert_eq!(hostname("example.com:443"), "example.com");
    assert_eq!(hostname("example.com"), "example.com");
}

#[test]
fn requests_in_a_tunnel_get_the_authority_of_the_connect_line() {
    let t = tunnel_request_target("https", "example.com:443", Some("/a?b")).expect("target");
    assert_eq!(t.text, "https://example.com/a?b");
    assert_eq!(t.host.as_deref(), Some("example.com"));
    let t = tunnel_request_target("http", "example.com:8080", None).expect("target");
    assert_eq!(t.text, "http://example.com:8080/");
    assert!(tunnel_request_target("http", "exa mple", Some("/")).is_none());
}

fn v4(a: u8, b: u8, c: u8, d: u8, port: u16) -> SocketAddress {
    SocketAddress::new(IpAddress::V4(u32::from_be_bytes([a, b, c, d])), port)
}

fn info(server: Option<SocketAddress>) -> ConnectionInfo {
    ConnectionInfo {
        id: 5,
        client_addr: v4(10, 0, 0, 9, 1234),
        server_addr: server,
        tls_sni: None,
    }
}

#[test]
fn a_dropped_connection_is_closed() {
    let i = info(None);
    let drop = ConnectAction::Drop {
        reason: "no".to_string(),
    };
    assert_eq!(on_connect_verdict(&i, &drop, true), ConnectStep::Disconnect);
    assert_eq!(on_connect_verdict(&i, &ConnectAction::Allow, true), ConnectStep::RunRules);
    assert_eq!(on_connect_verdict(&i, &ConnectAction::Allow, false), ConnectStep::Serve(None));
    assert_eq!(ConnectionStats::default().duration_ms, 0);
    assert_eq!(ConnectionStats::lasting(7).duration_ms, 7);
}

#[test]
fn rules_may_change_the_target_of_a_connection() {
    let t = Some(v4(1, 2, 3, 4, 80));
    let port = Some(ConnectOverride::ForwardPort {
        host: "ignored".to_string(),
        port: 8080,
    });
    let to = Some(ConnectOverride::RedirectIp {
        ip: IpAddress::V4(0x0909_0909),
    });
    let ttl = Some(ConnectOverride::SetTtl { ttl: 3 });
    assert_eq!(on_connect_rules(t, true, &None), ConnectStep::Disconnect);
    assert_eq!(on_connect_rules(t, false, &None), ConnectStep::Serve(t));
    assert_eq!(on_connect_rules(t, false, &port), ConnectStep::Serve(Some(v4(1, 2, 3, 4, 8080))));
    assert_eq!(on_connect_rules(None, false, &port), ConnectStep::Serve(Some(v4(0, 0, 0, 0, 8080))));
    assert_eq!(on_connect_rules(t, false, &to), ConnectStep::Serve(Some(v4(9, 9, 9, 9, 80))));
    assert_eq!(on_connect_rules(None, false, &to), ConnectStep::Serve(Some(v4(9, 9, 9, 9, 0))));
    assert_eq!(on_connect_rules(t, false, &ttl), ConnectStep::Serve(t));
}

#[test]
fn rules_see_a_connection_as_a_flow() {
    let began = Timestamp { secs: 1_700_000_000, nanos: 123_456_789 };
    let f = connection_flow(&info(Some(v4(1, 2, 3, 4, 80))), began);
    assert_eq!(f.id, 5);
    assert_eq!(f.start_time, began);
    assert_eq!(f.network.client_ip, "10.0.0.9");
    assert_eq!(f.network.server_ip, "1.2.3.4");
    assert_eq!(f.network.server_port, 80);
    assert!(matches!(f.layer, Layer::Tcp(_)));
    assert_eq!(connection_flow(&info(None), began).network.server_ip, "");
}

fn head(method: &str, uri: &str, host: Option<&str>) -> RequestHead {
    let mut headers = hyper::HeaderMap::new();
    if let Some(h) = host {
        headers.insert("host", h.parse().unwrap());
    }
    RequestHead {
        method: method.to_string(),
        uri: uri.to_string(),
        version: HttpVersion::Http11,
        headers,
    }
}

#[test]
fn connect_asks_for_a_tunnel() {
    match classify_request(&head("CONNECT", "example.com:443", None)) {
        Incoming::Tunnel { host, answer } => {
            assert_eq!(host, "example.com:443");
            assert_eq!(answer.head.status, 200);
            assert!(answer.body.is_empty());
        }
        other => panic!("expected a tunnel, got {other:?}"),
    }
    match classify_request(&head("CONNECT", "/", Some("h:1"))) {
        Incoming::Tunnel { host, .. } => assert_eq!(host, "h:1"),
        other => panic!("expected a tunnel, got {other:?}"),
    }
    match classify_request(&head("CONNECT", "/", None)) {
        Incoming::Refused(r) => {
            assert_eq!(r.head.status, 400);
            assert_eq!(r.body, b"CONNECT must have authority");
        }
        other => panic!("expected a refusal, got {other:?}"),
    }
    assert!(matches!(
        classify_request(&head("GET", "http://h/", None)),
        Incoming::Exchange
    ));
}
