use relay_core::addr::{IpAddress, SocketAddress};
use relay_core::capture::loop_detection::LoopDetector;
use relay_core::flow::Direction;
use relay_core::intercept::{InterceptionResult, RequestVerdict};
use relay_core::policy::{ProxyPolicy, QuicMode};
use relay_core::proxy::http_utils::{HttpVersion, RequestHead, ResponseHead};
use relay_core::proxy::websocket::{
    flow_msg_to_tungstenite, handshake_endpoint, on_message_verdict, on_tunnel_event, switching_response,
    tungstenite_to_flow_msg, validate_ws_strict_handshake, AnswerStep, CloseFrame, Handshake, HandshakeStep,
    MessageVerdict, TunnelAction, TunnelEvent, WireMessage,
};
use relay_core::flow::FlowUpdate;
use relay_core::urls::TargetUri;

fn policy(strict: bool) -> ProxyPolicy {
    ProxyPolicy {
        transparent_enabled: false,
        strict_http_semantics: strict,
        max_body_size: 10 * 1024 * 1024,
        request_timeout_ms: 30_000,
        quic_mode: QuicMode::Passthrough,
        quic_downgrade_clear_cache: false,
        rule_body_inspect_budget: 1024 * 1024,
    }
}

fn request(fields: &[(&'static str, &str)]) -> RequestHead {
    let mut headers = hyper::HeaderMap::new();
    for (name, value) in fields {
        headers.insert(*name, value.parse().expect("value"));
    }
    RequestHead {
        method: "GET".to_string(),
        uri: "ws://example.com/socket".to_string(),
        version: HttpVersion::Http11,
        headers,
    }
}

#[test]
fn test_validate_ws_strict_handshake_rejects_missing_key() {
    let req = request(&[("sec-websocket-version", "13")]);
    let result = validate_ws_strict_handshake(&req, &policy(true));
    assert!(result.is_err());
}

#[test]
fn test_validate_ws_strict_handshake_rejects_invalid_version() {
    let req = request(&[("sec-websocket-key", "test-key"), ("sec-websocket-version", "12")]);
    let result = validate_ws_strict_handshake(&req, &policy(true));
    assert!(result.is_err());
}

#[test]
fn test_validate_ws_strict_handshake_accepts_valid_request() {
    let req = request(&[("sec-websocket-key", "test-key"), ("sec-websocket-version", "13")]);
    let result = validate_ws_strict_handshake(&req, &policy(true));
    assert!(result.is_ok());
}

#[test]
fn test_validate_ws_strict_handshake_skips_when_disabled() {
    let req = request(&[]);
    let result = validate_ws_strict_handshake(&req, &policy(false));
    assert!(result.is_ok());
}

#[test]
fn messages_survive_the_record() {
    for message in [
        WireMessage::Text("hello".to_string()),
        WireMessage::Binary(vec![0, 255, 7]),
        WireMessage::Ping(vec![1]),
        WireMessage::Pong(vec![2]),
    ] {
        let recorded = tungstenite_to_flow_msg(&message, Direction::ClientToServer).expect("recorded");
        let back = flow_msg_to_tungstenite(&recorded);
        assert_eq!(format!("{back:?}"), format!("{message:?}"));
    }
    assert!(tungstenite_to_flow_msg(&WireMessage::Frame, Direction::ClientToServer).is_none());
}

#[test]
fn a_handshake_runs_to_the_upstream() {
    let req = request(&[("sec-websocket-key", "k"), ("sec-websocket-version", "13")]);
    let client = SocketAddress::new(IpAddress::V4(0x7f00_0001), 5);
    let mut shake = Handshake::begin(&req, client, false, policy(true), None).expect("handshake");
    assert!(shake.flow.tags.contains(&"websocket".to_string()));
    shake.request_headers(InterceptionResult::Continue);
    shake.request(RequestVerdict::Continue);
    let sent = shake.route(&LoopDetector::new(vec![])).expect("request");
    assert_eq!(sent.uri.host.as_deref(), Some("example.com"));
    match shake.upstream_failed(Some("refused".to_string())) {
        HandshakeStep::PublishAndAnswer(answer) | HandshakeStep::Answer(answer) => {
            assert_eq!(answer.head.status, 502)
        }
        other => panic!("expected an answer, got {other:?}"),
    }
}

#[test]
fn a_strict_handshake_without_a_key_is_refused() {
    let req = request(&[("sec-websocket-version", "13")]);
    let client = SocketAddress::new(IpAddress::V4(0x7f00_0001), 5);
    let refused = match Handshake::begin(&req, client, false, policy(true), None) {
        Ok(_) => panic!("must be refused"),
        Err(answer) => answer,
    };
    assert_eq!(refused.head.status, 400);
}

#[test]
fn switching_answers_with_the_upstream_fields() {
    let mut headers = hyper::HeaderMap::new();
    headers.insert("sec-websocket-accept", "x".parse().unwrap());
    let r = switching_response(&ResponseHead {
        status: 101,
        version: HttpVersion::Http11,
        headers,
    });
    assert_eq!(r.head.status, 101);
    assert!(r.body.is_empty());
}

#[test]
fn a_tunnel_decides_what_happens_to_a_message() {
    let event = TunnelEvent::Received {
        direction: Direction::ServerToClient,
        message: WireMessage::Text("hi".to_string()),
    };
    let recorded = match on_tunnel_event(event) {
        TunnelAction::Intercept(m) => m,
        other => panic!("expected interception, got {other:?}"),
    };
    assert_eq!(recorded.content.content, "hi");
    assert_eq!(recorded.opcode, "Text");

    match on_message_verdict(9, recorded.clone(), MessageVerdict::Drop) {
        TunnelAction::Skip => {}
        other => panic!("expected nothing, got {other:?}"),
    }
    let mut changed = recorded.clone();
    changed.content.content = "changed".to_string();
    match on_message_verdict(9, recorded, MessageVerdict::Continue(changed)) {
        TunnelAction::Send {
            message: WireMessage::Text(t),
            ..
        } => assert_eq!(t, "changed"),
        other => panic!("expected the changed message, got {other:?}"),
    }
    assert!(matches!(on_tunnel_event(TunnelEvent::Ended), TunnelAction::End { .. }));
    assert!(matches!(
        on_tunnel_event(TunnelEvent::Failed("x".to_string())),
        TunnelAction::Fail { .. }
    ));
}

#[test]
fn a_closing_message_is_recorded_without_its_reason() {
    let said = WireMessage::Close(Some(CloseFrame {
        code: 1001,
        reason: "bye".to_string(),
    }));
    let m = tungstenite_to_flow_msg(&said, Direction::ServerToClient).expect("recorded");
    assert_eq!(m.opcode, "Close");
    assert_eq!(m.content.encoding, "none");
    assert_eq!(m.content.size, 0);
    assert!(matches!(flow_msg_to_tungstenite(&m), WireMessage::Close(None)));
}

fn target(scheme: Option<&str>, port: Option<u16>) -> TargetUri {
    TargetUri {
        text: "x".to_string(),
        scheme: scheme.map(|s| s.to_string()),
        authority: Some("example.com".to_string()),
        host: Some("example.com".to_string()),
        port,
        path_and_query: None,
    }
}

#[test]
fn a_handshake_goes_to_the_port_of_its_scheme() {
    let host = "example.com".to_string();
    assert_eq!(handshake_endpoint(&target(Some("wss"), None)), (host.clone(), 443));
    assert_eq!(handshake_endpoint(&target(Some("https"), None)), (host.clone(), 443));
    assert_eq!(handshake_endpoint(&target(Some("ws"), None)), (host.clone(), 80));
    assert_eq!(handshake_endpoint(&target(None, None)), (host.clone(), 80));
    assert_eq!(handshake_endpoint(&target(Some("wss"), Some(9))), (host, 9));
}

#[test]
fn only_an_upstream_that_switches_opens_the_tunnel() {
    let req = request(&[("sec-websocket-key", "test-key"), ("sec-websocket-version", "13")]);
    let client = SocketAddress::new(IpAddress::V4(0x7f00_0001), 5);
    for status in [101, 200, 403] {
        let mut shake = Handshake::begin(&req, client, false, policy(true), None).expect("handshake");
        shake.request_headers(InterceptionResult::Continue);
        shake.request(RequestVerdict::Continue);
        shake.route(&LoopDetector::new(vec![])).expect("routed");
        let head = ResponseHead {
            status,
            version: HttpVersion::Http11,
            headers: hyper::HeaderMap::new(),
        };
        match shake.upstream_answered(&head) {
            AnswerStep::Switch(answer) => {
                assert_eq!(status, 101);
                assert_eq!(answer.head.status, 101);
            }
            AnswerStep::ReadBody => assert_ne!(status, 101),
        }
    }
}

#[test]
fn a_message_is_published_under_the_identifier_of_its_flow() {
    let said = WireMessage::Text("hi".to_string());
    let m = tungstenite_to_flow_msg(&said, Direction::ServerToClient).expect("recorded");
    let id = 0x0123_4567_89ab_cdef_0fed_cba9_8765_4321;
    match on_message_verdict(id, m.clone(), MessageVerdict::Continue(m)) {
        TunnelAction::Send {
            publish: FlowUpdate::WebSocketMessage { flow_id, .. },
            ..
        } => assert_eq!(flow_id, "01234567-89ab-cdef-0fed-cba987654321"),
        other => panic!("expected a message, got {other:?}"),
    }
}
