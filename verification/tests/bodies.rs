use relay_core::flow::{
    BodyData, Direction, Flow, FlowUpdate, HttpLayer, HttpRequest, Layer, NetworkInfo, TargetUrl, TextMap,
    Timestamp, TransportProtocol,
};
use relay_core::metrics::{get_proxy_body_degraded, get_proxy_stream_mode_tap, Metrics};
use relay_core::proxy::body_plan::{
    body_recorded_decoded, buffer_body_within_budget, buffer_prefix, headers_for_direction, record_body_on_flow,
    record_decoded_body_on_flow, BufferedBody,
};
use relay_core::proxy::budget::{BudgetEvent, BudgetedBody};
use relay_core::proxy::content_encoding::encode_after_rewrite;
use relay_core::proxy::frame::BodyFrame;
use relay_core::proxy::tap::{TapBody, TapEvent};
use relay_core::proxy::throttle::{throttle_rate, ThrottleBody, ThrottleStep};

fn flow() -> Flow {
    Flow {
        id: 1,
        start_time: Timestamp { secs: 0, nanos: 0 },
        end_time: None,
        close_reason: None,
        network: NetworkInfo {
            client_ip: "127.0.0.1".to_string(),
            client_port: 1,
            server_ip: "127.0.0.1".to_string(),
            server_port: 2,
            server_host: None,
            protocol: TransportProtocol::TCP,
            tls: false,
            tls_version: None,
            sni: None,
        },
        layer: Layer::Http(HttpLayer {
            request: HttpRequest {
                method: "POST".to_string(),
                url: TargetUrl {
                    href: "http://example.com/".to_string(),
                    scheme: "http".to_string(),
                    host: Some("example.com".to_string()),
                    port: Some(80),
                },
                version: "HTTP/1.1".to_string(),
                headers: vec![("content-type".to_string(), "application/json".to_string())],
                cookies: vec![],
                query: vec![],
                body: None,
            },
            response: None,
            error: None,
        }),
        tags: vec![],
        meta: TextMap::new(),
        resilience_trace: None,
        rule_variables: TextMap::new(),
        matched_rules: vec![],
    }
}

fn recorded(flow: &Flow) -> &BodyData {
    match &flow.layer {
        Layer::Http(http) => http.request.body.as_ref().expect("body recorded"),
        _ => panic!("expected http layer"),
    }
}

#[test]
fn body_within_budget_is_complete_and_not_truncated() {
    let (kept, whole) = buffer_body_within_budget(&vec![b"hello".to_vec()], 1024);
    assert_eq!(whole, b"hello", "forwarding must preserve the body");
    assert_eq!(kept.bytes, b"hello");
    assert!(!kept.truncated);
}

#[test]
fn retained_prefix_is_visible_while_the_body_still_streams() {
    let mut wrapped = buffer_prefix(1024);
    assert_eq!(wrapped.retained(), b"", "nothing is retained before the first poll");

    wrapped.observe(b"hello");

    assert_eq!(wrapped.retained(), b"hello");
    assert_eq!(wrapped.observed_bytes(), 5);
    assert!(!wrapped.truncated());

    let snapshot = wrapped.into_parts();
    assert_eq!(&snapshot.bytes[..], b"hello");
}

#[test]
fn oversized_body_is_truncated_but_fully_forwarded() {
    let payload = vec![b'x'; 4096];
    let (kept, out) = buffer_body_within_budget(&vec![payload.clone()], 64);

    assert_eq!(out.len(), payload.len(), "an oversized body must still be forwarded in full");
    assert!(kept.truncated);
    assert_eq!(kept.bytes.len(), 64);
    assert_eq!(kept.total_bytes, 4096);
}

#[test]
fn reading_stops_at_the_cap_even_when_the_body_is_larger() {
    let payload = vec![b'y'; 8192];
    let mut wrapped = buffer_prefix(64);

    wrapped.observe(&payload);

    assert_eq!(wrapped.retained().len(), 64);
    assert!(
        wrapped.truncated(),
        "reaching the cap must be reported so a body rule can refuse to match a prefix"
    );
}

#[test]
fn recorded_body_is_visible_to_filters() {
    let mut flow = flow();
    let headers = vec![("content-type".to_string(), "application/json".to_string())];

    record_body_on_flow(&mut flow, Direction::ClientToServer, br#"{"a":1}"#, 7, &headers);

    let recorded = recorded(&flow);
    assert_eq!(recorded.content, r#"{"a":1}"#);
    assert_eq!(recorded.encoding, "utf-8");
    assert_eq!(recorded.size, 7);
}

#[test]
fn an_encoded_body_is_recorded_decoded() {
    let mut flow = flow();
    let headers = vec![
        ("content-type".to_string(), "text/plain".to_string()),
        ("content-encoding".to_string(), "gzip".to_string()),
    ];
    let (encoded, _) = encode_after_rewrite(b"plain words", Some("gzip"));

    let decoded = record_decoded_body_on_flow(
        &mut flow,
        Direction::ClientToServer,
        &encoded,
        encoded.len() as u64,
        &headers,
    );

    assert!(decoded);
    assert!(body_recorded_decoded(&flow));
    assert_eq!(recorded(&flow).content, "plain words");
}

#[test]
fn a_complete_body_is_whole() {
    let b = BufferedBody::from_complete(b"abc".to_vec());
    assert_eq!(b.bytes, b"abc");
    assert_eq!(b.total_bytes, 3);
    assert!(!b.truncated);
}

#[test]
fn fields_are_those_of_the_direction() {
    let f = flow();
    assert_eq!(headers_for_direction(&f, Direction::ClientToServer).len(), 1);
    assert!(headers_for_direction(&f, Direction::ServerToClient).is_empty());
}

/// Send frames through a budgeted body.
fn pass(budgeted: &mut BudgetedBody, frames: Vec<BodyFrame>) -> Vec<u8> {
    let mut data = Vec::new();
    for frame in frames {
        match budgeted.poll_frame(BudgetEvent::Frame(frame)) {
            Some(BodyFrame::Data(d)) => data.extend_from_slice(&d),
            other => panic!("expected the data, got {other:?}"),
        }
    }
    assert!(budgeted.poll_frame(BudgetEvent::End).is_none());
    assert!(budgeted.is_done());
    data
}

#[test]
fn test_budgeted_body_within_limit() {
    let data = b"hello world";
    let mut budgeted = BudgetedBody::new(100);
    let collected = pass(&mut budgeted, vec![BodyFrame::Data(data.to_vec())]);
    assert_eq!(collected, data);
    assert!(!budgeted.budget_exceeded());
    assert_eq!(budgeted.accumulated_data(), data);
    assert_eq!(budgeted.total_bytes(), 11);
}

#[test]
fn test_budgeted_body_exceeds_limit() {
    let data = b"this is a long message that exceeds the budget";
    let mut budgeted = BudgetedBody::new(10);
    let collected = pass(&mut budgeted, vec![BodyFrame::Data(data.to_vec())]);
    assert_eq!(collected, data);
    assert!(budgeted.budget_exceeded());
    assert_eq!(budgeted.accumulated_data(), b"this is a ");
    assert_eq!(budgeted.total_bytes(), data.len() as u64);
}

#[test]
fn a_body_as_long_as_its_budget_does_not_exceed_it() {
    let mut budgeted = BudgetedBody::new(5);
    assert!(budgeted.poll_frame(BudgetEvent::Frame(BodyFrame::Data(b"hello".to_vec()))).is_some());
    assert!(!budgeted.budget_exceeded());
    assert_eq!(budgeted.accumulated_data(), b"hello");
    assert!(budgeted.poll_frame(BudgetEvent::Pending).is_none());
    assert!(!budgeted.is_done(), "a body that has nothing yet goes on");
    assert!(!budgeted.is_end_stream(false));
    assert!(budgeted.poll_frame(BudgetEvent::Frame(BodyFrame::Data(b"!".to_vec()))).is_some());
    assert!(budgeted.budget_exceeded());
    assert_eq!(budgeted.accumulated_data(), b"hello");
}

#[test]
fn trailers_and_errors_end_a_budgeted_body() {
    let mut trailers = hyper::HeaderMap::new();
    trailers.insert("x-trailer", "present".parse().unwrap());
    let mut budgeted = BudgetedBody::new(5);
    match budgeted.poll_frame(BudgetEvent::Frame(BodyFrame::Trailers(trailers.clone()))) {
        Some(BodyFrame::Trailers(t)) => assert_eq!(t, trailers),
        other => panic!("expected the trailers, got {other:?}"),
    }
    assert!(budgeted.is_end_stream(false));
    assert!(budgeted.poll_frame(BudgetEvent::Frame(BodyFrame::Data(b"late".to_vec()))).is_none());
    assert_eq!(budgeted.total_bytes(), 0);

    let mut failed = BudgetedBody::new(5);
    assert!(failed.poll_frame(BudgetEvent::Failed).is_none());
    assert!(failed.is_done());
}

/// Send frames through a throttled body on a clock that moves on as long as it is told to wait.
fn collect(throttled: &mut ThrottleBody, frames: Vec<BodyFrame>) -> (Vec<u8>, usize, u128) {
    let mut arriving = frames.into_iter();
    let mut now: u128 = 0;
    let mut data = Vec::new();
    let mut trailers = 0;
    loop {
        let arrived = if throttled.is_holding() { None } else { arriving.next() };
        match throttled.poll_frame(arrived, now) {
            ThrottleStep::Ready(BodyFrame::Data(d)) => data.extend_from_slice(&d),
            ThrottleStep::Ready(BodyFrame::Trailers(_)) => trailers += 1,
            ThrottleStep::Wait(nanos) => now += nanos,
            ThrottleStep::Ask => return (data, trailers, now),
        }
    }
}

#[test]
fn test_throttle_body_preserves_data() {
    let data = b"test-body-data";
    let mut throttled = ThrottleBody::new(1_000_000);
    let (collected, _, _) = collect(&mut throttled, vec![BodyFrame::Data(data.to_vec())]);
    assert_eq!(collected, data);
}

#[test]
fn test_throttle_body_passthrough_empty() {
    let mut throttled = ThrottleBody::new(1000);
    let (collected, _, _) = collect(&mut throttled, vec![BodyFrame::Data(Vec::new())]);
    assert_eq!(collected.len(), 0);
    assert!(throttled.is_end_stream(true));
}

#[test]
fn test_throttle_body_passes_trailers() {
    let mut trailers = hyper::HeaderMap::new();
    trailers.insert("x-trailer", "present".parse().unwrap());
    trailers.insert("x-end-stream", "true".parse().unwrap());
    let mut throttled = ThrottleBody::new(1_000_000);

    match throttled.poll_frame(Some(BodyFrame::Data(b"body-data".to_vec())), 0) {
        ThrottleStep::Ready(BodyFrame::Data(d)) => assert_eq!(d, b"body-data"),
        other => panic!("expected the data, got {other:?}"),
    }
    match throttled.poll_frame(Some(BodyFrame::Trailers(trailers.clone())), 0) {
        ThrottleStep::Ready(BodyFrame::Trailers(t)) => assert_eq!(t, trailers),
        other => panic!("expected the trailers, got {other:?}"),
    }
    assert!(matches!(throttled.poll_frame(None, 0), ThrottleStep::Ask));
}

#[test]
fn a_slow_rate_delays_frames_and_loses_none() {
    let mut throttled = ThrottleBody::new(1000);
    let frames = vec![
        BodyFrame::Data(vec![1; 500]),
        BodyFrame::Data(vec![2; 250]),
        BodyFrame::Data(vec![3; 250]),
        BodyFrame::Trailers(hyper::HeaderMap::new()),
    ];
    let (collected, trailers, now) = collect(&mut throttled, frames);
    let mut expected = vec![1; 500];
    expected.extend_from_slice(&[2; 250]);
    expected.extend_from_slice(&[3; 250]);
    assert_eq!(collected, expected);
    assert_eq!(trailers, 1);
    assert_eq!(now, 500_000_000, "the frames after the first take a quarter of a second each");
}

#[test]
fn a_slow_rate_holds_the_next_frame_back() {
    let mut throttled = ThrottleBody::new(1000);
    let frame = || Some(BodyFrame::Data(vec![0; 500]));
    assert!(matches!(throttled.poll_frame(frame(), 0), ThrottleStep::Ready(_)));
    assert!(matches!(throttled.poll_frame(frame(), 0), ThrottleStep::Wait(500_000_000)));
    assert!(throttled.is_holding());
    assert!(!throttled.is_end_stream(true), "a held frame is still to come");
    assert!(matches!(throttled.poll_frame(None, 400_000_001), ThrottleStep::Wait(99_999_999)));
    assert!(
        matches!(throttled.poll_frame(None, 500_000_000), ThrottleStep::Ready(_)),
        "the frame that was held back goes when asked again"
    );
}

#[test]
fn a_rate_is_read_from_the_record() {
    let mut meta = TextMap::new();
    assert_eq!(throttle_rate(&meta), None);
    meta.insert("unrelated".to_string(), "5".to_string());
    assert_eq!(throttle_rate(&meta), None);
    meta.insert("throttle_bytes_per_sec".to_string(), "4096".to_string());
    assert_eq!(throttle_rate(&meta), Some(4096));
    meta.insert("throttle_bytes_per_sec".to_string(), "0".to_string());
    assert_eq!(throttle_rate(&meta), None);
}

#[test]
fn a_body_that_ends_by_hint_is_reported() {
    let mut counters = Metrics::new();
    let mut body = TapBody::new(
        "flow-hint".to_string(),
        Direction::ServerToClient,
        1024,
        vec![("content-type".to_string(), "text/plain".to_string())],
        &mut counters,
    );

    let event = TapEvent::Frame {
        frame: BodyFrame::Data(b"payload".to_vec()),
        nothing_left: true,
    };
    let (frame, updates) = body.poll_frame(event, &mut counters);
    assert!(matches!(frame, Some(BodyFrame::Data(d)) if d == b"payload"));
    assert_eq!(updates.len(), 1, "the body must be reported after the poll");
    match &updates[0] {
        FlowUpdate::HttpBody { body, .. } => assert_eq!(body.content, "payload"),
        other => panic!("expected an HttpBody update, got {other:?}"),
    }
    let (frame, updates) = body.poll_frame(TapEvent::End, &mut counters);
    assert!(frame.is_none());
    assert!(updates.is_empty(), "and reported only once");
}

#[test]
fn a_body_that_ends_by_its_stream_is_reported() {
    let mut counters = Metrics::new();
    let mut body = TapBody::new("flow-end".to_string(), Direction::ClientToServer, 1024, vec![], &mut counters);
    for part in [b"ab".to_vec(), b"cd".to_vec()] {
        let event = TapEvent::Frame {
            frame: BodyFrame::Data(part.clone()),
            nothing_left: false,
        };
        let (frame, updates) = body.poll_frame(event, &mut counters);
        assert!(matches!(frame, Some(BodyFrame::Data(d)) if d == part));
        assert!(updates.is_empty());
    }
    let (_, updates) = body.poll_frame(TapEvent::End, &mut counters);
    match &updates[..] {
        [FlowUpdate::HttpBody { body, .. }] => {
            assert_eq!(body.content, "abcd");
            assert_eq!(body.size, 4);
        }
        other => panic!("expected one HttpBody update, got {other:?}"),
    }
}

#[test]
fn test_tap_body_passes_trailers() {
    let mut counters = Metrics::new();
    let mut tap = TapBody::new(
        "test-flow".to_string(),
        Direction::ServerToClient,
        4096,
        vec![],
        &mut counters,
    );

    tap.observe_data(b"hello", &mut counters);
    let mut trailers = hyper::HeaderMap::new();
    trailers.insert("x-trailer", "value".parse().unwrap());
    let update = tap.observe_trailers(&trailers);
    match update {
        Some(FlowUpdate::ResponseTrailers { trailers, .. }) => assert_eq!(
            trailers,
            vec![("x-trailer".to_string(), "value".to_string())],
            "trailers must be reported as an incremental update, not only forwarded"
        ),
        other => panic!("unexpected update: {other:?}"),
    }
    match &tap.report_once(&mut counters)[..] {
        [FlowUpdate::HttpBody { body, .. }] => assert_eq!(body.size, 5, "body size should match data"),
        other => panic!("unexpected updates: {other:?}"),
    }
    assert_eq!(get_proxy_stream_mode_tap(&counters), 1);
}

#[test]
fn a_tapped_body_over_its_budget_is_told() {
    let mut counters = Metrics::new();
    let mut tap = TapBody::new("f".to_string(), Direction::ClientToServer, 4, vec![], &mut counters);
    tap.observe_data(b"0123456789", &mut counters);
    assert!(tap.budget_exceeded());
    assert_eq!(tap.total_bytes(), 10);
    let updates = tap.report_once(&mut counters);
    assert!(updates
        .iter()
        .any(|u| matches!(u, FlowUpdate::BodyBudgetExceeded { .. })));
    assert_eq!(get_proxy_body_degraded(&counters), 1);
}
