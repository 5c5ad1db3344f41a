use relay_core::addr::{IpAddress, SocketAddress};
use relay_core::capture::loop_detection::LoopDetector;
use relay_core::capture::original_dst::{
    nat_answer, nat_lookup, original_dst_from_socket, parse_orig_dst, sockaddr_to_socket_addr,
    socket_addr_to_sockaddr, tproxy_options, transparent_options, ControlMessage, RawAddress, RawAddressError,
    IPV6_RECVORIGDSTADDR, IP_RECVORIGDSTADDR, SOL_IP, SOL_IPV6,
};
use relay_core::capture::transparent_tcp::{
    is_recoverable_original_dst_error, listen_addrs, target_of, DstErrorKind,
};
use relay_core::capture::udp::{is_reply, opening_flow, resolve_udp_dst, UdpSession, UdpSessionKey, UdpSessionManager, UdpStep};
use relay_core::capture::windows::{redirect, PacketStep};
use relay_core::flow::{HttpResponse, Layer, ResponseTiming, Timestamp};
use relay_core::intercept::InterceptionResult;

fn v4(a: u8, b: u8, c: u8, d: u8, port: u16) -> SocketAddress {
    SocketAddress::new(IpAddress::V4(u32::from_be_bytes([a, b, c, d])), port)
}

fn v6(n: u128, port: u16) -> SocketAddress {
    SocketAddress::new(IpAddress::V6(n), port)
}

#[test]
fn test_would_loop_on_direct_listen_match() {
    let detector = LoopDetector::new(vec![v4(127, 0, 0, 1, 8080)]);
    assert!(detector.would_loop(v4(127, 0, 0, 1, 8080)));
    assert!(!detector.would_loop(v4(9, 9, 9, 9, 8080)));
}

#[test]
fn test_would_loop_on_cached_local_ip_and_listen_port() {
    let mut detector = LoopDetector::new(vec![v4(0, 0, 0, 0, 9090)]);
    detector.refresh_local_addrs(vec![IpAddress::V4(u32::from_be_bytes([10, 10, 10, 1]))]);
    assert!(detector.would_loop(v4(10, 10, 10, 1, 9090)));
    assert!(!detector.would_loop(v4(10, 10, 10, 1, 9091)));
}

#[test]
fn test_refresh_local_addrs_populates_cache() {
    let mut detector = LoopDetector::new(vec![v4(0, 0, 0, 0, 80)]);
    detector.refresh_local_addrs(vec![]);
    assert!(
        detector.would_loop(v4(127, 0, 0, 1, 80)),
        "refresh should populate at least fallback local addresses"
    );
}

#[test]
fn test_listen_addrs_contains_listener_and_is_deduplicated() {
    let own = v4(127, 0, 0, 1, 4000);
    let addrs = listen_addrs(&vec![own], Some(own));
    assert_eq!(addrs.len(), 1);
    assert_eq!(addrs[0], own);
}

#[test]
fn listen_addresses_stand_in_their_order() {
    let list = listen_addrs(
        &vec![v6(1, 1), v4(10, 0, 0, 1, 2), v4(10, 0, 0, 1, 1), v6(1, 1)],
        Some(v4(9, 0, 0, 1, 9)),
    );
    assert_eq!(
        list,
        vec![v4(9, 0, 0, 1, 9), v4(10, 0, 0, 1, 1), v4(10, 0, 0, 1, 2), v6(1, 1)]
    );
}

#[test]
fn test_accept_recovers_when_original_dst_is_unsupported() {
    assert_eq!(
        target_of(Err(DstErrorKind::Unsupported)),
        Ok(None),
        "target_addr should fallback to None"
    );
    assert!(is_recoverable_original_dst_error(DstErrorKind::NotFound));
    assert!(is_recoverable_original_dst_error(DstErrorKind::AddrNotAvailable));
    assert!(is_recoverable_original_dst_error(DstErrorKind::InvalidInput));
}

#[test]
fn test_accept_propagates_non_recoverable_original_dst_error() {
    assert!(
        target_of(Err(DstErrorKind::Other)).is_err(),
        "non-recoverable errors must propagate"
    );
    assert_eq!(target_of(Ok(Some(v4(1, 2, 3, 4, 5)))), Ok(Some(v4(1, 2, 3, 4, 5))));
}

/// A moment shortly after 1970.
fn at(nanos: u32) -> Timestamp {
    Timestamp { secs: 1, nanos }
}

const MS: u128 = 1_000_000;

#[test]
fn a_closed_session_reports_totals_and_an_end_time() {
    let mut manager = UdpSessionManager::new(MS);
    let src = v4(127, 0, 0, 1, 4444);
    let dst = v4(127, 0, 0, 1, 5555);

    let (_, is_new) = manager.get_or_create_session(src, dst, 7, at(100), 0);
    assert!(is_new, "the first packet must create the session");

    for _ in 0..4 {
        manager.get_or_create_session(src, dst, 8, at(100), 0);
    }
    manager.on_sent(src, dst, 512);

    let closed = manager.close_idle_sessions(5 * MS, at(105));
    assert_eq!(closed.len(), 1, "the idle session must be closed exactly once");
    let flow = &closed[0];
    assert!(
        flow.end_time.is_some(),
        "a closed session must record end_time so duration_ms is computable"
    );
    assert_eq!((flow.start_time, flow.end_time), (at(100), Some(at(105))));
    match &flow.layer {
        Layer::Udp(udp) => {
            assert_eq!(udp.packet_count, 5, "the closing Flow reports every packet");
            assert_eq!(udp.payload_size, 512, "and every byte");
        }
        other => panic!("expected a UDP layer, got {other:?}"),
    }

    assert!(
        manager.cleanup_idle_sessions(10 * MS).is_empty(),
        "closing must remove the session so it is not reported twice"
    );
}

#[test]
fn an_active_session_is_not_closed() {
    let mut manager = UdpSessionManager::new(60_000 * MS);
    manager.get_or_create_session(v4(127, 0, 0, 1, 6666), v4(127, 0, 0, 1, 7777), 1, at(0), 0);
    assert!(
        manager.cleanup_idle_sessions(10 * MS).is_empty(),
        "a session inside its idle window must be left alone"
    );
}

#[test]
fn a_session_is_idle_to_the_nanosecond() {
    let mut manager = UdpSessionManager::new(60_000 * MS);
    manager.get_or_create_session(v4(127, 0, 0, 1, 6666), v4(127, 0, 0, 1, 7777), 1, at(0), 5);
    assert!(manager.cleanup_idle_sessions(60_000 * MS + 5).is_empty());
    assert_eq!(manager.cleanup_idle_sessions(60_000 * MS + 6).len(), 1);
}

#[test]
fn opening_flow_reports_no_end_time_and_frozen_counters() {
    let session = UdpSession {
        flow_id: 3,
        key: UdpSessionKey {
            src_ip: IpAddress::V4(0x7f00_0001),
            src_port: 1000,
            dst_ip: IpAddress::V4(0x7f00_0001),
            dst_port: 2000,
        },
        src: v4(127, 0, 0, 1, 1000),
        dst: v4(127, 0, 0, 1, 2000),
        started_at: at(5),
        created_at: 0,
        last_activity: 0,
        packet_count: 1,
        bytes_transferred: 0,
    };
    assert_eq!(session.packet_count, 1);
    assert_eq!(session.bytes_transferred, 0);

    let opening = opening_flow(&session, 0, at(5));
    assert!(
        opening.end_time.is_none(),
        "the opening Flow must not claim a duration for an exchange still in progress"
    );
    assert_eq!(opening.network.client_ip, "127.0.0.1");
    assert_eq!(opening.network.server_port, 2000);
    match &opening.layer {
        Layer::Udp(udp) => assert_eq!(udp.packet_count, 1),
        other => panic!("expected a UDP layer, got {other:?}"),
    }
}

fn asked(manager: &mut UdpSessionManager) -> (SocketAddress, SocketAddress) {
    let src = v4(10, 0, 0, 1, 50000);
    let dst = v4(10, 0, 0, 2, 53);
    match manager.on_datagram(src, Some(dst), 100, 1, 0, at(0)) {
        UdpStep::Ask(flow) => assert_eq!(flow.network.client_ip, "10.0.0.1"),
        other => panic!("a new session must be asked about, got {other:?}"),
    }
    (src, dst)
}

#[test]
fn test_udp_interceptor_allows_by_default() {
    let mut manager = UdpSessionManager::new(60_000 * MS);
    let (src, dst) = asked(&mut manager);
    assert!(manager.on_session_verdict(src, dst, &InterceptionResult::Continue));
    assert!(manager.knows(src, dst));
    assert!(matches!(
        manager.on_datagram(src, Some(dst), 10, 2, 1, at(1)),
        UdpStep::Forward
    ));
}

#[test]
fn test_udp_interceptor_drops() {
    let mut manager = UdpSessionManager::new(60_000 * MS);
    let (src, dst) = asked(&mut manager);
    assert!(!manager.on_session_verdict(src, dst, &InterceptionResult::Drop));
    assert!(!manager.knows(src, dst));
}

#[test]
fn test_udp_mock_response_fallthrough_continues() {
    let mut manager = UdpSessionManager::new(60_000 * MS);
    let (src, dst) = asked(&mut manager);
    let mock = InterceptionResult::MockResponse(HttpResponse {
        status: 200,
        status_text: "OK".to_string(),
        version: "HTTP/1.1".to_string(),
        headers: vec![],
        cookies: vec![],
        body: None,
        trailers: vec![],
        timing: ResponseTiming {
            time_to_first_byte: None,
            time_to_last_byte: None,
            connect_time_ms: None,
            ssl_time_ms: None,
        },
    });
    assert!(manager.on_session_verdict(src, dst, &mock));
}

#[test]
fn a_datagram_without_a_destination_is_ignored() {
    let mut manager = UdpSessionManager::new(60_000 * MS);
    assert!(matches!(
        manager.on_datagram(v4(10, 0, 0, 1, 1), None, 10, 1, 0, at(0)),
        UdpStep::Ignore
    ));
}

#[test]
fn test_resolve_udp_dst_non_macos_returns_fixed() {
    let fixed = v4(127, 0, 0, 1, 8080);
    assert_eq!(resolve_udp_dst(None, Some(fixed)), Some(fixed));
}

#[test]
fn test_resolve_udp_dst_returns_none_when_all_empty() {
    assert_eq!(resolve_udp_dst(None, None), None);
}

#[test]
fn a_looked_up_destination_comes_first() {
    let found = v4(1, 1, 1, 1, 53);
    assert_eq!(resolve_udp_dst(Some(found), Some(v4(2, 2, 2, 2, 53))), Some(found));
}

#[test]
fn addresses_survive_the_system() {
    for a in [v4(192, 168, 1, 77, 8080), v6(0x2001_0db8_0000_0000_0000_0000_0000_0001, 443)] {
        let raw = socket_addr_to_sockaddr(a);
        assert_eq!(sockaddr_to_socket_addr(&raw), Ok(a));
    }
    let raw = socket_addr_to_sockaddr(v4(1, 2, 3, 4, 0x1234));
    assert_eq!(raw.port, vec![0x12, 0x34]);
    assert_eq!(raw.octets, vec![1, 2, 3, 4]);
}

#[test]
fn unknown_families_are_errors() {
    let raw = RawAddress {
        family: 1,
        port: vec![0, 80],
        octets: vec![],
        flow_info: 0,
        scope_id: 0,
    };
    assert_eq!(sockaddr_to_socket_addr(&raw), Err(RawAddressError::UnknownFamily));
    assert!(original_dst_from_socket(&socket_addr_to_sockaddr(v6(1, 80))).is_err());
    assert_eq!(
        original_dst_from_socket(&socket_addr_to_sockaddr(v4(1, 2, 3, 4, 80))),
        Ok(v4(1, 2, 3, 4, 80))
    );
}

#[test]
fn the_first_control_message_with_a_destination_counts() {
    let other = ControlMessage {
        level: SOL_IP,
        kind: 8,
        address: socket_addr_to_sockaddr(v4(9, 9, 9, 9, 9)),
    };
    let six = ControlMessage {
        level: SOL_IPV6,
        kind: IPV6_RECVORIGDSTADDR,
        address: socket_addr_to_sockaddr(v6(7, 53)),
    };
    let four = ControlMessage {
        level: SOL_IP,
        kind: IP_RECVORIGDSTADDR,
        address: socket_addr_to_sockaddr(v4(8, 8, 8, 8, 53)),
    };
    assert_eq!(parse_orig_dst(&vec![]), None);
    assert_eq!(parse_orig_dst(&vec![other.clone()]), None);
    assert_eq!(
        parse_orig_dst(&vec![other.clone(), four.clone(), six.clone()]),
        Some(v4(8, 8, 8, 8, 53))
    );
    assert_eq!(parse_orig_dst(&vec![other, six, four]), Some(v6(7, 53)));
}

#[test]
fn the_packet_filter_is_asked_in_network_order() {
    let q = nat_lookup(v4(10, 0, 0, 1, 0x1f90), v4(127, 0, 0, 1, 443));
    assert_eq!(q.family, 2);
    assert_eq!(q.proto, 6);
    assert_eq!(q.direction, 1);
    assert_eq!(q.source_port, vec![0x1f, 0x90]);
    assert_eq!(&q.source[..4], &[10, 0, 0, 1]);
    assert_eq!(q.source.len(), 16);
    for a in [v4(93, 184, 216, 34, 443), v6(0xfe80_0000_0000_0000_0000_0000_0000_0099, 8443)] {
        let q = nat_lookup(a, a);
        assert_eq!(nat_answer(q.family, &q.destination, &q.destination_port), a);
    }
}

#[test]
fn socket_options_are_set_in_order() {
    let list = tproxy_options();
    assert_eq!(list.len(), 4);
    assert!(list[0].required && list[1].required && !list[2].required && !list[3].required);
    assert_eq!(transparent_options(v4(1, 2, 3, 4, 5)).len(), 2);
    assert_eq!(transparent_options(v6(1, 5)).len(), 3);
}

fn tcp_packet() -> Vec<u8> {
    let mut p = vec![
        0x45, 0, 0, 40, 0, 1, 0, 0, 64, 6, 0xab, 0xcd, 10, 0, 0, 5, 93, 184, 216, 34,
    ];
    p.extend_from_slice(&[
        0xc0, 0x01, 0x00, 0x50, 0, 0, 0, 0, 0, 0, 0, 0, 0x50, 0x02, 0x20, 0, 0, 0, 0, 0,
    ]);
    p
}

#[test]
fn a_tcp_packet_is_turned_to_the_proxy() {
    let mut p = tcp_packet();
    let step = redirect(&mut p, 8080);
    assert_eq!(
        step,
        PacketStep::Turned {
            source: v4(10, 0, 0, 5, 0xc001),
            destination: v4(93, 184, 216, 34, 80)
        }
    );
    assert_eq!(&p[16..20], &[127, 0, 0, 1]);
    assert_eq!(&p[22..24], &8080u16.to_be_bytes());
    assert_eq!(&p[10..12], &[0, 0]);
    assert_eq!(&p[12..16], &[10, 0, 0, 5]);
    assert_eq!(p.len(), 40);
}

#[test]
fn an_ipv6_packet_is_turned_to_the_proxy() {
    let mut p = vec![0x60, 0, 0, 0, 0, 20, 6, 64];
    p.extend_from_slice(&0x2001_0db8_0000_0000_0000_0000_0000_0005u128.to_be_bytes());
    p.extend_from_slice(&0x2001_0db8_0000_0000_0000_0000_0000_0009u128.to_be_bytes());
    p.extend_from_slice(&tcp_packet()[20..]);
    let step = redirect(&mut p, 0x1234);
    assert!(matches!(step, PacketStep::Turned { .. }));
    assert_eq!(&p[24..40], &1u128.to_be_bytes());
    assert_eq!(&p[42..44], &[0x12, 0x34]);
}

#[test]
fn what_is_no_tcp_packet_passes() {
    let mut udp = tcp_packet();
    udp[9] = 17;
    let before = udp.clone();
    assert_eq!(redirect(&mut udp, 8080), PacketStep::Pass);
    assert_eq!(udp, before);
    let mut junk = vec![1, 2, 3];
    assert_eq!(redirect(&mut junk, 8080), PacketStep::Pass);
    assert_eq!(junk, vec![1, 2, 3]);
}

#[test]
fn a_reply_comes_from_where_the_session_goes() {
    let a = SocketAddress::new(IpAddress::V4(0x0102_0304), 53);
    let b = SocketAddress::new(IpAddress::V4(0x0102_0304), 54);
    assert!(is_reply(a, a));
    assert!(!is_reply(b, a));
}
