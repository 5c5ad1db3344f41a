use relay_core::metrics::{
    add_bytes_recv, add_bytes_sent, get_bytes_recv, get_bytes_sent, get_flows_dropped, get_proxy_body_degraded,
    get_proxy_http_request, get_proxy_invalid_method, get_proxy_invalid_status, get_proxy_retry,
    get_proxy_sandbox_reject, get_proxy_stream_mode_degrade, get_proxy_stream_mode_tap, inc_flows_dropped,
    inc_proxy_body_degraded, inc_proxy_http_request, inc_proxy_invalid_method, inc_proxy_invalid_status,
    inc_proxy_retry, inc_proxy_sandbox_reject, inc_proxy_stream_mode_degrade, inc_proxy_stream_mode_tap,
    ConnectionMeter, Metrics,
};

#[test]
fn test_bytes_sent_counting() {
    let mut m = Metrics::new();
    let before = get_bytes_sent(&m);
    add_bytes_sent(&mut m, 100);
    assert!(get_bytes_sent(&m) >= before + 100);
}

#[test]
fn test_bytes_recv_counting() {
    let mut m = Metrics::new();
    let before = get_bytes_recv(&m);
    add_bytes_recv(&mut m, 200);
    assert!(get_bytes_recv(&m) >= before + 200);
}

#[test]
fn test_connection_meter_delta() {
    let mut m = Metrics::new();
    let before_sent = get_bytes_sent(&m);
    let before_recv = get_bytes_recv(&m);
    let meter = ConnectionMeter::new(&m);
    add_bytes_sent(&mut m, 300);
    add_bytes_recv(&mut m, 400);
    assert!(meter.snapshot_bytes_sent(&m) >= 300);
    assert!(meter.snapshot_bytes_recv(&m) >= 400);
    let _ = (before_sent, before_recv);
}

#[test]
fn test_connection_meter_independent_snapshots() {
    let mut m = Metrics::new();
    let m1 = ConnectionMeter::new(&m);
    add_bytes_sent(&mut m, 100);
    let m2 = ConnectionMeter::new(&m);
    add_bytes_sent(&mut m, 200);
    assert!(m1.snapshot_bytes_sent(&m) >= 300);
    assert!(m2.snapshot_bytes_sent(&m) >= 200);
    assert!(m2.snapshot_bytes_sent(&m) <= m1.snapshot_bytes_sent(&m));
}

#[test]
fn every_counter_counts_its_own_event() {
    let mut m = Metrics::new();
    inc_flows_dropped(&mut m);
    inc_proxy_body_degraded(&mut m);
    inc_proxy_body_degraded(&mut m);
    inc_proxy_http_request(&mut m);
    inc_proxy_sandbox_reject(&mut m);
    inc_proxy_invalid_method(&mut m);
    inc_proxy_invalid_status(&mut m);
    inc_proxy_retry(&mut m);
    inc_proxy_stream_mode_tap(&mut m);
    inc_proxy_stream_mode_degrade(&mut m);
    assert_eq!(get_flows_dropped(&m), 1);
    assert_eq!(get_proxy_body_degraded(&m), 2);
    assert_eq!(get_proxy_http_request(&m), 1);
    assert_eq!(get_proxy_sandbox_reject(&m), 1);
    assert_eq!(get_proxy_invalid_method(&m), 1);
    assert_eq!(get_proxy_invalid_status(&m), 1);
    assert_eq!(get_proxy_retry(&m), 1);
    assert_eq!(get_proxy_stream_mode_tap(&m), 1);
    assert_eq!(get_proxy_stream_mode_degrade(&m), 1);
}
