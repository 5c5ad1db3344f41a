//! Counters of what the proxy has done.
use vstd::prelude::*;

verus! {

/// The counters. Each wraps around at the end of its range.
#[derive(Clone, Copy, Debug, PartialEq, Eq, Structural)]
pub struct Metrics {
    /// Flow updates that were dropped because nobody took them in time.
    pub flows_dropped: usize,
    /// Bytes sent to upstreams.
    pub bytes_sent: u64,
    /// Bytes received from upstreams.
    pub bytes_recv: u64,
    /// Bodies too large to be inspected.
    pub body_degraded: usize,
    /// HTTP requests handled.
    pub http_request: usize,
    /// Requests the sandbox refused.
    pub sandbox_reject: usize,
    /// Invalid methods refused.
    pub invalid_method: usize,
    /// Invalid status codes refused.
    pub invalid_status: usize,
    /// Requests that were sent again.
    pub retry: usize,
    /// Bodies that were recorded while streaming.
    pub stream_mode_tap: usize,
    /// Bodies that were no longer recorded from some point on.
    pub stream_mode_degrade: usize,
}

impl Metrics {
    /// All counters at zero.
    pub fn new() -> (r: Self)
        ensures
            r == (Metrics {
                flows_dropped: 0,
                bytes_sent: 0,
                bytes_recv: 0,
                body_degraded: 0,
                http_request: 0,
                sandbox_reject: 0,
                invalid_method: 0,
                invalid_status: 0,
                retry: 0,
                stream_mode_tap: 0,
                stream_mode_degrade: 0,
            }),
    {
        Metrics {
            flows_dropped: 0,
            bytes_sent: 0,
            bytes_recv: 0,
            body_degraded: 0,
            http_request: 0,
            sandbox_reject: 0,
            invalid_method: 0,
            invalid_status: 0,
            retry: 0,
            stream_mode_tap: 0,
            stream_mode_degrade: 0,
        }
    }
}

/// Count one dropped flow update.
pub fn inc_flows_dropped(m: &mut Metrics)
    ensures
        *final(m) == (Metrics { flows_dropped: old(m).flows_dropped.wrapping_add(1), ..*old(m) }),
{
    m.flows_dropped = m.flows_dropped.wrapping_add(1);
}

/// The count of `inc_flows_dropped`.
pub fn get_flows_dropped(m: &Metrics) -> (r: usize)
    ensures
        r == m.flows_dropped,
{
    m.flows_dropped
}

/// Count one body too large to be inspected.
pub fn inc_proxy_body_degraded(m: &mut Metrics)
    ensures
        *final(m) == (Metrics { body_degraded: old(m).body_degraded.wrapping_add(1), ..*old(m) }),
{
    m.body_degraded = m.body_degraded.wrapping_add(1);
}

/// The count of `inc_proxy_body_degraded`.
pub fn get_proxy_body_degraded(m: &Metrics) -> (r: usize)
    ensures
        r == m.body_degraded,
{
    m.body_degraded
}

/// Count one HTTP request.
pub fn inc_proxy_http_request(m: &mut Metrics)
    ensures
        *final(m) == (Metrics { http_request: old(m).http_request.wrapping_add(1), ..*old(m) }),
{
    m.http_request = m.http_request.wrapping_add(1);
}

/// The count of `inc_proxy_http_request`.
pub fn get_proxy_http_request(m: &Metrics) -> (r: usize)
    ensures
        r == m.http_request,
{
    m.http_request
}

/// Count one request the sandbox refused.
pub fn inc_proxy_sandbox_reject(m: &mut Metrics)
    ensures
        *final(m) == (Metrics { sandbox_reject: old(m).sandbox_reject.wrapping_add(1), ..*old(m) }),
{
    m.sandbox_reject = m.sandbox_reject.wrapping_add(1);
}

/// The count of `inc_proxy_sandbox_reject`.
pub fn get_proxy_sandbox_reject(m: &Metrics) -> (r: usize)
    ensures
        r == m.sandbox_reject,
{
    m.sandbox_reject
}

/// Count one refused method.
pub fn inc_proxy_invalid_method(m: &mut Metrics)
    ensures
        *final(m) == (Metrics { invalid_method: old(m).invalid_method.wrapping_add(1), ..*old(m) }),
{
    m.invalid_method = m.invalid_method.wrapping_add(1);
}

/// The count of `inc_proxy_invalid_method`.
pub fn get_proxy_invalid_method(m: &Metrics) -> (r: usize)
    ensures
        r == m.invalid_method,
{
    m.invalid_method
}

/// Count one refused status code.
pub fn inc_proxy_invalid_status(m: &mut Metrics)
    ensures
        *final(m) == (Metrics { invalid_status: old(m).invalid_status.wrapping_add(1), ..*old(m) }),
{
    m.invalid_status = m.invalid_status.wrapping_add(1);
}

/// The count of `inc_proxy_invalid_status`.
pub fn get_proxy_invalid_status(m: &Metrics) -> (r: usize)
    ensures
        r == m.invalid_status,
{
    m.invalid_status
}

/// Count one request sent again.
pub fn inc_proxy_retry(m: &mut Metrics)
    ensures
        *final(m) == (Metrics { retry: old(m).retry.wrapping_add(1), ..*old(m) }),
{
    m.retry = m.retry.wrapping_add(1);
}

/// The count of `inc_proxy_retry`.
pub fn get_proxy_retry(m: &Metrics) -> (r: usize)
    ensures
        r == m.retry,
{
    m.retry
}

/// Count one body recorded while streaming.
pub fn inc_proxy_stream_mode_tap(m: &mut Metrics)
    ensures
        *final(m) == (Metrics { stream_mode_tap: old(m).stream_mode_tap.wrapping_add(1), ..*old(m) }),
{
    m.stream_mode_tap = m.stream_mode_tap.wrapping_add(1);
}

/// The count of `inc_proxy_stream_mode_tap`.
pub fn get_proxy_stream_mode_tap(m: &Metrics) -> (r: usize)
    ensures
        r == m.stream_mode_tap,
{
    m.stream_mode_tap
}

/// Count one body no longer recorded.
pub fn inc_proxy_stream_mode_degrade(m: &mut Metrics)
    ensures
        *final(m) == (Metrics { stream_mode_degrade: old(m).stream_mode_degrade.wrapping_add(1), ..*old(m) }),
{
    m.stream_mode_degrade = m.stream_mode_degrade.wrapping_add(1);
}

/// The count of `inc_proxy_stream_mode_degrade`.
pub fn get_proxy_stream_mode_degrade(m: &Metrics) -> (r: usize)
    ensures
        r == m.stream_mode_degrade,
{
    m.stream_mode_degrade
}

/// Count bytes sent to an upstream.
pub fn add_bytes_sent(m: &mut Metrics, n: u64)
    ensures
        *final(m) == (Metrics { bytes_sent: old(m).bytes_sent.wrapping_add(n), ..*old(m) }),
{
    m.bytes_sent = m.bytes_sent.wrapping_add(n);
}

/// The bytes sent to an upstream so far.
pub fn get_bytes_sent(m: &Metrics) -> (r: u64)
    ensures
        r == m.bytes_sent,
{
    m.bytes_sent
}

/// Count bytes received from an upstream.
pub fn add_bytes_recv(m: &mut Metrics, n: u64)
    ensures
        *final(m) == (Metrics { bytes_recv: old(m).bytes_recv.wrapping_add(n), ..*old(m) }),
{
    m.bytes_recv = m.bytes_recv.wrapping_add(n);
}

/// The bytes received from an upstream so far.
pub fn get_bytes_recv(m: &Metrics) -> (r: u64)
    ensures
        r == m.bytes_recv,
{
    m.bytes_recv
}

/// How far a counter has come since it stood at `start`; nothing where it stands below that.
pub open spec fn since(start: u64, now: u64) -> u64 {
    if now >= start {
        (now - start) as u64
    } else {
        0
    }
}

/// What one connection moved: the counters at its start, to be held against those at its end.
#[derive(Clone, Copy, Debug, PartialEq, Eq, Structural)]
pub struct ConnectionMeter {
    bytes_sent_at_start: u64,
    bytes_recv_at_start: u64,
}

impl ConnectionMeter {
    /// The bytes that had been sent when the connection began.
    pub closed spec fn sent_at_start(&self) -> u64 {
        self.bytes_sent_at_start
    }

    /// The bytes that had been received when the connection began.
    pub closed spec fn recv_at_start(&self) -> u64 {
        self.bytes_recv_at_start
    }

    /// Start measuring.
    pub fn new(m: &Metrics) -> (r: Self)
        ensures
            r.sent_at_start() == m.bytes_sent,
            r.recv_at_start() == m.bytes_recv,
    {
        ConnectionMeter { bytes_sent_at_start: m.bytes_sent, bytes_recv_at_start: m.bytes_recv }
    }

    /// The bytes sent since the start.
    pub fn snapshot_bytes_sent(&self, m: &Metrics) -> (r: u64)
        ensures
            r == since(self.sent_at_start(), m.bytes_sent),
            m.bytes_sent >= self.sent_at_start() ==> r == m.bytes_sent - self.sent_at_start(),
            m.bytes_sent < self.sent_at_start() ==> r == 0,
    {
        m.bytes_sent.saturating_sub(self.bytes_sent_at_start)
    }

    /// The bytes received since the start.
    pub fn snapshot_bytes_recv(&self, m: &Metrics) -> (r: u64)
        ensures
            r == since(self.recv_at_start(), m.bytes_recv),
            m.bytes_recv >= self.recv_at_start() ==> r == m.bytes_recv - self.recv_at_start(),
            m.bytes_recv < self.recv_at_start() ==> r == 0,
    {
        m.bytes_recv.saturating_sub(self.bytes_recv_at_start)
    }
}

/// A meter measures what was counted since it was made, as long as the counter does not wrap
/// around.
pub proof fn law_meters_measure_what_was_counted(start: u64, n: u64)
    requires
        start + n <= u64::MAX,
    ensures
        since(start, start.wrapping_add(n)) == n,
{
}

/// A meter that was made later never measures more than one that was made earlier, as long as the
/// counter does not wrap around in between.
pub proof fn law_later_meters_measure_no_more(earlier: ConnectionMeter, later: ConnectionMeter, m: Metrics)
    requires
        earlier.sent_at_start() <= later.sent_at_start(),
        earlier.recv_at_start() <= later.recv_at_start(),
    ensures
        since(later.sent_at_start(), m.bytes_sent) <= since(earlier.sent_at_start(), m.bytes_sent),
        since(later.recv_at_start(), m.bytes_recv) <= since(earlier.recv_at_start(), m.bytes_recv),
{
}

} // verus!
