//! One HTTP exchange from the request's head to the answer: what is decided at each step, with what
//! came from outside between the steps handed in.
use vstd::prelude::*;
use vstd::string::*;

use crate::addr;
use crate::addr::SocketAddress;
use crate::capture::loop_detection::LoopDetector;
use crate::flow;
use crate::flow::{
    Direction, Flow, FlowView, Layer, LayerView, ResilienceTrace, ResponseTiming, ResponseView,
    Timestamp, TraceView,
};
use crate::headers;
use crate::intercept;
use crate::intercept::{InterceptionResult, InterceptionView, RequestVerdict, ResponseVerdict};
use crate::policy::{ProxyPolicy, QuicMode};
use crate::proxy::body_plan;
use crate::proxy::body_plan::{BufferedBody, BufferedView};
use crate::proxy::circuit_breaker;
use crate::proxy::circuit_breaker::CircuitBreaker;
use crate::proxy::content_encoding;
use crate::proxy::http_utils;
use crate::proxy::http_utils::{
    ForwardRequest, ForwardView, HeadView, RequestHead, ResponseHead, WireResponse, WireView,
};
use crate::proxy::throttle;
use crate::text;
use crate::urls;
use crate::urls::{TargetUri, UriView};

verus! {

/// The pieces of some bytes between the occurrences of a byte; always at least one.
pub open spec fn byte_pieces(v: Seq<u8>, sep: u8) -> Seq<Seq<u8>>
    decreases v.len(),
{
    if v.len() == 0 {
        seq![v]
    } else {
        let rest = byte_pieces(v.drop_last(), sep);
        if v.last() == sep {
            rest.push(Seq::empty())
        } else {
            rest.drop_last().push(rest.last().push(v.last()))
        }
    }
}

/// Whether a byte is ASCII white space.
pub open spec fn blank(b: u8) -> bool {
    b == 32 || b == 9 || b == 10 || b == 12 || b == 13
}

/// Some bytes without the white space around them.
pub open spec fn unpadded(v: Seq<u8>) -> Seq<u8>
    decreases v.len(),
{
    if v.len() > 0 && blank(v[0]) {
        unpadded(v.subrange(1, v.len() as int))
    } else if v.len() > 0 && blank(v.last()) {
        unpadded(v.drop_last())
    } else {
        v
    }
}

/// Some bytes with ASCII capitals made small.
pub open spec fn small(v: Seq<u8>) -> Seq<u8> {
    v.map_values(
        |b: u8|
            if 65 <= b <= 90 {
                (b + 32) as u8
            } else {
                b
            },
    )
}

/// Whether one of some comma-separated values holds a word, whatever its case.
pub open spec fn lists(values: Seq<Seq<u8>>, word: Seq<char>) -> bool {
    exists|i: int, j: int|
        0 <= i < values.len() && 0 <= j < byte_pieces(values[i], 44).len() && small(
            unpadded(#[trigger] byte_pieces(values[i], 44)[j]),
        ) == vstd::utf8::encode_utf8(word)
}

/// `hyper_tungstenite::is_upgrade_request` looks for `upgrade` among the values of `Connection` and
/// for `websocket` among those of `Upgrade`.
#[verifier::external_body]
pub(crate) fn asks_for_websocket(fields: &hyper::HeaderMap) -> (r: bool)
    ensures
        r == (lists(headers::values(headers::header_entries(*fields), "connection"@), "upgrade"@) && lists(
            headers::values(headers::header_entries(*fields), "upgrade"@),
            "websocket"@,
        )),
{
    let mut request = hyper::Request::new(());
    *request.headers_mut() = fields.clone();
    hyper_tungstenite::is_upgrade_request(&request)
}

/// Whether a request asks to become a WebSocket.
pub fn is_websocket_request(head: &RequestHead) -> (r: bool)
    ensures
        r == (lists(headers::values(headers::header_entries(head.headers), "connection"@), "upgrade"@) && lists(
            headers::values(headers::header_entries(head.headers), "upgrade"@),
            "websocket"@,
        )),
{
    asks_for_websocket(&head.headers)
}

/// Whether a request announces a body larger than `max`.
pub open spec fn announces_more(entries: Seq<(Seq<char>, Seq<Seq<u8>>)>, max: usize) -> bool {
    match headers::value_text_opt(headers::first_value(entries, "content-length"@)) {
        Some(t) => match text::unsigned(t, usize::MAX as nat) {
            Some(n) => n > max,
            None => false,
        },
        None => false,
    }
}

fn announces_over_budget(fields: &hyper::HeaderMap, max: usize) -> (r: bool)
    ensures
        r == announces_more(headers::header_entries(*fields), max),
        headers::value_text_opt(headers::first_value(headers::header_entries(*fields), "content-length"@)) matches Some(t)
            ==> (text::unsigned(t, usize::MAX as nat) matches Some(n) ==> r == (n > max)),
        headers::first_value(headers::header_entries(*fields), "content-length"@) is None ==> !r,
{
    proof {
        reveal_strlit("content-length");
        assert(text::lower("content-length"@) =~= "content-length"@);
    }
    match headers::get_text(fields, "content-length") {
        Some(t) => match text::parse_unsigned(t.as_str(), usize::MAX as u64) {
            Some(n) => n > max as u64,
            None => false,
        },
        None => false,
    }
}

/// A record of an exchange whose request announces more than rules may see.
pub open spec fn over_budget(f: FlowView) -> FlowView {
    FlowView {
        tags: f.tags.push("budget-exceeded"@),
        resilience_trace: Some(TraceView { budget_exceeded: true, ..flow::trace_or_clean(f.resilience_trace) }),
        ..f
    }
}

/// A record of an exchange that is over.
pub open spec fn ended(f: FlowView, now: Timestamp) -> FlowView {
    FlowView { end_time: Some(now), ..f }
}

/// Where an exchange stands: what is waited for.
#[derive(Clone, Copy, Debug, PartialEq, Eq, Structural)]
pub enum Phase {
    /// What interceptors make of the request's headers.
    RequestHeaders,
    /// What interceptors make of the request and its body.
    RequestBody,
    /// Whether and where the request is sent.
    Routing,
    /// What the upstream answers.
    Upstream,
    /// What interceptors make of the response's headers.
    ResponseHeaders,
    /// What interceptors make of the response and its body.
    ResponseBody,
    /// How the answer is put together.
    Answering,
    /// Nothing: the client has its answer.
    Done,
}

/// One exchange.
#[derive(Debug)]
pub struct Exchange {
    pub flow: Flow,
    pub policy: ProxyPolicy,
    pub target: Option<SocketAddress>,
    pub phase: Phase,
}

/// What comes next.
#[derive(Debug)]
pub enum Step {
    /// The exchange goes on.
    Proceed,
    /// The exchange is over: its record is published and the client gets this.
    Finish(WireResponse),
    /// The exchange is over: its record is published and the client gets the response an
    /// interceptor made.
    FinishWithTheirs,
    /// The client gets this, and nothing is published.
    Refuse(WireResponse),
}

/// What a step holds.
#[verifier::ext_equal]
pub enum StepView {
    Proceed,
    Finish(WireView),
    FinishWithTheirs,
    Refuse(WireView),
}

impl View for Step {
    type V = StepView;

    open spec fn view(&self) -> StepView {
        match *self {
            Step::Proceed => StepView::Proceed,
            Step::Finish(w) => StepView::Finish(w@),
            Step::FinishWithTheirs => StepView::FinishWithTheirs,
            Step::Refuse(w) => StepView::Refuse(w@),
        }
    }
}

/// The phase after a step: the next one where the exchange goes on.
pub open spec fn phase_after(step: StepView, next: Phase) -> Phase {
    if step is Proceed {
        next
    } else {
        Phase::Done
    }
}

/// What the verdict on some headers leads to.
pub open spec fn headers_outcome(
    f: FlowView,
    verdict: InterceptionView,
    dropped: Seq<char>,
    now: Timestamp,
    after: FlowView,
    step: StepView,
) -> bool {
    match verdict {
        InterceptionView::Drop => after == ended(f, now) && step == StepView::Finish(
            http_utils::error_view(403, dropped),
        ),
        InterceptionView::MockResponse(r) => after == ended(f, now) && step is Finish && http_utils::mocked(
            r,
            step->Finish_0,
        ),
        InterceptionView::ModifiedResponse(r) => after == ended(f, now) && step is Finish && http_utils::mocked(
            r,
            step->Finish_0,
        ),
        _ => after == f && step is Proceed,
    }
}

fn decide_headers(f: &mut Flow, verdict: InterceptionResult, dropped: &str, now: Timestamp) -> (r: Step)
    ensures
        headers_outcome(old(f)@, verdict@, dropped@, now, final(f)@, r@),
{
    match verdict {
        InterceptionResult::Drop => {
            f.end_time = Some(now);
            Step::Finish(http_utils::create_error_response(403, dropped))
        },
        InterceptionResult::MockResponse(res) => {
            f.end_time = Some(now);
            Step::Finish(http_utils::mock_to_response(res))
        },
        InterceptionResult::ModifiedResponse(res) => {
            f.end_time = Some(now);
            Step::Finish(http_utils::mock_to_response(res))
        },
        InterceptionResult::Continue => Step::Proceed,
        InterceptionResult::ModifiedRequest(_) => Step::Proceed,
        InterceptionResult::ModifiedMessage(_) => Step::Proceed,
    }
}

/// The trace of a record, or a clean one.
fn take_trace(f: &mut Flow) -> (r: ResilienceTrace)
    ensures
        r@ == flow::trace_or_clean(old(f)@.resilience_trace),
        final(f)@ == (FlowView { resilience_trace: None, ..old(f)@ }),
{
    match f.resilience_trace.take() {
        Some(t) => t,
        None => {
            let t = ResilienceTrace {
                budget_exceeded: false,
                circuit_open: false,
                upstream_errors: Vec::new(),
                timeout_type: None,
            };
            assert(t@ =~= flow::clean_trace());
            t
        },
    }
}

/// The upstream a request counts towards: the proxy it goes through, or else the authority it is
/// sent to.
pub open spec fn breaker_key(upstream_proxy: Option<Seq<char>>, uri: UriView) -> Seq<char> {
    match upstream_proxy {
        Some(p) => p,
        None => match uri.authority {
            Some(a) => a,
            None => "unknown"@,
        },
    }
}

/// The upstream a request counts towards.
pub fn circuit_breaker_key(upstream_proxy: Option<&str>, uri: &TargetUri) -> (r: String)
    ensures
        r@ == breaker_key(text::str_opt(upstream_proxy), uri@),
        upstream_proxy matches Some(p) ==> r@ == p@,
        upstream_proxy is None ==> (uri.authority matches Some(a) ==> r@ == a@),
{
    match upstream_proxy {
        Some(p) => text::copy(p),
        None => match &uri.authority {
            Some(a) => text::copy(a.as_str()),
            None => text::copy("unknown"),
        },
    }
}

/// The port a request is sent to: the one it names, or the one of its scheme.
pub open spec fn upstream_port(uri: UriView) -> u16 {
    match uri.port {
        Some(p) => p,
        None => if uri.scheme == Some("https"@) {
            443
        } else {
            80
        },
    }
}

fn find_port(uri: &TargetUri) -> (r: u16)
    ensures
        r == upstream_port(uri@),
        uri.port matches Some(p) ==> r == p,
        uri.port is None && uri@.scheme == Some("https"@) ==> r == 443,
        uri.port is None && uri@.scheme != Some("https"@) ==> r == 80,
{
    match uri.port {
        Some(p) => p,
        None => match &uri.scheme {
            Some(s) => if text::same_text(s.as_str(), "https") {
                443
            } else {
                80
            },
            None => 80,
        },
    }
}

/// A request that is ready to be sent.
#[derive(Debug)]
pub struct Dispatch {
    pub request: ForwardRequest,
    /// The body to send in place of the client's.
    pub body: Option<Vec<u8>>,
    /// How fast the client's body may go out, in bytes per second.
    pub throttle: Option<u64>,
    /// What the outcome counts towards.
    pub key: String,
    pub host: String,
    pub port: u16,
    pub timeout_ms: u64,
}

/// What a request that is ready to be sent holds.
#[verifier::ext_equal]
pub struct DispatchView {
    pub request: ForwardView,
    pub body: Option<Seq<u8>>,
    pub throttle: Option<nat>,
    pub key: Seq<char>,
    pub host: Seq<char>,
    pub port: u16,
    pub timeout_ms: u64,
}

impl View for Dispatch {
    type V = DispatchView;

    open spec fn view(&self) -> DispatchView {
        DispatchView {
            request: self.request@,
            body: match self.body {
                Some(b) => Some(b@),
                None => None,
            },
            throttle: match self.throttle {
                Some(n) => Some(n as nat),
                None => None,
            },
            key: self.key@,
            host: self.host@,
            port: self.port,
            timeout_ms: self.timeout_ms,
        }
    }
}

/// What sending a request takes, once it has been built.
pub open spec fn dispatch_of(
    f: FlowView,
    policy: ProxyPolicy,
    request: ForwardView,
    upstream_proxy: Option<Seq<char>>,
) -> DispatchView {
    let replaced = http_utils::request_body(f) is Some;
    DispatchView {
        request,
        body: if replaced {
            Some(http_utils::bytes_of(http_utils::request_body(f)))
        } else {
            None
        },
        throttle: if replaced {
            None
        } else {
            throttle::rate_of(f.meta)
        },
        key: breaker_key(upstream_proxy, request.uri),
        host: match request.uri.host {
            Some(h) => h,
            None => "unknown"@,
        },
        port: upstream_port(request.uri),
        timeout_ms: policy.request_timeout_ms,
    }
}

/// A record of an exchange that was held back.
pub open spec fn held_back(f: FlowView, now: Timestamp) -> FlowView {
    FlowView {
        resilience_trace: Some(TraceView { circuit_open: true, ..flow::trace_or_clean(f.resilience_trace) }),
        end_time: Some(now),
        ..f
    }
}

/// Why an upstream gave no answer.
#[derive(Clone, Debug)]
pub enum UpstreamFailure {
    Failed(String),
    TimedOut,
}

/// What is said of a failed upstream.
pub open spec fn failure_text(failure: UpstreamFailure) -> Seq<char> {
    match failure {
        UpstreamFailure::Failed(e) => "Upstream Error: "@ + e@,
        UpstreamFailure::TimedOut => "Upstream Request Timed Out"@,
    }
}

/// A layer with an error recorded; only an HTTP exchange has a place for it.
pub open spec fn with_error(layer: LayerView, error: Seq<char>) -> LayerView {
    match layer {
        LayerView::Http { request, response, error: _ } => LayerView::Http { request, response, error: Some(error) },
        other => other,
    }
}

/// A record of an exchange whose upstream failed.
pub open spec fn upstream_failed(f: FlowView, failure: UpstreamFailure, now: Timestamp) -> FlowView {
    let trace = flow::trace_or_clean(f.resilience_trace);
    FlowView {
        resilience_trace: Some(
            TraceView {
                upstream_errors: seq![failure_text(failure)],
                timeout_type: if failure is TimedOut {
                    Some("total"@)
                } else {
                    trace.timeout_type
                },
                ..trace
            },
        ),
        layer: with_error(f.layer, failure_text(failure)),
        end_time: Some(now),
        ..f
    }
}

/// A head once the offer of HTTP/3 has been taken out of it, where the policy says so.
pub open spec fn downgraded(head: HeadView, policy: ProxyPolicy) -> HeadView {
    if policy.quic_mode is Downgrade {
        let kept = headers::with_removed(head.headers, "alt-svc"@);
        HeadView {
            headers: if policy.quic_downgrade_clear_cache {
                headers::with_inserted(kept, "clear-site-data"@, vstd::utf8::encode_utf8("\"cache\""@))
            } else {
                kept
            },
            ..head
        }
    } else {
        head
    }
}

/// Take the offer of HTTP/3 out of a response where the policy says so, and note it in the record.
pub fn apply_quic_downgrade(head: &mut ResponseHead, f: &mut Flow, policy: &ProxyPolicy)
    requires
        old(head)@.headers.len() <= headers::FIELD_CAPACITY,
    ensures
        final(head)@ == downgraded(old(head)@, *policy),
        final(f)@ == (if policy.quic_mode is Downgrade && headers::present(old(head)@.headers, "alt-svc"@) {
            FlowView { tags: old(f)@.tags.push("quic-downgraded"@), ..old(f)@ }
        } else {
            old(f)@
        }),
{
    proof {
        reveal_strlit("Alt-Svc");
        reveal_strlit("alt-svc");
        reveal_strlit("Clear-Site-Data");
        reveal_strlit("clear-site-data");
        reveal_strlit("\"cache\"");
        assert(text::lower("Alt-Svc"@) =~= "alt-svc"@);
        assert(text::lower("Clear-Site-Data"@) =~= "clear-site-data"@);
        vstd::utf8::is_ascii_chars_encode_utf8("\"cache\""@);
        headers::lemma_position(head@.headers, "alt-svc"@);
    }
    if policy.quic_mode == QuicMode::Downgrade {
        if headers::remove(&mut head.headers, "Alt-Svc") {
            f.tag("quic-downgraded");
        }
        if policy.quic_downgrade_clear_cache {
            headers::insert(&mut head.headers, "Clear-Site-Data", "\"cache\"".as_bytes());
        }
    }
}

/// A response with its timing changed, where there is one.
pub open spec fn timed(layer: LayerView, first: Option<u64>, last: Option<u64>) -> LayerView {
    match layer {
        LayerView::Http { request, response: Some(r), error } => LayerView::Http {
            request,
            response: Some(
                ResponseView {
                    timing: ResponseTiming {
                        time_to_first_byte: if first is Some {
                            first
                        } else {
                            r.timing.time_to_first_byte
                        },
                        time_to_last_byte: if last is Some {
                            last
                        } else {
                            r.timing.time_to_last_byte
                        },
                        ..r.timing
                    },
                    ..r
                },
            ),
            error,
        },
        other => other,
    }
}

/// A record once the body of the response has been held within a budget: rules that need a body
/// that did not fit are skipped, and one that did is recorded decoded.
pub open spec fn buffered(f: FlowView, kept: BufferedView) -> FlowView {
    if kept.truncated {
        FlowView { tags: f.tags.push("rule_skipped:body_truncated"@), ..f }
    } else {
        body_plan::with_decoded_body(
            f,
            Direction::ServerToClient,
            kept.bytes,
            kept.total_bytes as u64,
            body_plan::direction_headers(f.layer, Direction::ServerToClient),
        )
    }
}

/// What the client is answered with. Without a body of its own it gets the upstream's.
#[derive(Debug)]
pub struct Answer {
    pub head: ResponseHead,
    pub body: Option<Vec<u8>>,
    /// How fast the upstream's body may go out, in bytes per second.
    pub throttle: Option<u64>,
}

/// The header fields of an answer with a body that replaces the upstream's: the length of what is
/// sent, and the encoding that was applied to it.
pub open spec fn replaced_headers(
    entries: Seq<(Seq<char>, Seq<Seq<u8>>)>,
    wire_len: nat,
    encoding: Option<Seq<char>>,
) -> Seq<(Seq<char>, Seq<Seq<u8>>)> {
    let laid = headers::all_inserted(Seq::empty(), http_utils::reframed(headers::listed(entries), wire_len));
    match encoding {
        Some(e) => if headers::valid_value(vstd::utf8::encode_utf8(e)) {
            headers::with_inserted(laid, "content-encoding"@, vstd::utf8::encode_utf8(e))
        } else {
            laid
        },
        None => laid,
    }
}

/// The encoding a head announces.
pub open spec fn announced_encoding(entries: Seq<(Seq<char>, Seq<Seq<u8>>)>) -> Option<Seq<char>> {
    headers::value_text_opt(headers::first_value(entries, "content-encoding"@))
}

/// What is sent for a body recorded in place of the upstream's, and the encoding it is sent in.
pub open spec fn replacement(f: FlowView, head: HeadView) -> (Seq<u8>, Option<Seq<char>>) {
    content_encoding::rewritten(
        http_utils::bytes_of(http_utils::response_body(f)),
        announced_encoding(head.headers),
    )
}

/// The record once the answer has been put together.
pub open spec fn answered(f: FlowView, upstream: HeadView, elapsed_ms: u64, now: Timestamp) -> FlowView {
    let head = http_utils::client_head(f, upstream);
    let dropped = http_utils::response_body(f) is Some && replacement(f, head).1 is None && announced_encoding(
        head.headers,
    ) is Some;
    FlowView {
        tags: if dropped {
            f.tags.push("body-encoding-dropped"@)
        } else {
            f.tags
        },
        layer: timed(f.layer, None, Some(elapsed_ms)),
        end_time: Some(now),
        ..f
    }
}

/// The head the client is answered with.
pub open spec fn answer_head(f: FlowView, upstream: HeadView) -> HeadView {
    let head = http_utils::client_head(f, upstream);
    if http_utils::response_body(f) is Some {
        HeadView {
            headers: replaced_headers(head.headers, replacement(f, head).0.len(), replacement(f, head).1),
            ..head
        }
    } else {
        head
    }
}

spec fn single(entries: Seq<(Seq<char>, Seq<Seq<u8>>)>) -> bool {
    forall|i: int| 0 <= i < entries.len() ==> (#[trigger] entries[i]).1.len() == 1
}

proof fn lemma_single_flat(entries: Seq<(Seq<char>, Seq<Seq<u8>>)>)
    requires
        single(entries),
    ensures
        headers::flat(entries).len() == entries.len(),
    decreases entries.len(),
{
    if entries.len() > 0 {
        let rest = entries.drop_last();
        assert forall|i: int| 0 <= i < rest.len() implies (#[trigger] rest[i]).1.len() == 1 by {
            assert(rest[i] == entries[i]);
        }
        lemma_single_flat(rest);
        assert(entries[entries.len() - 1].1.len() == 1);
    }
}

proof fn lemma_insert_stays_single(entries: Seq<(Seq<char>, Seq<Seq<u8>>)>, name: Seq<char>, value: Seq<u8>)
    requires
        single(entries),
    ensures
        single(headers::with_inserted(entries, name, value)),
        headers::with_inserted(entries, name, value).len() <= entries.len() + 1,
{
    headers::lemma_position(entries, name);
    let after = headers::with_inserted(entries, name, value);
    assert forall|i: int| 0 <= i < after.len() implies (#[trigger] after[i]).1.len() == 1 by {
        if i < entries.len() && i != headers::position(entries, name) {
            assert(after[i] == entries[i]);
        }
    }
}

proof fn lemma_inserts_stay_single(entries: Seq<(Seq<char>, Seq<Seq<u8>>)>, list: Seq<(Seq<char>, Seq<char>)>)
    requires
        single(entries),
    ensures
        single(headers::all_inserted(entries, list)),
        headers::all_inserted(entries, list).len() <= entries.len() + list.len(),
    decreases list.len(),
{
    if list.len() > 0 {
        lemma_inserts_stay_single(entries, list.drop_last());
        let before = headers::all_inserted(entries, list.drop_last());
        lemma_insert_stays_single(before, text::lower(list.last().0), vstd::utf8::encode_utf8(list.last().1));
    }
}

proof fn lemma_length_fields_are_few(fields: Seq<(Seq<char>, Seq<u8>)>)
    ensures
        single(http_utils::length_fields(fields)),
        http_utils::length_fields(fields).len() <= 2,
        forall|i: int|
            0 <= i < http_utils::length_fields(fields).len() ==> http_utils::length_names().contains(
                (#[trigger] http_utils::length_fields(fields)[i]).0,
            ),
        forall|i: int, j: int|
            0 <= i < j < http_utils::length_fields(fields).len() ==> (#[trigger] http_utils::length_fields(
                fields,
            )[i]).0 != (#[trigger] http_utils::length_fields(fields)[j]).0,
    decreases fields.len(),
{
    if fields.len() > 0 {
        lemma_length_fields_are_few(fields.drop_last());
        let before = http_utils::length_fields(fields.drop_last());
        let name = fields.last().0;
        headers::lemma_position(before, name);
        assert(http_utils::length_names()[0] == "content-length"@ && http_utils::length_names()[1]
            == "transfer-encoding"@);
        if http_utils::length_names().contains(name) {
            lemma_insert_stays_single(before, name, fields.last().1);
            if !headers::present(before, name) && before.len() == 2 {
                assert(http_utils::length_names().contains(before[0].0));
                assert(http_utils::length_names().contains(before[1].0));
                assert(before[0].0 != before[1].0);
                assert(before[0].0 != name && before[1].0 != name);
                assert(false);
            }
        }
    }
}

proof fn lemma_without_shrinks(list: Seq<(Seq<char>, Seq<char>)>, names: Seq<Seq<char>>)
    ensures
        http_utils::without(list, names).len() <= list.len(),
    decreases list.len(),
{
    if list.len() > 0 {
        lemma_without_shrinks(list.drop_last(), names);
    }
}

proof fn lemma_client_head_is_small(f: FlowView, upstream: HeadView)
    requires
        http_utils::response_of(f) is Some,
    ensures
        headers::flat(http_utils::client_head(f, upstream).headers).len() <= http_utils::response_of(
            f,
        )->0.headers.len() + 2,
{
    let response = http_utils::response_of(f)->0;
    let start = http_utils::length_fields(headers::flat(upstream.headers));
    let list = http_utils::without(response.headers, http_utils::length_names());
    lemma_length_fields_are_few(headers::flat(upstream.headers));
    lemma_inserts_stay_single(start, list);
    lemma_single_flat(headers::all_inserted(start, list));
    lemma_without_shrinks(response.headers, http_utils::length_names());
}

fn lay_replaced_headers(head: &ResponseHead, wire_len: usize, encoding: &Option<String>) -> (r: hyper::HeaderMap)
    requires
        headers::flat(head@.headers).len() + 2 <= headers::FIELD_CAPACITY,
    ensures
        headers::header_entries(r) == replaced_headers(head@.headers, wire_len as nat, text::text_opt(*encoding)),
{
    let listed = headers::list(&head.headers);
    assert(flow::pairs(listed@).len() == listed@.len());
    let reframed = http_utils::reframe_response_headers_for_replaced_body(listed.as_slice(), wire_len);
    let mut out = headers::new_headers();
    headers::insert_list(&mut out, reframed.as_slice());
    match encoding {
        Some(e) => {
            if headers::is_valid_value(e.as_str().as_bytes()) {
                proof {
                    reveal_strlit("content-encoding");
                    assert(text::lower("content-encoding"@) =~= "content-encoding"@);
                }
                headers::insert(&mut out, "content-encoding", e.as_str().as_bytes());
            }
        },
        None => {},
    }
    out
}

impl Exchange {
    /// Begin an exchange with the head of its request. One that announces more than rules may see
    /// is let through and marked.
    pub fn begin(
        head: &RequestHead,
        client_addr: SocketAddress,
        is_mitm: bool,
        policy: ProxyPolicy,
        target: Option<SocketAddress>,
    ) -> (r: Self)
        ensures
            r.phase is RequestHeaders,
            r.policy == policy,
            r.target == target,
            ({
                let entries = headers::header_entries(head.headers);
                let meta = http_utils::meta_of(head.method@, head.uri@, head.version, entries, is_mitm);
                let initial = http_utils::initial(
                    meta,
                    http_utils::recorded_url(meta.url_str),
                    None,
                    client_addr,
                    is_mitm,
                    false,
                    r.flow@.id,
                    r.flow@.start_time,
                );
                r.flow@ == if announces_more(entries, policy.max_body_size) {
                    over_budget(initial)
                } else {
                    initial
                }
            }),
            r.flow@.layer matches LayerView::Http { request, response, error } && request.method == head.method@
                && http_utils::version_of(request.version) == head.version && request.headers == headers::listed(
                headers::header_entries(head.headers),
            ) && request.body is None && response is None && error is None && (urls::url_of(head.uri@) matches Ok(u)
                ==> request.url == u && request.query == urls::query_of(head.uri@)),
            r.flow@.network.client_ip == addr::ip_text(client_addr.ip),
            r.flow@.network.client_port == client_addr.port,
            r.flow@.network.tls == is_mitm,
            r.flow@.end_time is None,
            headers::value_text_opt(
                headers::first_value(headers::header_entries(head.headers), "content-length"@),
            ) matches Some(t) ==> (text::unsigned(t, usize::MAX as nat) matches Some(n) ==> (n > policy.max_body_size
                <==> r.flow@.resilience_trace is Some && r.flow@.resilience_trace->0.budget_exceeded)),
    {
        let exceeded = announces_over_budget(&head.headers, policy.max_body_size);
        let meta = http_utils::parse_request_meta(head, is_mitm);
        let mut f = http_utils::create_initial_flow(meta, None, client_addr, is_mitm, false);
        if exceeded {
            f.tag("budget-exceeded");
            let mut trace = take_trace(&mut f);
            trace.budget_exceeded = true;
            f.resilience_trace = Some(trace);
        }
        Exchange { flow: f, policy, target, phase: Phase::RequestHeaders }
    }

    /// Interceptors have seen the request's headers.
    pub fn request_headers(&mut self, verdict: InterceptionResult, now: Timestamp) -> (r: Step)
        requires
            old(self).phase is RequestHeaders,
        ensures
            headers_outcome(
                old(self).flow@,
                verdict@,
                "Request dropped by policy"@,
                now,
                final(self).flow@,
                r@,
            ),
            verdict is Drop ==> (r matches Step::Finish(w) && w.head.status == 403 && w.body@
                == vstd::utf8::encode_utf8("Request dropped by policy"@)),
            verdict matches InterceptionResult::MockResponse(m) ==> (r matches Step::Finish(w) && (m.headers@.len()
                <= headers::FIELD_CAPACITY ==> w.body@ == http_utils::bytes_of(flow::body_opt(m.body)) && (100
                <= m.status <= 999 ==> w.head.status == m.status))),
            verdict matches InterceptionResult::ModifiedResponse(m) ==> (r matches Step::Finish(w) && (m.headers@.len()
                <= headers::FIELD_CAPACITY ==> w.body@ == http_utils::bytes_of(flow::body_opt(m.body)) && (100
                <= m.status <= 999 ==> w.head.status == m.status))),
            verdict is Continue || verdict is ModifiedRequest || verdict is ModifiedMessage ==> r is Proceed && final(self).flow@ == old(self).flow@ && final(self).phase is RequestBody,
            r !is Proceed ==> final(self).phase is Done && final(self).flow@.end_time == Some(now),
            final(self).flow@.layer == old(self).flow@.layer,
            final(self).phase == phase_after(r@, Phase::RequestBody),
            final(self).policy == old(self).policy,
            final(self).target == old(self).target,
    {
        let step = decide_headers(&mut self.flow, verdict, "Request dropped by policy", now);
        self.phase = match &step {
            Step::Proceed => Phase::RequestBody,
            _ => Phase::Done,
        };
        step
    }

    /// Interceptors have seen the request and its body.
    pub fn request_body(&mut self, verdict: RequestVerdict, now: Timestamp) -> (r: Step)
        requires
            old(self).phase is RequestBody,
        ensures
            r@ == (match verdict {
                RequestVerdict::Continue => StepView::Proceed,
                RequestVerdict::Drop => StepView::Finish(
                    http_utils::error_view(403, "Request dropped by interceptor"@),
                ),
                RequestVerdict::MockResponse => StepView::FinishWithTheirs,
                RequestVerdict::Failed(e) => StepView::Refuse(
                    http_utils::error_view(500, "Interceptor Error: "@ + e@),
                ),
            }),
            final(self).flow@ == (if r@ is Finish || r@ is FinishWithTheirs {
                ended(old(self).flow@, now)
            } else {
                old(self).flow@
            }),
            r is Finish || r is FinishWithTheirs ==> final(self).flow@.end_time == Some(now),
            final(self).flow@.layer == old(self).flow@.layer,
            verdict is Continue <==> final(self).phase is Routing,
            final(self).phase == phase_after(r@, Phase::Routing),
            final(self).policy == old(self).policy,
            final(self).target == old(self).target,
    {
        match verdict {
            RequestVerdict::Continue => {
                self.phase = Phase::Routing;
                Step::Proceed
            },
            RequestVerdict::Drop => {
                self.phase = Phase::Done;
                self.flow.end_time = Some(now);
                Step::Finish(http_utils::create_error_response(403, "Request dropped by interceptor"))
            },
            RequestVerdict::MockResponse => {
                self.phase = Phase::Done;
                self.flow.end_time = Some(now);
                Step::FinishWithTheirs
            },
            RequestVerdict::Failed(e) => {
                self.phase = Phase::Done;
                let message = text::concat2("Interceptor Error: ", e.as_str());
                Step::Refuse(http_utils::create_error_response(500, message.as_str()))
            },
        }
    }

    /// Decide whether and where the request is sent: what the record says of it, where the
    /// connection was made to, and whether its upstream is being held back.
    pub fn route(
        &mut self,
        loop_detector: &LoopDetector,
        breaker: &mut CircuitBreaker,
        upstream_proxy: Option<&str>,
        uptime: u128,
        now: Timestamp,
    ) -> (r: Result<Dispatch, Step>)
        requires
            old(self).phase is Routing,
        ensures
            final(self).policy == old(self).policy,
            final(self).target == old(self).target,
            final(breaker).threshold() == old(breaker).threshold(),
            final(breaker).backoff() == old(breaker).backoff(),
            ({
                let before = old(self).flow@;
                exists|mid: FlowView, built: Result<ForwardView, WireView>|
                    {
                        &&& #[trigger] http_utils::forwarded(
                            before,
                            old(self).target,
                            old(self).policy,
                            loop_detector.listening(),
                            loop_detector.known_local(),
                            http_utils::request_body(before) is Some,
                            mid,
                            built,
                        )
                        &&& match built {
                            Err(w) => {
                                &&& r is Err
                                &&& r->Err_0@ == StepView::Refuse(w)
                                &&& final(self).flow@ == mid
                                &&& final(self).phase is Done
                                &&& final(breaker).hosts() == old(breaker).hosts()
                            },
                            Ok(request) => {
                                let dispatch = dispatch_of(
                                    mid,
                                    old(self).policy,
                                    request,
                                    text::str_opt(upstream_proxy),
                                );
                                if circuit_breaker::rejects(
                                    circuit_breaker::state_of(old(breaker).hosts(), dispatch.key),
                                    uptime,
                                ) {
                                    &&& r is Err
                                    &&& r->Err_0@ == StepView::Finish(
                                        http_utils::error_view(
                                            503,
                                            "Circuit breaker open for upstream "@ + dispatch.key,
                                        ),
                                    )
                                    &&& final(self).flow@ == held_back(mid, now)
                                    &&& final(self).phase is Done
                                    &&& final(breaker).hosts() == old(breaker).hosts()
                                } else {
                                    &&& r is Ok
                                    &&& r->Ok_0@ == dispatch
                                    &&& final(self).flow@ == mid
                                    &&& final(self).phase is Upstream
                                    &&& final(breaker).hosts() == circuit_breaker::let_through(
                                        old(breaker).hosts(),
                                        dispatch.key,
                                    )
                                }
                            },
                        }
                    }
            }),
            r matches Ok(d) ==> old(self).flow@.layer is Http && d.request.method@ == old(self).flow@.layer->request.method,
            r matches Ok(d) ==> (d.body is Some <==> old(self).flow@.layer->request.body is Some),
            r matches Ok(d) ==> (d.body matches Some(b) ==> b@ == http_utils::bytes_of(
                old(self).flow@.layer->request.body,
            ) && d.throttle is None),
            r matches Ok(d) ==> d.timeout_ms == old(self).policy.request_timeout_ms,
            r matches Ok(d) ==> (d.request.uri.host matches Some(h) ==> d.host@ == h@),
            r matches Ok(d) ==> (d.request.uri.port matches Some(p) ==> d.port == p),
            r matches Ok(d) ==> (d.request.uri.port is None ==> d.port == (if d.request@.uri.scheme == Some("https"@) {
                443u16
            } else {
                80u16
            })),
            r matches Ok(d) ==> (upstream_proxy matches Some(p) ==> d.key@ == p@),
            r matches Ok(d) ==> (upstream_proxy is None ==> (d.request.uri.authority matches Some(a) ==> d.key@ == a@)),
            r matches Ok(d) ==> !circuit_breaker::rejects(
                circuit_breaker::state_of(old(breaker).hosts(), d.key@),
                uptime,
            ),
            r matches Ok(d) ==> final(self).phase is Upstream && final(self).flow@.layer == old(self).flow@.layer,
            r matches Err(step) ==> final(self).phase is Done && step !is Proceed,
            r matches Err(Step::Finish(w)) ==> w.head.status == 503 && final(self).flow@.end_time == Some(now) && final(self).flow@.resilience_trace is Some && final(self).flow@.resilience_trace->0.circuit_open,
            r matches Err(Step::Refuse(w)) ==> w.head.status == 500 || w.head.status == 508,
    {
        let ghost before = self.flow@;
        let body = match &self.flow.layer {
            Layer::Http(http) => match &http.request.body {
                Some(b) => Some(http_utils::build_request_body_from_flow(b)),
                None => None,
            },
            _ => None,
        };
        let replaced = body.is_some();
        let rate = throttle::throttle_rate(&self.flow.meta);
        let built = http_utils::build_forward_request(
            &mut self.flow,
            self.target,
            &self.policy,
            loop_detector,
            replaced,
        );
        let ghost mid = self.flow@;
        let ghost outcome = http_utils::forward_result(built);
        assert(http_utils::forwarded(
            before,
            self.target,
            self.policy,
            loop_detector.listening(),
            loop_detector.known_local(),
            http_utils::request_body(before) is Some,
            mid,
            outcome,
        ));
        match built {
            Err(w) => {
                self.phase = Phase::Done;
                Err(Step::Refuse(w))
            },
            Ok(request) => {
                let key = circuit_breaker_key(upstream_proxy, &request.uri);
                if !breaker.allow_request(key.as_str(), uptime) {
                    let mut trace = take_trace(&mut self.flow);
                    trace.circuit_open = true;
                    self.flow.resilience_trace = Some(trace);
                    self.flow.end_time = Some(now);
                    self.phase = Phase::Done;
                    let message = text::concat2("Circuit breaker open for upstream ", key.as_str());
                    return Err(Step::Finish(http_utils::create_error_response(503, message.as_str())));
                }
                let host = match &request.uri.host {
                    Some(h) => text::copy(h.as_str()),
                    None => text::copy("unknown"),
                };
                let port = find_port(&request.uri);
                let throttle = if replaced {
                    None
                } else {
                    rate
                };
                self.phase = Phase::Upstream;
                Ok(Dispatch { request, body, throttle, key, host, port, timeout_ms: self.policy.request_timeout_ms })
            },
        }
    }

    /// The upstream gave no answer.
    pub fn upstream_failed(
        &mut self,
        breaker: &mut CircuitBreaker,
        key: &str,
        failure: UpstreamFailure,
        uptime: u128,
        now: Timestamp,
    ) -> (r: Step)
        requires
            old(self).phase is Upstream,
        ensures
            r@ == StepView::Finish(
                http_utils::error_view(
                    if failure is TimedOut {
                        504
                    } else {
                        502
                    },
                    failure_text(failure),
                ),
            ),
            final(self).flow@ == upstream_failed(old(self).flow@, failure, now),
            r matches Step::Finish(w) && (failure is TimedOut ==> w.head.status == 504 && w.body@
                == vstd::utf8::encode_utf8("Upstream Request Timed Out"@)) && (failure matches UpstreamFailure::Failed(e)
                ==> w.head.status == 502 && w.body@ == vstd::utf8::encode_utf8("Upstream Error: "@ + e@)),
            final(self).flow@.end_time == Some(now),
            final(self).flow@.resilience_trace matches Some(t) && (failure is TimedOut ==> t.timeout_type
                == Some("total"@) && t.upstream_errors == seq!["Upstream Request Timed Out"@]) && (
            failure matches UpstreamFailure::Failed(e) ==> t.upstream_errors == seq!["Upstream Error: "@ + e@]),
            old(self).flow@.layer is Http ==> final(self).flow@.layer is Http && final(self).flow@.layer->request == old(self).flow@.layer->request && final(self).flow@.layer->response == old(self).flow@.layer->response && final(self).flow@.layer->error is Some,
            forall|other: Seq<char>|
                other != key@ && #[trigger] old(breaker).hosts().dom().contains(other) ==> final(breaker).hosts().dom().contains(other) && final(breaker).hosts()[other] == old(breaker).hosts()[other],
            final(self).phase is Done,
            final(breaker).hosts() == old(breaker).hosts().insert(
                key@,
                circuit_breaker::failed(
                    circuit_breaker::state_of(old(breaker).hosts(), key@),
                    old(breaker).threshold(),
                    old(breaker).backoff(),
                    uptime,
                ),
            ),
            final(breaker).threshold() == old(breaker).threshold(),
            final(breaker).backoff() == old(breaker).backoff(),
            final(self).policy == old(self).policy,
            final(self).target == old(self).target,
    {
        breaker.record_failure(key, uptime);
        let message = match &failure {
            UpstreamFailure::Failed(e) => text::concat2("Upstream Error: ", e.as_str()),
            UpstreamFailure::TimedOut => text::copy("Upstream Request Timed Out"),
        };
        let timed_out = match &failure {
            UpstreamFailure::Failed(_) => false,
            UpstreamFailure::TimedOut => true,
        };
        let mut trace = take_trace(&mut self.flow);
        let mut errors: Vec<String> = Vec::new();
        errors.push(text::copy(message.as_str()));
        assert(text::texts(errors@) =~= seq![failure_text(failure)]);
        trace.upstream_errors = errors;
        if timed_out {
            trace.timeout_type = Some(text::copy("total"));
        }
        self.flow.resilience_trace = Some(trace);
        match &mut self.flow.layer {
            Layer::Http(http) => {
                http.error = Some(text::copy(message.as_str()));
            },
            _ => {},
        }
        self.flow.end_time = Some(now);
        self.phase = Phase::Done;
        let status: u16 = if timed_out {
            504
        } else {
            502
        };
        Step::Finish(http_utils::create_error_response(status, message.as_str()))
    }

    /// The upstream has answered: its offer of HTTP/3 goes where the policy says so, and its head is
    /// recorded.
    pub fn upstream_answered(&mut self, breaker: &mut CircuitBreaker, key: &str, head: &mut ResponseHead)
        requires
            old(self).phase is Upstream,
            urls::valid_status(old(head).status),
            old(head)@.headers.len() <= headers::FIELD_CAPACITY,
        ensures
            final(head)@ == downgraded(old(head)@, old(self).policy),
            final(head).status == old(head).status,
            final(head).version == old(head).version,
            old(self).policy.quic_mode !is Downgrade ==> final(head)@ == old(head)@,
            old(self).flow@.layer is Http ==> (final(self).flow@.layer matches LayerView::Http {
                request,
                response: Some(p),
                error,
            } && request == old(self).flow@.layer->request && p.status == old(head).status && http_utils::version_of(
                p.version,
            ) == old(head).version && p.headers == headers::listed(final(head)@.headers) && p.body is None),
            !final(breaker).hosts().dom().contains(key@),
            final(self).phase is ResponseHeaders,
            final(self).policy == old(self).policy,
            final(self).target == old(self).target,
            final(breaker).hosts() == old(breaker).hosts().remove(key@),
            final(breaker).threshold() == old(breaker).threshold(),
            final(breaker).backoff() == old(breaker).backoff(),
            final(self).flow@ == (FlowView {
                tags: if old(self).policy.quic_mode is Downgrade && headers::present(
                    old(head)@.headers,
                    "alt-svc"@,
                ) {
                    old(self).flow@.tags.push("quic-downgraded"@)
                } else {
                    old(self).flow@.tags
                },
                layer: intercept::with_response(
                    old(self).flow@.layer,
                    http_utils::recorded_response(
                        final(head).status,
                        final(head).version,
                        final(head)@.headers,
                    ),
                ),
                ..old(self).flow@
            }),
    {
        breaker.record_success(key);
        apply_quic_downgrade(head, &mut self.flow, &self.policy);
        http_utils::update_flow_with_response_headers(&mut self.flow, head.status, head.version, &head.headers);
        self.phase = Phase::ResponseHeaders;
    }

    /// The body of the response has been held within a budget; `true` says that it is now in the
    /// record.
    pub fn body_buffered(&mut self, kept: &BufferedBody) -> (r: bool)
        requires
            old(self).phase is ResponseHeaders,
        ensures
            r == !kept.truncated,
            final(self).flow@ == buffered(old(self).flow@, kept@),
            kept.truncated ==> final(self).flow@.layer == old(self).flow@.layer && final(self).flow@.tags == old(self).flow@.tags.push("rule_skipped:body_truncated"@),
            final(self).phase == old(self).phase,
            final(self).policy == old(self).policy,
            final(self).target == old(self).target,
    {
        if kept.truncated {
            self.flow.tag("rule_skipped:body_truncated");
            return false;
        }
        let fields = body_plan::headers_for_direction(&self.flow, Direction::ServerToClient);
        body_plan::record_decoded_body_on_flow(
            &mut self.flow,
            Direction::ServerToClient,
            kept.bytes.as_slice(),
            kept.total_bytes,
            fields.as_slice(),
        );
        true
    }

    /// The response began to arrive.
    pub fn first_byte(&mut self, elapsed_ms: u64)
        requires
            old(self).phase is ResponseHeaders,
        ensures
            final(self).flow@ == (FlowView {
                layer: timed(old(self).flow@.layer, Some(elapsed_ms), None),
                ..old(self).flow@
            }),
            http_utils::response_of(old(self).flow@) matches Some(before) ==> (http_utils::response_of(
                final(self).flow@,
            ) matches Some(after) && after.timing.time_to_first_byte == Some(elapsed_ms) && after.status == before.status
                && after.headers == before.headers && after.body == before.body),
            final(self).phase == old(self).phase,
            final(self).policy == old(self).policy,
            final(self).target == old(self).target,
    {
        match &mut self.flow.layer {
            Layer::Http(http) => {
                match &mut http.response {
                    Some(response) => {
                        response.timing.time_to_first_byte = Some(elapsed_ms);
                    },
                    None => {},
                }
            },
            _ => {},
        }
    }

    /// Interceptors have seen the response's headers.
    pub fn response_headers(&mut self, verdict: InterceptionResult, now: Timestamp) -> (r: Step)
        requires
            old(self).phase is ResponseHeaders,
        ensures
            headers_outcome(
                old(self).flow@,
                verdict@,
                "Response dropped by policy"@,
                now,
                final(self).flow@,
                r@,
            ),
            verdict is Drop ==> (r matches Step::Finish(w) && w.head.status == 403 && w.body@
                == vstd::utf8::encode_utf8("Response dropped by policy"@)),
            verdict matches InterceptionResult::MockResponse(m) ==> (r matches Step::Finish(w) && (m.headers@.len()
                <= headers::FIELD_CAPACITY ==> w.body@ == http_utils::bytes_of(flow::body_opt(m.body)) && (100
                <= m.status <= 999 ==> w.head.status == m.status))),
            verdict matches InterceptionResult::ModifiedResponse(m) ==> (r matches Step::Finish(w) && (m.headers@.len()
                <= headers::FIELD_CAPACITY ==> w.body@ == http_utils::bytes_of(flow::body_opt(m.body)) && (100
                <= m.status <= 999 ==> w.head.status == m.status))),
            verdict is Continue || verdict is ModifiedRequest || verdict is ModifiedMessage ==> r is Proceed && final(self).flow@ == old(self).flow@ && final(self).phase is ResponseBody,
            r !is Proceed ==> final(self).phase is Done && final(self).flow@.end_time == Some(now),
            final(self).flow@.layer == old(self).flow@.layer,
            final(self).phase == phase_after(r@, Phase::ResponseBody),
            final(self).policy == old(self).policy,
            final(self).target == old(self).target,
    {
        let step = decide_headers(&mut self.flow, verdict, "Response dropped by policy", now);
        self.phase = match &step {
            Step::Proceed => Phase::ResponseBody,
            _ => Phase::Done,
        };
        step
    }

    /// Interceptors have seen the response and its body.
    pub fn response_body(&mut self, verdict: ResponseVerdict, now: Timestamp) -> (r: Step)
        requires
            old(self).phase is ResponseBody,
        ensures
            r@ == (match verdict {
                ResponseVerdict::Continue => StepView::Proceed,
                ResponseVerdict::Drop => StepView::Finish(
                    http_utils::error_view(403, "Response dropped by interceptor"@),
                ),
                ResponseVerdict::ModifiedResponse => StepView::FinishWithTheirs,
                ResponseVerdict::Failed(e) => StepView::Refuse(
                    http_utils::error_view(500, "Interceptor Error: "@ + e@),
                ),
            }),
            final(self).flow@ == (if r@ is Finish || r@ is FinishWithTheirs {
                ended(old(self).flow@, now)
            } else {
                old(self).flow@
            }),
            r is Finish || r is FinishWithTheirs ==> final(self).flow@.end_time == Some(now),
            final(self).flow@.layer == old(self).flow@.layer,
            verdict is Continue <==> final(self).phase is Answering,
            final(self).phase == phase_after(r@, Phase::Answering),
            final(self).policy == old(self).policy,
            final(self).target == old(self).target,
    {
        match verdict {
            ResponseVerdict::Continue => {
                self.phase = Phase::Answering;
                Step::Proceed
            },
            ResponseVerdict::Drop => {
                self.phase = Phase::Done;
                self.flow.end_time = Some(now);
                Step::Finish(http_utils::create_error_response(403, "Response dropped by interceptor"))
            },
            ResponseVerdict::ModifiedResponse => {
                self.phase = Phase::Done;
                self.flow.end_time = Some(now);
                Step::FinishWithTheirs
            },
            ResponseVerdict::Failed(e) => {
                self.phase = Phase::Done;
                let message = text::concat2("Interceptor Error: ", e.as_str());
                Step::Refuse(http_utils::create_error_response(500, message.as_str()))
            },
        }
    }

    /// Put the answer together. The record decides the head; a body in the record replaces the
    /// upstream's, encoded as the head announces where that can be done and announced as plain where
    /// it cannot. Whoever removes the announced encoding gets the recorded bytes.
    pub fn answer(&mut self, upstream: &ResponseHead, elapsed_ms: u64, now: Timestamp) -> (r: Answer)
        requires
            old(self).phase is Answering,
            http_utils::response_of(old(self).flow@) matches Some(response) ==> response.headers.len() + 4
                <= headers::FIELD_CAPACITY,
        ensures
            r.head@ == answer_head(old(self).flow@, upstream@),
            match r.body {
                Some(b) => {
                    &&& http_utils::response_body(old(self).flow@) is Some
                    &&& b@ == replacement(
                        old(self).flow@,
                        http_utils::client_head(old(self).flow@, upstream@),
                    ).0
                    &&& r.throttle is None
                },
                None => {
                    &&& http_utils::response_body(old(self).flow@) is None
                    &&& match r.throttle {
                        Some(n) => throttle::rate_of(old(self).flow@.meta) == Some(n as nat),
                        None => throttle::rate_of(old(self).flow@.meta) is None,
                    }
                },
            },
            r.body matches Some(b) ==> ({
                let plain = http_utils::bytes_of(http_utils::response_body(old(self).flow@));
                let claimed = replacement(
                    old(self).flow@,
                    http_utils::client_head(old(self).flow@, upstream@),
                ).1;
                &&& claimed is None ==> b@ == plain
                &&& claimed is Some ==> (content_encoding::codec_of(claimed->0) matches Some(codec)
                    && content_encoding::plaintext(codec, b@) == Some(plain))
                &&& claimed is Some && plain.len() <= content_encoding::MAX_DECODED_BYTES
                    ==> content_encoding::inspected(b@, claimed) == (plain, content_encoding::DecodedBody::Decoded)
            }),
            final(self).flow@ == answered(old(self).flow@, upstream@, elapsed_ms, now),
            r.body is Some <==> http_utils::response_body(old(self).flow@) is Some,
            http_utils::response_of(old(self).flow@) matches Some(response) ==> r.head.status == (if 100
                <= response.status <= 999 {
                response.status
            } else {
                upstream.status
            }),
            http_utils::response_of(old(self).flow@) is None ==> r.head.status == upstream.status && r.head@.headers
                == upstream@.headers,
            old(self).flow@.layer is Http ==> r.head.version == http_utils::version_of(
                old(self).flow@.layer->request.version,
            ),
            final(self).flow@.end_time == Some(now),
            http_utils::response_of(old(self).flow@) matches Some(before) ==> (http_utils::response_of(
                final(self).flow@,
            ) matches Some(after) && after.timing.time_to_last_byte == Some(elapsed_ms) && after.status == before.status
                && after.headers == before.headers && after.body == before.body),
            final(self).phase is Done,
            final(self).policy == old(self).policy,
            final(self).target == old(self).target,
    {
        let ghost before = self.flow@;
        let head = http_utils::build_client_response_head(&self.flow, upstream);
        let rate = throttle::throttle_rate(&self.flow.meta);
        let plain = match &self.flow.layer {
            Layer::Http(http) => match &http.response {
                Some(response) => match &response.body {
                    Some(b) => Some(http_utils::build_response_body_from_flow(b)),
                    None => None,
                },
                None => None,
            },
            _ => None,
        };
        let answer = match plain {
            None => Answer { head, body: None, throttle: rate },
            Some(plain) => {
                proof {
                    reveal_strlit("content-encoding");
                    assert(text::lower("content-encoding"@) =~= "content-encoding"@);
                    lemma_client_head_is_small(before, upstream@);
                }
                let original = headers::get_text(&head.headers, "content-encoding");
                let (wire, encoding) = match &original {
                    Some(e) => content_encoding::encode_after_rewrite(plain.as_slice(), Some(e.as_str())),
                    None => content_encoding::encode_after_rewrite(plain.as_slice(), None),
                };
                if encoding.is_none() && original.is_some() {
                    self.flow.tag("body-encoding-dropped");
                }
                let fields = lay_replaced_headers(&head, wire.len(), &encoding);
                Answer {
                    head: ResponseHead { status: head.status, version: head.version, headers: fields },
                    body: Some(wire),
                    throttle: None,
                }
            },
        };
        match &mut self.flow.layer {
            Layer::Http(http) => {
                match &mut http.response {
                    Some(response) => {
                        response.timing.time_to_last_byte = Some(elapsed_ms);
                    },
                    None => {},
                }
            },
            _ => {},
        }
        self.flow.end_time = Some(now);
        self.phase = Phase::Done;
        answer
    }
}

/// Whatever finishes an exchange on its headers also dates its end.
pub proof fn law_finished_exchanges_are_dated(
    f: FlowView,
    verdict: InterceptionView,
    dropped: Seq<char>,
    now: Timestamp,
    after: FlowView,
    step: StepView,
)
    requires
        headers_outcome(f, verdict, dropped, now, after, step),
    ensures
        step is Finish ==> after.end_time == Some(now),
        step is Finish || step is Proceed,
        step is Proceed ==> after == f,
{
}

/// A field that was changed in the record reaches the client as it stands there, but for the length
/// of a body that is still the upstream's.
pub proof fn law_recorded_fields_reach_the_client(f: FlowView, upstream: HeadView, i: int)
    requires
        http_utils::response_of(f) is Some,
        ({
            let list = http_utils::without(http_utils::response_of(f)->0.headers, http_utils::length_names());
            &&& 0 <= i < list.len()
            &&& headers::sendable(list[i])
            &&& forall|j: int|
                i < j < list.len() ==> text::lower((#[trigger] list[j]).0) != text::lower(list[i].0)
        }),
    ensures
        ({
            let list = http_utils::without(http_utils::response_of(f)->0.headers, http_utils::length_names());
            headers::values(http_utils::client_head(f, upstream).headers, text::lower(list[i].0))
                == seq![vstd::utf8::encode_utf8(list[i].1)]
        }),
{
    let list = http_utils::without(http_utils::response_of(f)->0.headers, http_utils::length_names());
    headers::law_last_field_stays(http_utils::length_fields(headers::flat(upstream.headers)), list, i);
}

proof fn lemma_decimal_is_digits(n: nat)
    ensures
        forall|i: int| 0 <= i < text::decimal(n).len() ==> '0' <= #[trigger] text::decimal(n)[i] <= '9',
    decreases n,
{
    if n >= 10 {
        lemma_decimal_is_digits(n / 10);
        let head = text::decimal(n / 10);
        let d = text::decimal(n);
        assert forall|i: int| 0 <= i < d.len() implies '0' <= #[trigger] d[i] <= '9' by {
            if i < head.len() {
                assert(d[i] == head[i]);
            } else {
                assert(d[i] == (((n % 10) as int) + 48) as char);
            }
        }
    } else {
        let d = text::decimal(n);
        assert forall|i: int| 0 <= i < d.len() implies '0' <= #[trigger] d[i] <= '9' by {
            assert(d[i] == ((n as int) + 48) as char);
        }
    }
}

/// An answer with a body of its own announces exactly the length of what is sent.
pub proof fn law_replaced_bodies_announce_their_length(
    entries: Seq<(Seq<char>, Seq<Seq<u8>>)>,
    wire_len: nat,
    encoding: Option<Seq<char>>,
)
    ensures
        headers::values(replaced_headers(entries, wire_len, encoding), "content-length"@)
            == seq![vstd::utf8::encode_utf8(text::decimal(wire_len))],
{
    reveal_strlit("Content-Length");
    reveal_strlit("content-length");
    reveal_strlit("content-encoding");
    assert(text::lower("Content-Length"@) =~= "content-length"@);
    let list = http_utils::reframed(headers::listed(entries), wire_len);
    let last = list.len() - 1;
    let digits = text::decimal(wire_len);
    lemma_decimal_is_digits(wire_len);
    assert(vstd::utf8::is_ascii_chars(digits));
    vstd::utf8::is_ascii_chars_encode_utf8(digits);
    assert(headers::valid_name("Content-Length"@));
    assert(headers::sendable(list[last]));
    headers::law_last_field_stays(Seq::empty(), list, last);
    assert("content-length"@ != "content-encoding"@) by {
        assert("content-length"@.len() != "content-encoding"@.len());
    }
    let laid = headers::all_inserted(Seq::empty(), list);
    match encoding {
        Some(e) => {
            headers::law_insert_replaces(
                laid,
                "content-encoding"@,
                vstd::utf8::encode_utf8(e),
                "content-length"@,
            );
        },
        None => {},
    }
}

proof fn lemma_not_inserted(
    entries: Seq<(Seq<char>, Seq<Seq<u8>>)>,
    list: Seq<(Seq<char>, Seq<char>)>,
    name: Seq<char>,
)
    requires
        forall|i: int| 0 <= i < list.len() ==> text::lower((#[trigger] list[i]).0) != name,
    ensures
        headers::values(headers::all_inserted(entries, list), name) == headers::values(entries, name),
    decreases list.len(),
{
    if list.len() > 0 {
        let rest = list.drop_last();
        assert forall|i: int| 0 <= i < rest.len() implies text::lower((#[trigger] rest[i]).0) != name by {
            assert(rest[i] == list[i]);
        }
        lemma_not_inserted(entries, rest, name);
        let last = list[list.len() - 1];
        assert(text::lower(last.0) != name);
        if headers::sendable(last) {
            headers::law_insert_replaces(
                headers::all_inserted(entries, rest),
                text::lower(last.0),
                vstd::utf8::encode_utf8(last.1),
                name,
            );
        }
    }
}

proof fn lemma_codec_names_are_values(codec: content_encoding::Codec)
    ensures
        headers::valid_value(vstd::utf8::encode_utf8(content_encoding::codec_name(codec))),
{
    reveal_strlit("gzip");
    reveal_strlit("deflate");
    reveal_strlit("br");
    reveal_strlit("zstd");
    let name = content_encoding::codec_name(codec);
    assert(vstd::utf8::is_ascii_chars(name));
    vstd::utf8::is_ascii_chars_encode_utf8(name);
    let bytes = vstd::utf8::encode_utf8(name);
    assert forall|i: int| 0 <= i < bytes.len() implies headers::value_byte(#[trigger] bytes[i]) by {
        assert('a' <= name[i] <= 'z');
    }
}

/// An answer with a body of its own announces the length of what is sent and the encoding it is sent
/// in, if any, and says nothing else of how the body is transferred.
pub proof fn law_replaced_bodies_are_described(f: FlowView, upstream: HeadView)
    requires
        http_utils::response_body(f) is Some,
    ensures
        ({
            let entries = answer_head(f, upstream).headers;
            let sent = replacement(f, http_utils::client_head(f, upstream));
            &&& headers::values(entries, "content-length"@) == seq![
                vstd::utf8::encode_utf8(text::decimal(sent.0.len())),
            ]
            &&& headers::values(entries, "transfer-encoding"@) == Seq::<Seq<u8>>::empty()
            &&& headers::values(entries, "content-encoding"@) == match sent.1 {
                Some(name) => seq![vstd::utf8::encode_utf8(name)],
                None => Seq::empty(),
            }
        }),
{
    let head = http_utils::client_head(f, upstream);
    let sent = replacement(f, head);
    law_replaced_bodies_announce_their_length(head.headers, sent.0.len(), sent.1);
    reveal_strlit("Content-Length");
    reveal_strlit("content-length");
    reveal_strlit("transfer-encoding");
    reveal_strlit("content-encoding");
    assert(text::lower("Content-Length"@) =~= "content-length"@);
    let te = "transfer-encoding"@;
    let ce = "content-encoding"@;
    assert("content-length"@.len() == 14 && te.len() == 17 && ce.len() == 16);
    let names = http_utils::framing_names();
    assert(names[0] == "content-length"@ && names[1] == te && names[2] == ce);
    let list = http_utils::reframed(headers::listed(head.headers), sent.0.len());
    assert forall|i: int| 0 <= i < list.len() implies text::lower((#[trigger] list[i]).0) != te && text::lower(list[i].0)
        != ce by {
        if names.contains(text::lower(list[i].0)) {
            http_utils::law_reframing_describes_the_new_body(headers::listed(head.headers), sent.0.len(), i);
        }
    }
    lemma_not_inserted(Seq::empty(), list, te);
    lemma_not_inserted(Seq::empty(), list, ce);
    headers::lemma_position(Seq::empty(), te);
    headers::lemma_position(Seq::empty(), ce);
    let laid = headers::all_inserted(Seq::empty(), list);
    match sent.1 {
        Some(name) => {
            let codec = content_encoding::codec_of(announced_encoding(head.headers)->0)->0;
            assert(name == content_encoding::codec_name(codec));
            lemma_codec_names_are_values(codec);
            headers::law_insert_replaces(laid, ce, vstd::utf8::encode_utf8(name), te);
        },
        None => {},
    }
}

/// What a verdict on headers leads to: dropping is answered with 403, a response that takes the
/// exchange's place is sent as it is, and anything else lets the exchange go on unchanged.
pub proof fn law_header_verdicts_are_carried_out(
    f: FlowView,
    verdict: InterceptionView,
    dropped: Seq<char>,
    now: Timestamp,
    after: FlowView,
    step: StepView,
)
    requires
        headers_outcome(f, verdict, dropped, now, after, step),
    ensures
        verdict is Drop ==> step is Finish && step->Finish_0.head.status == 403 && step->Finish_0.body
            == vstd::utf8::encode_utf8(dropped),
        verdict matches InterceptionView::MockResponse(m) ==> step is Finish && (m.headers.len()
            <= headers::FIELD_CAPACITY ==> step->Finish_0.body == http_utils::bytes_of(m.body) && (100 <= m.status
            <= 999 ==> step->Finish_0.head.status == m.status)),
        verdict matches InterceptionView::ModifiedResponse(m) ==> step is Finish && (m.headers.len()
            <= headers::FIELD_CAPACITY ==> step->Finish_0.body == http_utils::bytes_of(m.body) && (100 <= m.status
            <= 999 ==> step->Finish_0.head.status == m.status)),
        verdict is Continue || verdict is ModifiedRequest || verdict is ModifiedMessage ==> step is Proceed && after == f,
        after.layer == f.layer,
        after.network == f.network,
        after.tags == f.tags,
        after.id == f.id,
{
}

/// A request that is sent goes with what the record says: its body where the record has one, the
/// time the policy gives it, and to the host and port of its target.
pub proof fn law_dispatches_follow_record_and_policy(
    f: FlowView,
    policy: ProxyPolicy,
    request: ForwardView,
    upstream_proxy: Option<Seq<char>>,
)
    ensures
        ({
            let d = dispatch_of(f, policy, request, upstream_proxy);
            &&& d.request == request
            &&& f.layer is Http && f.layer->request.body is Some ==> d.body == Some(
                http_utils::bytes_of(f.layer->request.body),
            ) && d.throttle is None
            &&& f.layer is Http && f.layer->request.body is None ==> d.body is None && d.throttle == throttle::rate_of(
                f.meta,
            )
            &&& d.timeout_ms == policy.request_timeout_ms
            &&& request.uri.host matches Some(h) ==> d.host == h
            &&& request.uri.host is None ==> d.host == "unknown"@
            &&& request.uri.port matches Some(p) ==> d.port == p
            &&& request.uri.port is None && request.uri.scheme == Some("https"@) ==> d.port == 443
            &&& request.uri.port is None && request.uri.scheme != Some("https"@) ==> d.port == 80
            &&& upstream_proxy matches Some(p) ==> d.key == p
            &&& upstream_proxy is None ==> (request.uri.authority matches Some(a) ==> d.key == a)
        }),
{
}

/// An exchange whose upstream failed is recorded with what went wrong and when, and with nothing
/// else changed.
pub proof fn law_failures_are_recorded(f: FlowView, failure: UpstreamFailure, now: Timestamp)
    requires
        f.layer is Http,
    ensures
        ({
            let after = upstream_failed(f, failure, now);
            &&& after.end_time == Some(now)
            &&& after.layer is Http
            &&& after.layer->request == f.layer->request
            &&& after.layer->response == f.layer->response
            &&& after.layer->error is Some
            &&& after.resilience_trace is Some
            &&& after.resilience_trace->0.upstream_errors == seq![after.layer->error->0]
            &&& failure is TimedOut ==> after.layer->error == Some("Upstream Request Timed Out"@)
                && after.resilience_trace->0.timeout_type == Some("total"@)
            &&& failure matches UpstreamFailure::Failed(e) ==> after.layer->error == Some("Upstream Error: "@ + e@)
            &&& after.tags == f.tags
            &&& after.network == f.network
            &&& after.meta == f.meta
        }),
{
}

/// With the policy to downgrade, a response no longer offers HTTP/3 and has its other fields; with
/// another policy it is as it was.
pub proof fn law_downgraded_responses_offer_no_quic(head: HeadView, policy: ProxyPolicy, name: Seq<char>)
    requires
        headers::distinct_names(head.headers),
    ensures
        ({
            let after = downgraded(head, policy);
            &&& after.status == head.status
            &&& after.version == head.version
            &&& policy.quic_mode !is Downgrade ==> after == head
            &&& policy.quic_mode is Downgrade ==> headers::values(after.headers, "alt-svc"@).len() == 0
            &&& policy.quic_mode is Downgrade && policy.quic_downgrade_clear_cache ==> headers::values(
                after.headers,
                "clear-site-data"@,
            ) == seq![vstd::utf8::encode_utf8("\"cache\""@)]
            &&& name != "alt-svc"@ && (name != "clear-site-data"@ || !policy.quic_downgrade_clear_cache)
                ==> headers::values(after.headers, name) == headers::values(head.headers, name)
        }),
{
    reveal_strlit("alt-svc");
    reveal_strlit("clear-site-data");
    assert("alt-svc"@.len() == 7 && "clear-site-data"@.len() == 15);
    headers::law_removed_names_are_gone(head.headers, "alt-svc"@, name);
    let kept = headers::with_removed(head.headers, "alt-svc"@);
    let value = vstd::utf8::encode_utf8("\"cache\""@);
    headers::law_insert_replaces(kept, "clear-site-data"@, value, name);
    headers::law_insert_replaces(kept, "clear-site-data"@, value, "alt-svc"@);
}

proof fn lemma_length_values(fields: Seq<(Seq<char>, Seq<u8>)>, name: Seq<char>)
    ensures
        headers::values(http_utils::length_fields(fields), name) == (if (name == "content-length"@ || name
            == "transfer-encoding"@) && headers::field_values(fields, name).len() > 0 {
            seq![headers::field_values(fields, name).last()]
        } else {
            Seq::empty()
        }),
    decreases fields.len(),
{
    let names = http_utils::length_names();
    assert(names[0] == "content-length"@ && names[1] == "transfer-encoding"@);
    if fields.len() == 0 {
        headers::lemma_position(Seq::empty(), name);
        assert(headers::values(Seq::empty(), name) =~= Seq::empty());
    } else {
        let rest = http_utils::length_fields(fields.drop_last());
        lemma_length_values(fields.drop_last(), name);
        if names.contains(fields.last().0) {
            headers::law_insert_replaces(rest, fields.last().0, fields.last().1, name);
        }
    }
}

proof fn lemma_listed_without_lengths(list: Seq<(Seq<char>, Seq<char>)>, name: Seq<char>)
    ensures
        headers::listed_values(http_utils::without(list, http_utils::length_names()), name) == (if name
            == "content-length"@ || name == "transfer-encoding"@ {
            Seq::empty()
        } else {
            headers::listed_values(list, name)
        }),
    decreases list.len(),
{
    let names = http_utils::length_names();
    assert(names[0] == "content-length"@ && names[1] == "transfer-encoding"@);
    if list.len() > 0 {
        lemma_listed_without_lengths(list.drop_last(), name);
        let rest = http_utils::without(list.drop_last(), names);
        assert(rest.push(list.last()).drop_last() =~= rest);
    }
}

/// The head a client gets follows the record: its status where it is one, the version the client
/// speaks, and of each name the last value the record gives it; the lengths are the upstream's.
/// Without a recorded response it is the upstream's.
pub proof fn law_client_heads_follow_the_record(f: FlowView, upstream: HeadView, name: Seq<char>)
    ensures
        ({
            let head = http_utils::client_head(f, upstream);
            &&& f.layer is Http ==> head.version == http_utils::version_of(f.layer->request.version)
            &&& f.layer is Http && f.layer->response is None ==> head.status == upstream.status && head.headers
                == upstream.headers
            &&& f.layer is Http ==> (f.layer->response matches Some(response) ==> {
                &&& 100 <= response.status <= 999 ==> head.status == response.status
                &&& !(100 <= response.status <= 999) ==> head.status == upstream.status
                &&& name == "content-length"@ || name == "transfer-encoding"@ ==> headers::values(head.headers, name) == (
                if headers::field_values(headers::flat(upstream.headers), name).len() > 0 {
                    seq![headers::field_values(headers::flat(upstream.headers), name).last()]
                } else {
                    Seq::empty()
                })
                &&& name != "content-length"@ && name != "transfer-encoding"@ ==> headers::values(head.headers, name) == (
                if headers::listed_values(response.headers, name).len() > 0 {
                    seq![headers::listed_values(response.headers, name).last()]
                } else {
                    Seq::empty()
                })
            })
        }),
{
    if f.layer is Http && f.layer->response is Some {
        let response = f.layer->response->0;
        let start = http_utils::length_fields(headers::flat(upstream.headers));
        let list = http_utils::without(response.headers, http_utils::length_names());
        lemma_length_values(headers::flat(upstream.headers), name);
        lemma_listed_without_lengths(response.headers, name);
        headers::law_laid_lists_decide(start, list, name);
    }
}

/// An answer whose body replaces the upstream's keeps the status, the version and every other field
/// of the head the record decides; one that passes the upstream's body on keeps that head whole.
pub proof fn law_answers_keep_the_decided_head(f: FlowView, upstream: HeadView, name: Seq<char>)
    requires
        name != "content-length"@,
        name != "transfer-encoding"@,
        name != "content-encoding"@,
    ensures
        ({
            let decided = http_utils::client_head(f, upstream);
            let head = answer_head(f, upstream);
            &&& head.status == decided.status
            &&& head.version == decided.version
            &&& http_utils::response_body(f) is None ==> head == decided
            &&& http_utils::response_body(f) is Some ==> headers::values(head.headers, name) == ({
                let listed = headers::listed_values(headers::listed(decided.headers), name);
                if listed.len() > 0 {
                    seq![listed.last()]
                } else {
                    Seq::empty()
                }
            })
        }),
{
    if http_utils::response_body(f) is Some {
        let decided = http_utils::client_head(f, upstream);
        let sent = replacement(f, decided);
        let list = http_utils::reframed(headers::listed(decided.headers), sent.0.len());
        http_utils::law_reframing_keeps_other_fields(headers::listed(decided.headers), sent.0.len(), name);
        headers::law_laid_lists_decide(Seq::empty(), list, name);
        headers::lemma_position(Seq::empty(), name);
        assert(headers::values(Seq::empty(), name) =~= Seq::empty());
        let laid = headers::all_inserted(Seq::empty(), list);
        match sent.1 {
            Some(e) => {
                headers::law_insert_replaces(laid, "content-encoding"@, vstd::utf8::encode_utf8(e), name);
            },
            None => {},
        }
    }
}

/// A finished exchange is dated, and its record is as it was but for the time the response took and
/// the note that an encoding had to be dropped.
pub proof fn law_answered_records_are_complete(f: FlowView, upstream: HeadView, elapsed_ms: u64, now: Timestamp)
    ensures
        ({
            let after = answered(f, upstream, elapsed_ms, now);
            &&& after.end_time == Some(now)
            &&& after.id == f.id
            &&& after.start_time == f.start_time
            &&& after.network == f.network
            &&& after.meta == f.meta
            &&& after.matched_rules == f.matched_rules
            &&& after.resilience_trace == f.resilience_trace
            &&& f.layer is Http ==> after.layer is Http && after.layer->request == f.layer->request
                && after.layer->error == f.layer->error
            &&& http_utils::response_of(f) matches Some(before) ==> (http_utils::response_of(after) matches Some(r)
                && r.status == before.status && r.headers == before.headers && r.body == before.body
                && r.timing.time_to_last_byte == Some(elapsed_ms) && r.timing.time_to_first_byte
                == before.timing.time_to_first_byte)
            &&& http_utils::response_body(f) is None ==> after.tags == f.tags
            &&& after.tags == f.tags || after.tags == f.tags.push("body-encoding-dropped"@)
        }),
{
}

/// A message announces more than some bytes where the length in its head is larger.
pub proof fn law_lengths_are_announced(entries: Seq<(Seq<char>, Seq<Seq<u8>>)>, n: usize, max: usize)
    requires
        headers::value_text_opt(headers::first_value(entries, "content-length"@)) == Some(text::decimal(n as nat)),
    ensures
        announces_more(entries, max) <==> n > max,
{
    text::lemma_decimal_reads_back(n as nat, usize::MAX as nat);
}

/// A request that announces more than is recorded is marked as such, twice, and kept otherwise as it
/// was.
pub proof fn law_large_requests_are_marked(f: FlowView)
    ensures
        over_budget(f).tags == f.tags.push("budget-exceeded"@),
        over_budget(f).resilience_trace is Some,
        over_budget(f).resilience_trace->0.budget_exceeded,
        f.resilience_trace matches Some(t) ==> over_budget(f).resilience_trace->0.circuit_open == t.circuit_open
            && over_budget(f).resilience_trace->0.upstream_errors == t.upstream_errors,
        over_budget(f).layer == f.layer,
        over_budget(f).network == f.network,
        over_budget(f).id == f.id,
{
}

/// A request that an open circuit holds back ends there and is recorded so.
pub proof fn law_held_back_requests_end(f: FlowView, now: Timestamp)
    ensures
        held_back(f, now).end_time == Some(now),
        held_back(f, now).resilience_trace is Some,
        held_back(f, now).resilience_trace->0.circuit_open,
        held_back(f, now).layer == f.layer,
        held_back(f, now).tags == f.tags,
        held_back(f, now).network == f.network,
        held_back(f, now).id == f.id,
{
}

} // verus!
