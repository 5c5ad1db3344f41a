//! WebSocket exchanges: the handshake, and the messages after it.
use vstd::prelude::*;
use vstd::string::*;

use crate::addr;
use crate::addr::SocketAddress;
use crate::capture::loop_detection;
use crate::capture::loop_detection::LoopDetector;
use crate::flow;
use crate::flow::{
    BodyData, BodyView, Direction, Flow, FlowUpdate, FlowView, HttpRequest, HttpResponse, Layer,
    LayerView, RequestView, ResponseTiming, ResponseView, Timestamp, UpdateView, UrlView,
    WebSocketMessage, WsMessageView,
};
use crate::headers;
use crate::intercept::{InterceptionResult, InterceptionView, RequestVerdict};
use crate::policy::ProxyPolicy;
use crate::proxy::body_codec;
use crate::proxy::http_utils;
use crate::proxy::http_utils::{
    ForwardRequest, ForwardView, HeadView, HttpVersion, RequestHead, ResponseHead, WireResponse, WireView,
};
use crate::text;
use crate::urls;
use crate::urls::{TargetUri, UriView};

verus! {

/// How long a tunnel may be quiet, in seconds.
pub const IDLE_TIMEOUT_SECS: u64 = 300;

/// How long an upstream may take to answer a handshake, in seconds.
pub const HANDSHAKE_TIMEOUT_SECS: u64 = 30;

/// How long either side may take to switch protocols, in seconds.
pub const UPGRADE_TIMEOUT_SECS: u64 = 10;

/// What is wrong with a handshake in strict mode.
pub open spec fn strict_fault(entries: Seq<(Seq<char>, Seq<Seq<u8>>)>) -> Option<Seq<char>> {
    if headers::first_value(entries, "sec-websocket-key"@) is None {
        Some("Missing Sec-WebSocket-Key header in Strict Mode"@)
    } else {
        match headers::first_value(entries, "sec-websocket-version"@) {
            None => Some("Missing Sec-WebSocket-Version header in Strict Mode"@),
            Some(v) => if v == vstd::utf8::encode_utf8("13"@) {
                None
            } else {
                Some("Unsupported WebSocket Version in Strict Mode (Expected 13)"@)
            },
        }
    }
}

fn same_bytes(a: &[u8], b: &[u8]) -> (r: bool)
    ensures
        r == (a@ == b@),
{
    if a.len() != b.len() {
        return false;
    }
    let mut i: usize = 0;
    while i < a.len()
        invariant
            i <= a@.len(),
            a@.len() == b@.len(),
            forall|j: int| 0 <= j < i ==> a@[j] == b@[j],
        decreases a.len() - i,
    {
        if a[i] != b[i] {
            return false;
        }
        i = i + 1;
    }
    assert(a@ =~= b@);
    true
}

/// Refuse a malformed handshake where the policy is strict.
pub fn validate_ws_strict_handshake(req: &RequestHead, policy: &ProxyPolicy) -> (r: Result<(), WireResponse>)
    ensures
        match r {
            Ok(_) => !policy.strict_http_semantics || strict_fault(headers::header_entries(req.headers)) is None,
            Err(w) => policy.strict_http_semantics && (strict_fault(headers::header_entries(req.headers)) matches Some(
                fault,
            ) && w@ == http_utils::error_view(400, fault)),
        },
        !policy.strict_http_semantics ==> r is Ok,
        policy.strict_http_semantics ==> (r is Ok <==> headers::first_value(
            headers::header_entries(req.headers),
            "sec-websocket-key"@,
        ) is Some && headers::first_value(headers::header_entries(req.headers), "sec-websocket-version"@) == Some(
            vstd::utf8::encode_utf8("13"@),
        )),
        r matches Err(w) ==> w.head.status == 400,
{
    if !policy.strict_http_semantics {
        return Ok(());
    }
    proof {
        reveal_strlit("sec-websocket-key");
        reveal_strlit("sec-websocket-version");
        assert(text::lower("sec-websocket-key"@) =~= "sec-websocket-key"@);
        assert(text::lower("sec-websocket-version"@) =~= "sec-websocket-version"@);
    }
    if !headers::contains(&req.headers, "sec-websocket-key") {
        return Err(http_utils::create_error_response(400, "Missing Sec-WebSocket-Key header in Strict Mode"));
    }
    match headers::get(&req.headers, "sec-websocket-version") {
        Some(v) => {
            if same_bytes(v.as_slice(), "13".as_bytes()) {
                Ok(())
            } else {
                Err(
                    http_utils::create_error_response(
                        400,
                        "Unsupported WebSocket Version in Strict Mode (Expected 13)",
                    ),
                )
            }
        },
        None => Err(
            http_utils::create_error_response(400, "Missing Sec-WebSocket-Version header in Strict Mode"),
        ),
    }
}

/// Where a handshake stands: what is waited for.
#[derive(Clone, Copy, Debug, PartialEq, Eq, Structural)]
pub enum HandshakePhase {
    /// What interceptors make of the request's headers.
    RequestHeaders,
    /// What interceptors make of the request.
    Request,
    /// Where the request is sent.
    Routing,
    /// What the upstream answers.
    Upstream,
    /// Nothing: the client has its answer.
    Done,
}

/// One handshake.
#[derive(Debug)]
pub struct Handshake {
    pub flow: Flow,
    /// The URL the client asked for.
    pub url_str: String,
    pub policy: ProxyPolicy,
    pub target: Option<SocketAddress>,
    pub is_mitm: bool,
    pub phase: HandshakePhase,
}

/// What comes next.
#[derive(Debug)]
pub enum HandshakeStep {
    /// The handshake goes on.
    Proceed,
    /// The record is published and the handshake goes on.
    PublishAndProceed,
    /// The record is published and the client gets this.
    PublishAndAnswer(WireResponse),
    /// The record is published and the client gets the response an interceptor made.
    PublishAndAnswerWithTheirs,
    /// The client gets this, and nothing is published.
    Answer(WireResponse),
}

/// What a step holds.
#[verifier::ext_equal]
pub enum HandshakeView {
    Proceed,
    PublishAndProceed,
    PublishAndAnswer(WireView),
    PublishAndAnswerWithTheirs,
    Answer(WireView),
}

impl View for HandshakeStep {
    type V = HandshakeView;

    open spec fn view(&self) -> HandshakeView {
        match *self {
            HandshakeStep::Proceed => HandshakeView::Proceed,
            HandshakeStep::PublishAndProceed => HandshakeView::PublishAndProceed,
            HandshakeStep::PublishAndAnswer(w) => HandshakeView::PublishAndAnswer(w@),
            HandshakeStep::PublishAndAnswerWithTheirs => HandshakeView::PublishAndAnswerWithTheirs,
            HandshakeStep::Answer(w) => HandshakeView::Answer(w@),
        }
    }
}

/// Whether only the record and the phase differ.
pub open spec fn same_handshake(a: Handshake, b: Handshake) -> bool {
    &&& a.url_str@ == b.url_str@
    &&& a.policy == b.policy
    &&& a.target == b.target
    &&& a.is_mitm == b.is_mitm
}

/// A layer with the request of its handshake replaced; only a WebSocket exchange has one.
pub open spec fn with_handshake_request(layer: LayerView, request: RequestView) -> LayerView {
    match layer {
        LayerView::WebSocket { handshake_request: _, handshake_response, messages, closed } => LayerView::WebSocket {
            handshake_request: request,
            handshake_response,
            messages,
            closed,
        },
        other => other,
    }
}

/// What the verdict on the headers of a handshake leads to.
pub open spec fn handshake_headers_outcome(
    f: FlowView,
    verdict: InterceptionView,
    after: FlowView,
    step: HandshakeView,
) -> bool {
    match verdict {
        InterceptionView::Drop => after == f && step == HandshakeView::Answer(http_utils::error_view(403, ""@)),
        InterceptionView::MockResponse(r) => after == f && step is PublishAndAnswer && http_utils::mocked(
            r,
            step->PublishAndAnswer_0,
        ),
        InterceptionView::ModifiedResponse(r) => after == f && step is PublishAndAnswer && http_utils::mocked(
            r,
            step->PublishAndAnswer_0,
        ),
        InterceptionView::ModifiedRequest(req) => after == (FlowView {
            layer: with_handshake_request(f.layer, req),
            ..f
        }) && step is Proceed,
        _ => after == f && step is Proceed,
    }
}

/// The scheme of a routed handshake: secure with a client that speaks TLS, plain with one that does
/// not.
pub open spec fn routed_scheme(is_mitm: bool, scheme: Seq<char>) -> Option<Seq<char>> {
    if is_mitm && (scheme == "http"@ || scheme == "ws"@) {
        Some("wss"@)
    } else if !is_mitm && (scheme == "https"@ || scheme == "wss"@) {
        Some("ws"@)
    } else {
        None
    }
}

/// The URL a routed handshake is sent to; none where the URL takes no address for its host.
pub open spec fn routed_handshake_url(url: UrlView, to: SocketAddress, is_mitm: bool) -> Option<Seq<char>> {
    match urls::url_with_ip(url.href, to.ip) {
        None => None,
        Some(h) => {
            let at = match urls::url_with_port(h, to.port) {
                Some(p) => p,
                None => h,
            };
            Some(
                match routed_scheme(is_mitm, url.scheme) {
                    Some(s) => match urls::url_with_scheme(at, s) {
                        Some(u) => u,
                        None => at,
                    },
                    None => at,
                },
            )
        },
    }
}

fn route_handshake_url(href: &str, scheme: &str, to: SocketAddress, is_mitm: bool) -> (r: Option<String>)
    ensures
        forall|url: UrlView|
            url.href == href@ && url.scheme == scheme@ ==> text::text_opt(r) == #[trigger] routed_handshake_url(
                url,
                to,
                is_mitm,
            ),
{
    match urls::set_ip_host(href, to.ip) {
        None => None,
        Some(h) => {
            let at = match urls::set_port(h.as_str(), to.port) {
                Some(p) => p,
                None => h,
            };
            let wanted = if is_mitm && (text::same_text(scheme, "http") || text::same_text(scheme, "ws")) {
                Some("wss")
            } else if !is_mitm && (text::same_text(scheme, "https") || text::same_text(scheme, "wss")) {
                Some("ws")
            } else {
                None
            };
            match wanted {
                Some(s) => match urls::set_scheme(at.as_str(), s) {
                    Some(u) => Some(u),
                    None => Some(at),
                },
                None => Some(at),
            }
        },
    }
}

/// What building the request of a handshake for a URL leads to.
pub open spec fn handshake_request_outcome(
    request: RequestView,
    url: Seq<char>,
    r: Result<ForwardView, WireView>,
) -> bool {
    if !urls::valid_method(request.method) {
        r == Err::<ForwardView, WireView>(
            http_utils::error_view(500, "Failed to build forward request: invalid HTTP method"@),
        )
    } else {
        match urls::uri_of(url) {
            Err(e) => r == Err::<ForwardView, WireView>(
                http_utils::error_view(500, "Failed to build forward request: "@ + e),
            ),
            Ok(uri) => {
                ||| r == Ok::<ForwardView, WireView>(
                    ForwardView {
                        method: request.method,
                        uri,
                        version: Some(HttpVersion::Http11),
                        headers: headers::all_appended(Seq::empty(), request.headers),
                    },
                )
                ||| r == Err::<ForwardView, WireView>(
                    http_utils::error_view(500, "Failed to build forward request: max size reached"@),
                ) && request.headers.len() > headers::FIELD_CAPACITY
            },
        }
    }
}

fn build_handshake(request: &HttpRequest, url: &str) -> (r: Result<ForwardRequest, WireResponse>)
    ensures
        handshake_request_outcome(request@, url@, http_utils::forward_result(r)),
{
    if !urls::is_method(request.method.as_str()) {
        return Err(
            http_utils::create_error_response(500, "Failed to build forward request: invalid HTTP method"),
        );
    }
    let uri = match urls::parse_uri(url) {
        Ok(u) => u,
        Err(e) => {
            let message = text::concat2("Failed to build forward request: ", e.as_str());
            return Err(http_utils::create_error_response(500, message.as_str()));
        },
    };
    let mut fields = headers::new_headers();
    if !headers::append_list(&mut fields, request.headers.as_slice()) {
        return Err(http_utils::create_error_response(500, "Failed to build forward request: max size reached"));
    }
    Ok(
        ForwardRequest {
            method: text::copy(request.method.as_str()),
            uri,
            version: Some(HttpVersion::Http11),
            headers: fields,
        },
    )
}

/// A layer whose handshake was refused because it would lead back to the proxy.
pub open spec fn looped(layer: LayerView) -> LayerView {
    match layer {
        LayerView::WebSocket { handshake_request, handshake_response, messages, closed: _ } => LayerView::WebSocket {
            handshake_request,
            handshake_response: ResponseView { status: 508, ..handshake_response },
            messages,
            closed: true,
        },
        other => other,
    }
}

/// What routing a handshake leads to: the record afterwards, and the request to send or what the
/// client is answered.
pub open spec fn handshake_routed(
    before: Handshake,
    listen: Seq<SocketAddress>,
    known: Seq<crate::addr::IpAddress>,
    after: FlowView,
    r: Result<ForwardView, HandshakeView>,
) -> bool {
    let f = before.flow@;
    let route = http_utils::route_of(before.policy, before.target);
    if route is Some && loop_detection::loops(listen, known, route->0) {
        &&& after == (FlowView { layer: looped(f.layer), ..http_utils::routed(f, route->0) })
        &&& r == Err::<ForwardView, HandshakeView>(
            HandshakeView::PublishAndAnswer(http_utils::error_view(508, "Loop Detected"@)),
        )
    } else {
        &&& after == match route {
            Some(to) => http_utils::routed(f, to),
            None => f,
        }
        &&& match f.layer {
            LayerView::WebSocket { handshake_request, .. } => {
                let routed_url = match route {
                    Some(to) => routed_handshake_url(handshake_request.url, to, before.is_mitm),
                    None => None,
                };
                let url = match routed_url {
                    Some(u) => u,
                    None => before.url_str@,
                };
                &&& r is Err ==> r->Err_0 is Answer
                &&& handshake_request_outcome(
                    handshake_request,
                    url,
                    match r {
                        Ok(x) => Ok::<ForwardView, WireView>(x),
                        Err(step) => Err::<ForwardView, WireView>(step->Answer_0),
                    },
                )
            },
            _ => r == Err::<ForwardView, HandshakeView>(
                HandshakeView::Answer(http_utils::error_view(500, "Invalid Flow Layer State"@)),
            ),
        }
    }
}

/// What routing gave.
pub open spec fn routing_result(r: Result<ForwardRequest, HandshakeStep>) -> Result<ForwardView, HandshakeView> {
    match r {
        Ok(x) => Ok(x@),
        Err(x) => Err(x@),
    }
}

/// The entries of a map that some fields were added to one after the other.
pub open spec fn refilled(fields: Seq<(Seq<char>, Seq<u8>)>) -> Seq<(Seq<char>, Seq<Seq<u8>>)>
    decreases fields.len(),
{
    if fields.len() == 0 {
        Seq::empty()
    } else {
        headers::with_appended(refilled(fields.drop_last()), fields.last().0, fields.last().1)
    }
}

/// What a client is told when the upstream switches protocols.
pub open spec fn switching(head: HeadView, sent: WireView) -> bool {
    ||| sent == (WireView {
        head: HeadView { status: 101, version: head.version, headers: refilled(headers::flat(head.headers)) },
        body: Seq::empty(),
    })
    ||| sent == http_utils::error_view(500, "Response build failed"@) && headers::flat(head.headers).len()
        > headers::FIELD_CAPACITY
}

/// Tell the client that the upstream switches protocols, with the fields the upstream sent.
pub fn switching_response(head: &ResponseHead) -> (r: WireResponse)
    ensures
        switching(head@, r@),
        headers::flat(head@.headers).len() <= headers::FIELD_CAPACITY ==> r.head.status == 101 && r.head.version
            == head.version && r.body@.len() == 0 && headers::header_entries(r.head.headers) == refilled(
            headers::flat(head@.headers),
        ),
{
    let all = headers::fields(&head.headers);
    let ghost seen = all@.map_values(|f: (String, Vec<u8>)| (f.0@, f.1@));
    let mut out = headers::new_headers();
    let mut i: usize = 0;
    while i < all.len()
        invariant
            i <= all@.len(),
            seen == all@.map_values(|f: (String, Vec<u8>)| (f.0@, f.1@)),
            seen == headers::flat(head@.headers),
            forall|j: int|
                0 <= j < all@.len() ==> headers::valid_name((#[trigger] all@[j]).0@) && text::lower(all@[j].0@)
                    == all@[j].0@ && headers::valid_value(all@[j].1@),
            headers::header_entries(out) == refilled(seen.subrange(0, i as int)),
            headers::header_entries(out).len() <= i,
        decreases all.len() - i,
    {
        proof {
            let so_far = seen.subrange(0, i + 1);
            assert(so_far.drop_last() =~= seen.subrange(0, i as int));
            assert(so_far.last() == (all@[i as int].0@, all@[i as int].1@));
            headers::lemma_position(headers::header_entries(out), all@[i as int].0@);
        }
        if !headers::append(&mut out, all[i].0.as_str(), all[i].1.as_slice()) {
            return http_utils::create_error_response(500, "Response build failed");
        }
        i = i + 1;
    }
    assert(seen.subrange(0, i as int) =~= seen);
    WireResponse { head: ResponseHead { status: 101, version: head.version, headers: out }, body: Vec::new() }
}

/// The host and port a handshake is sent to: those of its target, or else the port of its scheme.
pub open spec fn endpoint_of(uri: UriView) -> (Seq<char>, u16) {
    (
        match uri.host {
            Some(h) => h,
            None => Seq::empty(),
        },
        match uri.port {
            Some(p) => p,
            None => if uri.scheme == Some("https"@) || uri.scheme == Some("wss"@) {
                443
            } else {
                80
            },
        },
    )
}

/// The host and port a handshake is sent to.
pub fn handshake_endpoint(uri: &TargetUri) -> (r: (String, u16))
    ensures
        (r.0@, r.1) == endpoint_of(uri@),
        uri.host matches Some(h) ==> r.0@ == h@,
        uri.port matches Some(p) ==> r.1 == p,
        uri.port is None ==> r.1 == (if uri@.scheme == Some("https"@) || uri@.scheme == Some("wss"@) {
            443u16
        } else {
            80u16
        }),
{
    let host = match &uri.host {
        Some(h) => text::copy(h.as_str()),
        None => String::new(),
    };
    let secure = match &uri.scheme {
        Some(s) => text::same_text(s.as_str(), "https") || text::same_text(s.as_str(), "wss"),
        None => false,
    };
    let port: u16 = match uri.port {
        Some(p) => p,
        None => if secure {
            443
        } else {
            80
        },
    };
    assert(host@ =~= endpoint_of(uri@).0);
    (host, port)
}

/// What the head of an upstream's answer to a handshake leads to.
#[derive(Debug)]
pub enum AnswerStep {
    /// The upstream switches protocols: the client gets this, and the tunnel begins.
    Switch(WireResponse),
    /// The upstream answered with an ordinary response, whose body is to be read.
    ReadBody,
}

/// What is recorded of an upstream that answered a handshake with an ordinary response.
pub open spec fn refused_response(head: HeadView, body: Seq<u8>) -> ResponseView {
    ResponseView {
        status: head.status,
        status_text: match urls::reason_of(head.status) {
            Some(r) => r,
            None => "Unknown"@,
        },
        version: http_utils::version_text(head.version),
        headers: headers::listed(head.headers),
        cookies: Seq::empty(),
        body: Some(
            BodyView {
                encoding: "utf-8"@,
                content: headers::lossy_text(body),
                size: body.len() as u64,
                grpc: None,
            },
        ),
        trailers: Seq::empty(),
        timing: flow::no_timing(),
    }
}

/// A layer whose handshake was refused by the upstream.
pub open spec fn refused(layer: LayerView, response: ResponseView) -> LayerView {
    match layer {
        LayerView::WebSocket { handshake_request, handshake_response: _, messages, closed: _ } => LayerView::WebSocket {
            handshake_request,
            handshake_response: response,
            messages,
            closed: true,
        },
        other => other,
    }
}

impl Handshake {
    /// Begin a handshake; a malformed one is refused where the policy is strict.
    pub fn begin(
        head: &RequestHead,
        client_addr: SocketAddress,
        is_mitm: bool,
        policy: ProxyPolicy,
        target: Option<SocketAddress>,
    ) -> (r: Result<Self, WireResponse>)
        ensures
            match r {
                Err(w) => policy.strict_http_semantics && (strict_fault(
                    headers::header_entries(head.headers),
                ) matches Some(fault) && w@ == http_utils::error_view(400, fault)),
                Ok(h) => {
                    let meta = http_utils::meta_of(
                        head.method@,
                        head.uri@,
                        head.version,
                        headers::header_entries(head.headers),
                        is_mitm,
                    );
                    &&& !policy.strict_http_semantics || strict_fault(
                        headers::header_entries(head.headers),
                    ) is None
                    &&& h.flow@ == http_utils::initial(
                        meta,
                        http_utils::recorded_url(meta.url_str),
                        None,
                        client_addr,
                        is_mitm,
                        true,
                        h.flow@.id,
                        h.flow@.start_time,
                    )
                    &&& h.url_str@ == meta.url_str
                    &&& h.policy == policy
                    &&& h.target == target
                    &&& h.is_mitm == is_mitm
                    &&& h.phase is RequestHeaders
                    &&& h.flow@.layer matches LayerView::WebSocket { handshake_request, messages, closed, .. }
                        && handshake_request.method == head.method@ && http_utils::version_of(handshake_request.version)
                        == head.version && handshake_request.headers == headers::listed(
                        headers::header_entries(head.headers),
                    ) && messages.len() == 0 && !closed
                    &&& urls::url_of(head.uri@) matches Ok(u) ==> h.url_str@ == head.uri@
                        && h.flow@.layer->handshake_request.url == u
                    &&& h.flow@.network.client_ip == addr::ip_text(client_addr.ip)
                    &&& h.flow@.network.client_port == client_addr.port
                    &&& h.flow@.network.tls == is_mitm
                },
            },
            r matches Err(w) ==> w.head.status == 400,
    {
        let meta = http_utils::parse_request_meta(head, is_mitm);
        match validate_ws_strict_handshake(head, &policy) {
            Ok(_) => {},
            Err(w) => {
                return Err(w);
            },
        }
        let url_str = text::copy(meta.url_str.as_str());
        let f = http_utils::create_initial_flow(meta, None, client_addr, is_mitm, true);
        Ok(Handshake { flow: f, url_str, policy, target, is_mitm, phase: HandshakePhase::RequestHeaders })
    }

    /// Interceptors have seen the headers of the handshake.
    pub fn request_headers(&mut self, verdict: InterceptionResult) -> (r: HandshakeStep)
        requires
            old(self).phase is RequestHeaders,
        ensures
            handshake_headers_outcome(old(self).flow@, verdict@, final(self).flow@, r@),
            verdict is Drop ==> (r matches HandshakeStep::Answer(w) && w.head.status == 403),
            verdict matches InterceptionResult::MockResponse(m) ==> (r matches HandshakeStep::PublishAndAnswer(w) && (
            m.headers@.len() <= headers::FIELD_CAPACITY ==> w.body@ == http_utils::bytes_of(flow::body_opt(m.body)) && (
            100 <= m.status <= 999 ==> w.head.status == m.status))),
            verdict matches InterceptionResult::ModifiedResponse(m) ==> (r matches HandshakeStep::PublishAndAnswer(w)
                && (m.headers@.len() <= headers::FIELD_CAPACITY ==> w.body@ == http_utils::bytes_of(
                flow::body_opt(m.body),
            ) && (100 <= m.status <= 999 ==> w.head.status == m.status))),
            verdict is Continue || verdict is ModifiedMessage ==> r is Proceed && final(self).flow@ == old(self).flow@,
            verdict matches InterceptionResult::ModifiedRequest(q) ==> r is Proceed && (old(self).flow@.layer is WebSocket ==> final(self).flow@.layer is WebSocket && final(self).flow@.layer->handshake_request == q@ && final(self).flow@.layer->messages == old(self).flow@.layer->messages),
            same_handshake(*final(self), *old(self)),
            final(self).phase == (if r@ is Proceed {
                HandshakePhase::Request
            } else {
                HandshakePhase::Done
            }),
    {
        self.phase = HandshakePhase::Done;
        match verdict {
            InterceptionResult::Drop => HandshakeStep::Answer(http_utils::create_error_response(403, "")),
            InterceptionResult::MockResponse(m) => HandshakeStep::PublishAndAnswer(http_utils::mock_to_response(m)),
            InterceptionResult::ModifiedResponse(m) => HandshakeStep::PublishAndAnswer(
                http_utils::mock_to_response(m),
            ),
            InterceptionResult::ModifiedRequest(req) => {
                match &mut self.flow.layer {
                    Layer::WebSocket(ws) => {
                        ws.handshake_request = req;
                    },
                    _ => {},
                }
                self.phase = HandshakePhase::Request;
                HandshakeStep::Proceed
            },
            InterceptionResult::Continue => {
                self.phase = HandshakePhase::Request;
                HandshakeStep::Proceed
            },
            InterceptionResult::ModifiedMessage(_) => {
                self.phase = HandshakePhase::Request;
                HandshakeStep::Proceed
            },
        }
    }

    /// Interceptors have seen the whole request of the handshake, which has no body.
    pub fn request(&mut self, verdict: RequestVerdict) -> (r: HandshakeStep)
        requires
            old(self).phase is Request,
        ensures
            r@ == (match verdict {
                RequestVerdict::Continue => HandshakeView::PublishAndProceed,
                RequestVerdict::Drop => HandshakeView::Answer(http_utils::error_view(403, ""@)),
                RequestVerdict::MockResponse => HandshakeView::PublishAndAnswerWithTheirs,
                RequestVerdict::Failed(e) => HandshakeView::Answer(
                    http_utils::error_view(500, "Interceptor Error: "@ + e@),
                ),
            }),
            final(self).flow@ == old(self).flow@,
            same_handshake(*final(self), *old(self)),
            final(self).phase == (if verdict is Continue {
                HandshakePhase::Routing
            } else {
                HandshakePhase::Done
            }),
    {
        self.phase = HandshakePhase::Done;
        match verdict {
            RequestVerdict::Continue => {
                self.phase = HandshakePhase::Routing;
                HandshakeStep::PublishAndProceed
            },
            RequestVerdict::Drop => HandshakeStep::Answer(http_utils::create_error_response(403, "")),
            RequestVerdict::MockResponse => HandshakeStep::PublishAndAnswerWithTheirs,
            RequestVerdict::Failed(e) => {
                let message = text::concat2("Interceptor Error: ", e.as_str());
                HandshakeStep::Answer(http_utils::create_error_response(500, message.as_str()))
            },
        }
    }

    /// Decide where the handshake is sent.
    pub fn route(&mut self, loop_detector: &LoopDetector) -> (r: Result<ForwardRequest, HandshakeStep>)
        requires
            old(self).phase is Routing,
        ensures
            handshake_routed(
                *old(self),
                loop_detector.listening(),
                loop_detector.known_local(),
                final(self).flow@,
                routing_result(r),
            ),
            r matches Ok(q) ==> old(self).flow@.layer is WebSocket && q.method@ == old(self).flow@.layer->handshake_request.method && q.version == Some(HttpVersion::Http11),
            r matches Ok(q) ==> headers::header_entries(q.headers) == headers::all_appended(
                Seq::empty(),
                old(self).flow@.layer->handshake_request.headers,
            ),
            r matches Ok(q) ==> (old(self).policy.transparent_enabled && old(self).target is Some) || urls::uri_of(
                old(self).url_str@,
            ) == Ok::<UriView, Seq<char>>(q@.uri) && final(self).flow@ == old(self).flow@,
            r matches Ok(q) ==> final(self).flow@.layer == old(self).flow@.layer,
            same_handshake(*final(self), *old(self)),
            final(self).phase == (if r is Ok {
                HandshakePhase::Upstream
            } else {
                HandshakePhase::Done
            }),
    {
        let ghost before = *self;
        self.phase = HandshakePhase::Done;
        let mut url = text::copy(self.url_str.as_str());
        if self.policy.transparent_enabled {
            match self.target {
                Some(to) => {
                    http_utils::mark_routed(&mut self.flow, to);
                    if loop_detector.would_loop(to) {
                        match &mut self.flow.layer {
                            Layer::WebSocket(ws) => {
                                ws.handshake_response.status = 508;
                                ws.closed = true;
                            },
                            _ => {},
                        }
                        return Err(
                            HandshakeStep::PublishAndAnswer(
                                http_utils::create_error_response(508, "Loop Detected"),
                            ),
                        );
                    }
                    match &self.flow.layer {
                        Layer::WebSocket(ws) => {
                            let original = &ws.handshake_request.url;
                            let ghost view = original@;
                            let routed = route_handshake_url(
                                original.href.as_str(),
                                original.scheme.as_str(),
                                to,
                                self.is_mitm,
                            );
                            assert(text::text_opt(routed) == routed_handshake_url(view, to, self.is_mitm));
                            match routed {
                                Some(u) => {
                                    url = u;
                                },
                                None => {},
                            }
                        },
                        _ => {},
                    }
                },
                None => {},
            }
        }
        match &self.flow.layer {
            Layer::WebSocket(ws) => {
                let built = build_handshake(&ws.handshake_request, url.as_str());
                assert(handshake_request_outcome(
                    ws.handshake_request@,
                    url@,
                    http_utils::forward_result(built),
                ));
                match built {
                    Ok(x) => {
                        self.phase = HandshakePhase::Upstream;
                        Ok(x)
                    },
                    Err(w) => Err(HandshakeStep::Answer(w)),
                }
            },
            _ => Err(
                HandshakeStep::Answer(http_utils::create_error_response(500, "Invalid Flow Layer State")),
            ),
        }
    }

    /// The upstream answered: it switches protocols, or its response is read to its end.
    pub fn upstream_answered(&mut self, head: &ResponseHead) -> (r: AnswerStep)
        requires
            old(self).phase is Upstream,
        ensures
            match r {
                AnswerStep::Switch(w) => head.status == 101 && switching(head@, w@),
                AnswerStep::ReadBody => head.status != 101,
            },
            r matches AnswerStep::Switch(w) ==> (headers::flat(head@.headers).len() <= headers::FIELD_CAPACITY
                ==> w.head.status == 101 && headers::header_entries(w.head.headers) == refilled(
                headers::flat(head@.headers),
            )),
            final(self).flow@ == old(self).flow@,
            same_handshake(*final(self), *old(self)),
            final(self).phase == (if r is Switch {
                HandshakePhase::Done
            } else {
                HandshakePhase::Upstream
            }),
    {
        if head.status == 101 {
            self.phase = HandshakePhase::Done;
            AnswerStep::Switch(switching_response(head))
        } else {
            AnswerStep::ReadBody
        }
    }

    /// The upstream answered with an ordinary response: the handshake failed, the response is
    /// recorded, and the client gets it as it came.
    pub fn upstream_refused(&mut self, head: ResponseHead, body: Vec<u8>) -> (r: HandshakeStep)
        requires
            old(self).phase is Upstream,
            urls::valid_status(head.status),
        ensures
            r@ == HandshakeView::PublishAndAnswer(WireView { head: head@, body: body@ }),
            final(self).flow@ == (FlowView {
                layer: refused(old(self).flow@.layer, refused_response(head@, body@)),
                ..old(self).flow@
            }),
            old(self).flow@.layer is WebSocket ==> (final(self).flow@.layer matches LayerView::WebSocket {
                handshake_request,
                handshake_response,
                messages,
                closed,
            } && handshake_request == old(self).flow@.layer->handshake_request && messages == old(self).flow@.layer->messages && closed && handshake_response.status == head.status && http_utils::version_of(
                handshake_response.version,
            ) == head.version && handshake_response.headers == headers::listed(head@.headers)
                && handshake_response.body is Some && handshake_response.body->0.content == headers::lossy_text(body@)
                && handshake_response.body->0.size == body@.len() as u64),
            final(self).phase is Done,
            same_handshake(*final(self), *old(self)),
    {
        proof {
            http_utils::law_versions_survive_the_record(head.version);
        }
        let reason = match urls::status_reason(head.status) {
            Some(s) => s,
            None => text::copy("Unknown"),
        };
        let recorded = HttpResponse {
            status: head.status,
            status_text: reason,
            version: head.version.write(),
            headers: headers::list(&head.headers),
            cookies: Vec::new(),
            body: Some(
                BodyData {
                    encoding: text::copy("utf-8"),
                    content: headers::lossy(body.as_slice()),
                    size: body.len() as u64,
                    grpc: None,
                },
            ),
            trailers: Vec::new(),
            timing: ResponseTiming::none(),
        };
        assert(recorded@ =~= refused_response(head@, body@));
        match &mut self.flow.layer {
            Layer::WebSocket(ws) => {
                ws.handshake_response = recorded;
                ws.closed = true;
            },
            _ => {},
        }
        self.phase = HandshakePhase::Done;
        HandshakeStep::PublishAndAnswer(WireResponse { head, body })
    }

    /// The upstream gave no answer: what went wrong, or nothing where it took too long.
    pub fn upstream_failed(&mut self, error: Option<String>) -> (r: HandshakeStep)
        requires
            old(self).phase is Upstream,
        ensures
            r@ == HandshakeView::Answer(
                match error {
                    Some(e) => http_utils::error_view(502, "Upstream Handshake Failed: "@ + e@),
                    None => http_utils::error_view(504, "Upstream Handshake Timed Out"@),
                },
            ),
            final(self).flow@ == old(self).flow@,
            final(self).phase is Done,
            same_handshake(*final(self), *old(self)),
    {
        self.phase = HandshakePhase::Done;
        match error {
            Some(e) => {
                let message = text::concat2("Upstream Handshake Failed: ", e.as_str());
                HandshakeStep::Answer(http_utils::create_error_response(502, message.as_str()))
            },
            None => HandshakeStep::Answer(http_utils::create_error_response(504, "Upstream Handshake Timed Out")),
        }
    }
}

/// A handshake that would lead back to the proxy is refused and recorded as closed.
pub proof fn law_looping_handshakes_are_closed(
    before: Handshake,
    listen: Seq<SocketAddress>,
    known: Seq<crate::addr::IpAddress>,
    to: SocketAddress,
    after: FlowView,
    r: Result<ForwardView, HandshakeView>,
)
    requires
        before.policy.transparent_enabled,
        before.target == Some(to),
        before.flow@.layer is WebSocket,
        loop_detection::loops(listen, known, to),
        handshake_routed(before, listen, known, after, r),
    ensures
        r is Err,
        after.layer is WebSocket,
        after.layer->closed,
        after.layer->handshake_response.status == 508,
{
}

/// Why one side closes.
#[derive(Clone, Debug)]
pub struct CloseFrame {
    pub code: u16,
    pub reason: String,
}

/// A message on the wire. The contents of a raw frame stay with the host.
#[derive(Clone, Debug)]
pub enum WireMessage {
    Text(String),
    Binary(Vec<u8>),
    Ping(Vec<u8>),
    Pong(Vec<u8>),
    Close(Option<CloseFrame>),
    Frame,
}

/// What a message on the wire holds.
#[verifier::ext_equal]
pub enum WireMessageView {
    Text(Seq<char>),
    Binary(Seq<u8>),
    Ping(Seq<u8>),
    Pong(Seq<u8>),
    Close(Option<(u16, Seq<char>)>),
    Frame,
}

impl View for WireMessage {
    type V = WireMessageView;

    open spec fn view(&self) -> WireMessageView {
        match *self {
            WireMessage::Text(t) => WireMessageView::Text(t@),
            WireMessage::Binary(b) => WireMessageView::Binary(b@),
            WireMessage::Ping(b) => WireMessageView::Ping(b@),
            WireMessage::Pong(b) => WireMessageView::Pong(b@),
            WireMessage::Close(Some(f)) => WireMessageView::Close(Some((f.code, f.reason@))),
            WireMessage::Close(None) => WireMessageView::Close(None),
            WireMessage::Frame => WireMessageView::Frame,
        }
    }
}

/// What is recorded of the payload of a message.
pub open spec fn payload(encoding: Seq<char>, content: Seq<char>, size: nat) -> BodyView {
    BodyView { encoding, content, size: size as u64, grpc: None }
}

/// What is recorded of a message: its kind and its payload. A raw frame is not recorded.
pub open spec fn recorded_message(msg: WireMessageView) -> Option<(Seq<char>, BodyView)> {
    match msg {
        WireMessageView::Text(t) => Some(("Text"@, payload("utf-8"@, t, vstd::utf8::encode_utf8(t).len()))),
        WireMessageView::Binary(b) => Some(("Binary"@, payload("base64"@, body_codec::base64(b), b.len()))),
        WireMessageView::Ping(b) => Some(("Ping"@, payload("base64"@, body_codec::base64(b), b.len()))),
        WireMessageView::Pong(b) => Some(("Pong"@, payload("base64"@, body_codec::base64(b), b.len()))),
        WireMessageView::Close(_) => Some(("Close"@, payload("none"@, Seq::empty(), 0))),
        WireMessageView::Frame => None,
    }
}

/// The bytes of base64 content; none where it is not base64.
pub open spec fn decoded_or_empty(content: Seq<char>) -> Seq<u8> {
    match body_codec::unbase64(content) {
        Some(b) => b,
        None => Seq::empty(),
    }
}

/// The message a record stands for. A kind that is not known is sent as text.
pub open spec fn message_on_wire(opcode: Seq<char>, content: Seq<char>) -> WireMessageView {
    if opcode == "Text"@ {
        WireMessageView::Text(content)
    } else if opcode == "Binary"@ {
        WireMessageView::Binary(decoded_or_empty(content))
    } else if opcode == "Ping"@ {
        WireMessageView::Ping(decoded_or_empty(content))
    } else if opcode == "Pong"@ {
        WireMessageView::Pong(decoded_or_empty(content))
    } else if opcode == "Close"@ {
        WireMessageView::Close(None)
    } else {
        WireMessageView::Text(content)
    }
}

/// A message as it leaves once it has been recorded: what a closing message says is not recorded.
pub open spec fn as_recorded(msg: WireMessageView) -> WireMessageView {
    match msg {
        WireMessageView::Close(_) => WireMessageView::Close(None),
        other => other,
    }
}

proof fn lemma_kinds_differ()
    ensures
        "Text"@ != "Binary"@,
        "Text"@ != "Ping"@,
        "Text"@ != "Pong"@,
        "Text"@ != "Close"@,
        "Binary"@ != "Ping"@,
        "Binary"@ != "Pong"@,
        "Binary"@ != "Close"@,
        "Ping"@ != "Pong"@,
        "Ping"@ != "Close"@,
        "Pong"@ != "Close"@,
{
    reveal_strlit("Text");
    reveal_strlit("Binary");
    reveal_strlit("Ping");
    reveal_strlit("Pong");
    reveal_strlit("Close");
    assert("Text"@[0] == 'T');
    assert("Binary"@[0] == 'B');
    assert("Ping"@[0] == 'P' && "Ping"@[1] == 'i');
    assert("Pong"@[0] == 'P' && "Pong"@[1] == 'o');
    assert("Close"@[0] == 'C');
}

/// Record a message under a given identifier and time. What is recorded is sent on as the same
/// message, but for what a closing message says.
pub fn record_message(msg: &WireMessage, direction: Direction, id: u128, now: Timestamp) -> (r: Option<WebSocketMessage>)
    ensures
        match r {
            Some(m) => recorded_message(msg@) == Some((m@.opcode, m@.content)) && m@.id == id && m@.timestamp == now
                && m@.direction == direction && message_on_wire(m@.opcode, m@.content.content)
                == as_recorded(msg@),
            None => recorded_message(msg@) is None,
        },
        msg is Frame <==> r is None,
        r matches Some(m) ==> m.id == id && m.timestamp == now && m.direction == direction,
        msg matches WireMessage::Text(t) ==> (r matches Some(m) && m.opcode@ == "Text"@ && m.content.content@ == t@
            && m.content.encoding@ == "utf-8"@),
        msg matches WireMessage::Binary(b) ==> (r matches Some(m) && m.opcode@ == "Binary"@ && body_codec::unbase64(
            m.content.content@,
        ) == Some(b@) && m.content.encoding@ == "base64"@ && m.content.size == b@.len()),
        msg matches WireMessage::Ping(b) ==> (r matches Some(m) && m.opcode@ == "Ping"@ && body_codec::unbase64(
            m.content.content@,
        ) == Some(b@)),
        msg matches WireMessage::Pong(b) ==> (r matches Some(m) && m.opcode@ == "Pong"@ && body_codec::unbase64(
            m.content.content@,
        ) == Some(b@)),
        msg is Close ==> (r matches Some(m) && m.opcode@ == "Close"@ && m.content.content@.len() == 0),
{
    proof {
        lemma_kinds_differ();
        reveal_strlit("");
    }
    let (opcode, content, encoding, size) = match msg {
        WireMessage::Text(t) => (
            text::copy("Text"),
            text::copy(t.as_str()),
            text::copy("utf-8"),
            t.as_str().as_bytes().len(),
        ),
        WireMessage::Binary(b) => (
            text::copy("Binary"),
            body_codec::to_base64(b.as_slice()),
            text::copy("base64"),
            b.len(),
        ),
        WireMessage::Ping(b) => (
            text::copy("Ping"),
            body_codec::to_base64(b.as_slice()),
            text::copy("base64"),
            b.len(),
        ),
        WireMessage::Pong(b) => (
            text::copy("Pong"),
            body_codec::to_base64(b.as_slice()),
            text::copy("base64"),
            b.len(),
        ),
        WireMessage::Close(_) => (text::copy("Close"), String::new(), text::copy("none"), 0usize),
        WireMessage::Frame => {
            return None;
        },
    };
    Some(
        WebSocketMessage {
            id,
            timestamp: now,
            direction,
            content: BodyData { encoding, content, size: size as u64, grpc: None },
            opcode,
        },
    )
}

/// Record a message.
pub fn tungstenite_to_flow_msg(msg: &WireMessage, direction: Direction) -> (r: Option<WebSocketMessage>)
    ensures
        match r {
            Some(m) => recorded_message(msg@) == Some((m@.opcode, m@.content)) && m@.direction == direction
                && message_on_wire(m@.opcode, m@.content.content)
                == as_recorded(msg@),
            None => recorded_message(msg@) is None,
        },
        msg is Frame <==> r is None,
        msg matches WireMessage::Text(t) ==> (r matches Some(m) && m.opcode@ == "Text"@ && m.content.content@ == t@),
        msg matches WireMessage::Binary(b) ==> (r matches Some(m) && m.opcode@ == "Binary"@ && body_codec::unbase64(
            m.content.content@,
        ) == Some(b@)),
        r matches Some(m) ==> m.direction == direction,
{
    let id: u128 = urls::new_id();
    let now = urls::now();
    record_message(msg, direction, id, now)
}

/// The message a record stands for.
pub fn flow_msg_to_tungstenite(msg: &WebSocketMessage) -> (r: WireMessage)
    ensures
        r@ == message_on_wire(msg@.opcode, msg@.content.content),
        msg.opcode@ == "Text"@ ==> r@ == WireMessageView::Text(msg.content.content@),
        msg.opcode@ == "Binary"@ ==> (body_codec::unbase64(msg.content.content@) matches Some(b) ==> r@
            == WireMessageView::Binary(b)),
        msg.opcode@ == "Ping"@ ==> (body_codec::unbase64(msg.content.content@) matches Some(b) ==> r@
            == WireMessageView::Ping(b)),
        msg.opcode@ == "Pong"@ ==> (body_codec::unbase64(msg.content.content@) matches Some(b) ==> r@
            == WireMessageView::Pong(b)),
        msg.opcode@ == "Close"@ ==> r is Close,
{
    proof {
        lemma_kinds_differ();
    }
    let opcode = msg.opcode.as_str();
    let content = msg.content.content.as_str();
    if text::same_text(opcode, "Text") {
        return WireMessage::Text(text::copy(content));
    }
    if text::same_text(opcode, "Close") {
        proof {
            lemma_kinds_differ();
        }
        return WireMessage::Close(None);
    }
    let binary = text::same_text(opcode, "Binary");
    let ping = text::same_text(opcode, "Ping");
    let pong = text::same_text(opcode, "Pong");
    if !binary && !ping && !pong {
        return WireMessage::Text(text::copy(content));
    }
    let bytes = match body_codec::from_base64(content) {
        Some(b) => b,
        None => Vec::new(),
    };
    proof {
        lemma_kinds_differ();
        assert(bytes@ =~= decoded_or_empty(content@));
    }
    if binary {
        WireMessage::Binary(bytes)
    } else if ping {
        WireMessage::Ping(bytes)
    } else {
        WireMessage::Pong(bytes)
    }
}

/// What happened in a tunnel.
#[derive(Clone, Debug)]
pub enum TunnelEvent {
    /// A message came from one side.
    Received { direction: Direction, message: WireMessage },
    /// One side failed.
    Failed(String),
    /// One side ended.
    Ended,
    /// Neither side sent anything for as long as a tunnel may be quiet.
    Idle,
}

/// What interceptors made of a message.
#[derive(Clone, Debug)]
pub enum MessageVerdict {
    Continue(WebSocketMessage),
    Drop,
    Failed,
}

/// What a tunnel does next.
#[derive(Clone, Debug)]
pub enum TunnelAction {
    /// Interceptors see the message before it goes on.
    Intercept(WebSocketMessage),
    /// The message goes to the other side as it came.
    PassOn,
    /// This goes to the other side, and is then published.
    Send { message: WireMessage, publish: FlowUpdate },
    /// The message goes to the other side as it came, and is then published.
    PassOnAndPublish(FlowUpdate),
    /// Nothing goes on.
    Skip,
    /// The tunnel is over; interceptors are told how it ended.
    End { code: u16, reason: String },
    /// The tunnel is over with an error; interceptors are told of it where `told` says so.
    Fail { error: String, told: bool },
}

/// What a tunnel does about an event.
pub open spec fn tunnel_reaction(event: TunnelEvent, action: TunnelAction) -> bool {
    match event {
        TunnelEvent::Received { direction, message } => match recorded_message(message@) {
            Some(rec) => action matches TunnelAction::Intercept(m) && (m@.opcode, m@.content) == rec && m@.direction
                == direction && message_on_wire(m@.opcode, m@.content.content) == as_recorded(message@),
            None => action is PassOn,
        },
        TunnelEvent::Failed(e) => action matches TunnelAction::Fail { error, told } && error@ == e@ && told,
        TunnelEvent::Ended => action matches TunnelAction::End { code, reason } && code == 1000 && reason@
            == "normal"@,
        TunnelEvent::Idle => action matches TunnelAction::Fail { error, told } && error@ == "WebSocket Idle Timeout"@
            && told,
    }
}

/// Decide what a tunnel does about an event.
pub fn on_tunnel_event(event: TunnelEvent) -> (r: TunnelAction)
    ensures
        tunnel_reaction(event, r),
        event matches TunnelEvent::Received { direction, message } ==> (if message is Frame {
            r is PassOn
        } else {
            r matches TunnelAction::Intercept(m) && m.direction == direction && (message matches WireMessage::Text(t)
                ==> m.opcode@ == "Text"@ && m.content.content@ == t@) && (message matches WireMessage::Binary(b)
                ==> m.opcode@ == "Binary"@ && body_codec::unbase64(m.content.content@) == Some(b@))
        }),
        event matches TunnelEvent::Failed(e) ==> (r matches TunnelAction::Fail { error, told } && error@ == e@ && told),
        event is Ended ==> (r matches TunnelAction::End { code, reason } && code == 1000),
        event is Idle ==> r is Fail,
{
    match event {
        TunnelEvent::Received { direction, message } => match tungstenite_to_flow_msg(&message, direction) {
            Some(m) => TunnelAction::Intercept(m),
            None => TunnelAction::PassOn,
        },
        TunnelEvent::Failed(e) => TunnelAction::Fail { error: e, told: true },
        TunnelEvent::Ended => TunnelAction::End { code: 1000, reason: text::copy("normal") },
        TunnelEvent::Idle => TunnelAction::Fail { error: text::copy("WebSocket Idle Timeout"), told: true },
    }
}

/// What a tunnel does once interceptors have seen a message.
pub open spec fn verdict_reaction(
    flow_id: u128,
    recorded: WsMessageView,
    verdict: MessageVerdict,
    action: TunnelAction,
) -> bool {
    match verdict {
        MessageVerdict::Drop => action is Skip,
        MessageVerdict::Continue(m) => action matches TunnelAction::Send { message, publish } && message@
            == message_on_wire(m@.opcode, m@.content.content) && publish@ == (UpdateView::WebSocketMessage {
            flow_id: urls::id_text(flow_id),
            message: m@,
        }),
        MessageVerdict::Failed => action matches TunnelAction::PassOnAndPublish(publish) && publish@ == (
        UpdateView::WebSocketMessage { flow_id: urls::id_text(flow_id), message: recorded }),
    }
}

/// Decide what a tunnel does once interceptors have seen a message. An interceptor that fails does
/// not stop the message.
pub fn on_message_verdict(flow_id: u128, recorded: WebSocketMessage, verdict: MessageVerdict) -> (r: TunnelAction)
    ensures
        verdict_reaction(flow_id, recorded@, verdict, r),
        verdict is Drop ==> r is Skip,
        verdict matches MessageVerdict::Continue(m) ==> (r matches TunnelAction::Send { message, publish } && (
        publish matches FlowUpdate::WebSocketMessage { flow_id: id, message: told } && id@ == urls::id_text(flow_id)
            && told@ == m@) && (m.opcode@ == "Text"@ ==> message@ == WireMessageView::Text(m.content.content@)) && (
        m.opcode@ == "Binary"@ ==> (body_codec::unbase64(m.content.content@) matches Some(b) ==> message@
            == WireMessageView::Binary(b)))),
        verdict is Failed ==> (r matches TunnelAction::PassOnAndPublish(publish) && (
        publish matches FlowUpdate::WebSocketMessage { flow_id: id, message: told } && id@ == urls::id_text(flow_id)
            && told@ == recorded@)),
{
    match verdict {
        MessageVerdict::Drop => TunnelAction::Skip,
        MessageVerdict::Continue(m) => {
            let message = flow_msg_to_tungstenite(&m);
            TunnelAction::Send {
                message,
                publish: FlowUpdate::WebSocketMessage { flow_id: urls::write_id(flow_id), message: m },
            }
        },
        MessageVerdict::Failed => TunnelAction::PassOnAndPublish(
            FlowUpdate::WebSocketMessage { flow_id: urls::write_id(flow_id), message: recorded },
        ),
    }
}

/// Decide what a tunnel does when a message could not be sent: it is over, and interceptors are told
/// unless one of them had failed on that very message.
pub fn on_send_failure(action: &TunnelAction, error: String) -> (r: TunnelAction)
    ensures
        r == (TunnelAction::Fail { error, told: !(*action is PassOnAndPublish) }),
{
    match action {
        TunnelAction::PassOnAndPublish(_) => TunnelAction::Fail { error, told: false },
        _ => TunnelAction::Fail { error, told: true },
    }
}

/// A message that interceptors let pass unchanged goes to the other side as it came, but for what a
/// closing message says.
pub proof fn law_untouched_messages_arrive_unchanged(
    flow_id: u128,
    direction: Direction,
    message: WireMessage,
    first: TunnelAction,
    second: TunnelAction,
)
    requires
        tunnel_reaction(TunnelEvent::Received { direction, message }, first),
        first matches TunnelAction::Intercept(m) ==> verdict_reaction(
            flow_id,
            m@,
            MessageVerdict::Continue(m),
            second,
        ),
    ensures
        first is PassOn || first is Intercept,
        first is Intercept ==> (second matches TunnelAction::Send { message: sent, .. } && sent@ == as_recorded(
            message@,
        )),
        !(message is Close) ==> as_recorded(message@) == message@,
{
}

proof fn lemma_refilled_values(fields: Seq<(Seq<char>, Seq<u8>)>, name: Seq<char>)
    ensures
        headers::values(refilled(fields), name) == headers::field_values(fields, name),
    decreases fields.len(),
{
    if fields.len() == 0 {
        headers::lemma_position(Seq::empty(), name);
        assert(headers::values(refilled(fields), name) =~= headers::field_values(fields, name));
    } else {
        lemma_refilled_values(fields.drop_last(), name);
        headers::lemma_appended_values(refilled(fields.drop_last()), fields.last().0, fields.last().1, name);
    }
}

/// A client whose upstream switches protocols is told so with every field the upstream sent: under
/// each name it gets the upstream's values, in their order.
pub proof fn law_switching_answers_pass_every_field_on(head: HeadView, sent: WireView, name: Seq<char>)
    requires
        switching(head, sent),
        headers::flat(head.headers).len() <= headers::FIELD_CAPACITY,
    ensures
        sent.head.status == 101,
        sent.head.version == head.version,
        sent.body.len() == 0,
        headers::values(sent.head.headers, name) == headers::field_values(headers::flat(head.headers), name),
        headers::distinct_names(head.headers) ==> headers::values(sent.head.headers, name) == headers::values(
            head.headers,
            name,
        ),
{
    lemma_refilled_values(headers::flat(head.headers), name);
    if headers::distinct_names(head.headers) {
        headers::law_walking_meets_every_value(head.headers, name);
    }
}

/// The handshake that is sent is the recorded one: its method, and under every name its values. It
/// goes to the URL the client asked for, or to the address the connection was made to.
pub proof fn law_the_recorded_handshake_is_sent(
    before: Handshake,
    listen: Seq<SocketAddress>,
    known: Seq<crate::addr::IpAddress>,
    after: FlowView,
    r: Result<ForwardView, HandshakeView>,
    name: Seq<char>,
)
    requires
        handshake_routed(before, listen, known, after, r),
        r is Ok,
    ensures
        before.flow@.layer is WebSocket,
        after.layer == before.flow@.layer,
        r->Ok_0.method == before.flow@.layer->handshake_request.method,
        headers::values(r->Ok_0.headers, name) == headers::listed_values(
            before.flow@.layer->handshake_request.headers,
            name,
        ),
        !before.policy.transparent_enabled || before.target is None ==> after == before.flow@ && urls::uri_of(
            before.url_str@,
        ) == Ok::<UriView, Seq<char>>(r->Ok_0.uri),
        before.policy.transparent_enabled ==> (before.target matches Some(to) ==> after.network.server_ip
            == addr::ip_text(to.ip) && after.network.server_port == to.port && ({
            let url = before.flow@.layer->handshake_request.url;
            urls::url_with_ip(url.href, to.ip) matches Some(h) ==> (urls::url_with_port(h, to.port) matches Some(p) ==> {
                &&& before.is_mitm && (url.scheme == "http"@ || url.scheme == "ws"@) ==> (urls::url_with_scheme(
                    p,
                    "wss"@,
                ) matches Some(s) ==> urls::uri_of(s) == Ok::<UriView, Seq<char>>(r->Ok_0.uri))
                &&& !before.is_mitm && (url.scheme == "https"@ || url.scheme == "wss"@) ==> (urls::url_with_scheme(
                    p,
                    "ws"@,
                ) matches Some(s) ==> urls::uri_of(s) == Ok::<UriView, Seq<char>>(r->Ok_0.uri))
                &&& before.is_mitm && url.scheme != "http"@ && url.scheme != "ws"@ ==> urls::uri_of(p) == Ok::<
                    UriView,
                    Seq<char>,
                >(r->Ok_0.uri)
                &&& !before.is_mitm && url.scheme != "https"@ && url.scheme != "wss"@ ==> urls::uri_of(p) == Ok::<
                    UriView,
                    Seq<char>,
                >(r->Ok_0.uri)
            })
        })),
{
    let list = before.flow@.layer->handshake_request.headers;
    headers::law_fields_keep_their_values(Seq::empty(), list, name);
    headers::lemma_position(Seq::empty(), name);
    assert(headers::values(Seq::empty(), name) =~= Seq::empty());
    assert(Seq::<Seq<u8>>::empty() + headers::listed_values(list, name) =~= headers::listed_values(list, name));
}

/// A handshake with a valid method and a URL that can be a target is sent, unless it is routed or
/// its fields are very many.
pub proof fn law_sendable_handshakes_are_sent(
    before: Handshake,
    listen: Seq<SocketAddress>,
    known: Seq<crate::addr::IpAddress>,
    after: FlowView,
    r: Result<ForwardView, HandshakeView>,
)
    requires
        handshake_routed(before, listen, known, after, r),
        before.flow@.layer is WebSocket,
        before.target is None,
        urls::valid_method(before.flow@.layer->handshake_request.method),
        urls::uri_of(before.url_str@) is Ok,
        before.flow@.layer->handshake_request.headers.len() <= headers::FIELD_CAPACITY,
    ensures
        r is Ok,
{
}

/// What is wrong with a strict handshake: no key, or another version than 13.
pub proof fn law_strict_handshakes_name_key_and_version(entries: Seq<(Seq<char>, Seq<Seq<u8>>)>)
    ensures
        strict_fault(entries) is None <==> headers::values(entries, "sec-websocket-key"@).len() > 0 && headers::values(
            entries,
            "sec-websocket-version"@,
        ).len() > 0 && headers::values(entries, "sec-websocket-version"@)[0] == vstd::utf8::encode_utf8("13"@),
{
}

/// An upstream that answers a handshake with an ordinary response is recorded with its status, its
/// fields and its body, and the exchange is closed.
pub proof fn law_refused_handshakes_are_recorded(layer: LayerView, head: HeadView, body: Seq<u8>)
    requires
        layer is WebSocket,
    ensures
        ({
            let after = refused(layer, refused_response(head, body));
            &&& after is WebSocket
            &&& after->closed
            &&& after->handshake_request == layer->handshake_request
            &&& after->messages == layer->messages
            &&& after->handshake_response.status == head.status
            &&& http_utils::version_of(after->handshake_response.version) == head.version
            &&& after->handshake_response.headers == headers::listed(head.headers)
            &&& after->handshake_response.body is Some
            &&& after->handshake_response.body->0.content == headers::lossy_text(body)
            &&& after->handshake_response.body->0.encoding == "utf-8"@
            &&& after->handshake_response.body->0.size == body.len() as u64
            &&& urls::reason_of(head.status) matches Some(reason) ==> after->handshake_response.status_text == reason
        }),
{
    http_utils::law_versions_survive_the_record(head.version);
}

/// A changed message goes to the other side as it was changed and is published so; a dropped one
/// goes nowhere.
pub proof fn law_changed_messages_are_sent_as_changed(
    flow_id: u128,
    recorded: WsMessageView,
    verdict: MessageVerdict,
    action: TunnelAction,
)
    requires
        verdict_reaction(flow_id, recorded, verdict, action),
    ensures
        verdict is Drop ==> action is Skip,
        verdict matches MessageVerdict::Continue(m) ==> (action matches TunnelAction::Send { message, publish } && (
        publish@ matches UpdateView::WebSocketMessage { flow_id: id, message: told } && id == urls::id_text(flow_id)
            && told == m@) && (m.opcode@ == "Text"@ ==> message@ == WireMessageView::Text(m.content.content@)) && (
        m.opcode@ == "Binary"@ ==> (body_codec::unbase64(m.content.content@) matches Some(b) ==> message@
            == WireMessageView::Binary(b)))),
        verdict is Failed ==> (action matches TunnelAction::PassOnAndPublish(publish) && (
        publish@ matches UpdateView::WebSocketMessage { flow_id: id, message: told } && id == urls::id_text(flow_id)
            && told == recorded)),
{
    lemma_kinds_differ();
}

/// A message is recorded under its kind and with its size: text as it reads, bytes as base64, and of
/// a closing message only that it came.
pub proof fn law_messages_are_recorded_by_kind(content: Seq<char>, bytes: Seq<u8>, msg: WireMessageView)
    ensures
        ({
            let text_record = recorded_message(WireMessageView::Text(content));
            let binary_record = recorded_message(WireMessageView::Binary(bytes));
            let ping_record = recorded_message(WireMessageView::Ping(bytes));
            let pong_record = recorded_message(WireMessageView::Pong(bytes));
            &&& text_record matches Some(r) && r.0 == "Text"@ && r.1.encoding == "utf-8"@ && r.1.content == content
                && r.1.size == vstd::utf8::encode_utf8(content).len() as u64
            &&& binary_record matches Some(r) && r.0 == "Binary"@ && r.1.encoding == "base64"@ && r.1.content
                == body_codec::base64(bytes) && r.1.size == bytes.len() as u64
            &&& ping_record matches Some(r) && r.0 == "Ping"@ && r.1.content == body_codec::base64(bytes)
            &&& pong_record matches Some(r) && r.0 == "Pong"@ && r.1.content == body_codec::base64(bytes)
            &&& msg is Close ==> (recorded_message(msg) matches Some(r) && r.0 == "Close"@ && r.1.content.len() == 0
                && r.1.size == 0)
            &&& recorded_message(msg) is None <==> msg is Frame
        }),
{
}

/// Recorded messages are sent by their kind; one of no known kind is sent as text.
pub proof fn law_recorded_kinds_are_sent(opcode: Seq<char>, content: Seq<char>, bytes: Seq<u8>)
    requires
        body_codec::unbase64(content) == Some(bytes),
    ensures
        opcode == "Text"@ ==> message_on_wire(opcode, content) == WireMessageView::Text(content),
        opcode == "Binary"@ ==> message_on_wire(opcode, content) == WireMessageView::Binary(bytes),
        opcode == "Ping"@ ==> message_on_wire(opcode, content) == WireMessageView::Ping(bytes),
        opcode == "Pong"@ ==> message_on_wire(opcode, content) == WireMessageView::Pong(bytes),
        opcode == "Close"@ ==> message_on_wire(opcode, content) is Close,
        opcode != "Binary"@ && opcode != "Ping"@ && opcode != "Pong"@ && opcode != "Close"@ ==> message_on_wire(
            opcode,
            content,
        ) == WireMessageView::Text(content),
{
    lemma_kinds_differ();
}

/// A handshake goes to the host of its target, and to the port it names or else to that of its
/// scheme.
pub proof fn law_handshakes_go_to_their_endpoint(uri: UriView)
    ensures
        uri.host matches Some(h) ==> endpoint_of(uri).0 == h,
        uri.port matches Some(p) ==> endpoint_of(uri).1 == p,
        uri.port is None && (uri.scheme == Some("https"@) || uri.scheme == Some("wss"@)) ==> endpoint_of(uri).1 == 443,
        uri.port is None && uri.scheme != Some("https"@) && uri.scheme != Some("wss"@) ==> endpoint_of(uri).1 == 80,
{
}

/// A tunnel that ends closes normally; one that fails or stays silent for too long fails, and both
/// sides are told.
pub proof fn law_tunnels_end_as_they_should(event: TunnelEvent, action: TunnelAction)
    requires
        tunnel_reaction(event, action),
    ensures
        event is Ended ==> (action matches TunnelAction::End { code, reason } && code == 1000 && reason@ == "normal"@),
        event is Idle ==> (action matches TunnelAction::Fail { error, told } && told && error@
            == "WebSocket Idle Timeout"@),
        event matches TunnelEvent::Failed(e) ==> (action matches TunnelAction::Fail { error, told } && told && error@
            == e@),
        action is End ==> event is Ended,
        event matches TunnelEvent::Received { direction, message } ==> (action matches TunnelAction::Intercept(m)
            && m.direction == direction) || (action is PassOn && message@ is Frame),
{
}

} // verus!
