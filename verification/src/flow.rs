//! The record of one exchange as it passes through the proxy.
use vstd::prelude::*;

use crate::table;
use crate::text;

verus! {

/// The names and values of a list of header fields or query parameters.
pub open spec fn pairs(list: Seq<(String, String)>) -> Seq<(Seq<char>, Seq<char>)> {
    list.map_values(|p: (String, String)| (p.0@, p.1@))
}

/// A table from names to values.
#[derive(Clone, Debug)]
pub struct TextMap {
    entries: Vec<(String, String)>,
}

impl View for TextMap {
    type V = Map<Seq<char>, Seq<char>>;

    closed spec fn view(&self) -> Map<Seq<char>, Seq<char>> {
        table::table_of(pairs(self.entries@))
    }
}

impl TextMap {
    /// A table without entries.
    pub fn new() -> (r: Self)
        ensures
            r@ == Map::<Seq<char>, Seq<char>>::empty(),
    {
        TextMap { entries: Vec::new() }
    }

    fn find(&self, key: &str) -> (r: Option<usize>)
        ensures
            match r {
                Some(i) => i < self.entries@.len() && self.entries@[i as int].0@ == key@ && self@.dom().contains(key@)
                    && self@[key@] == self.entries@[i as int].1@ && forall|j: int|
                    i < j < self.entries@.len() ==> (#[trigger] self.entries@[j]).0@ != key@,
                None => !self@.dom().contains(key@) && forall|j: int|
                    0 <= j < self.entries@.len() ==> (#[trigger] self.entries@[j]).0@ != key@,
            },
    {
        let mut i: usize = self.entries.len();
        let ghost all = pairs(self.entries@);
        while i > 0
            invariant
                i <= self.entries@.len(),
                all == pairs(self.entries@),
                forall|j: int| i <= j < self.entries@.len() ==> (#[trigger] self.entries@[j]).0@ != key@,
            decreases i,
        {
            if text::same_text(self.entries[i - 1].0.as_str(), key) {
                proof {
                    table::lemma_lookup(all, key@, i - 1);
                }
                return Some(i - 1);
            }
            i = i - 1;
        }
        proof {
            table::lemma_lookup(all, key@, -1);
        }
        None
    }

    /// Set the value of a name.
    pub fn insert(&mut self, key: String, value: String)
        ensures
            final(self)@ == old(self)@.insert(key@, value@),
    {
        let ghost before = pairs(self.entries@);
        match self.find(key.as_str()) {
            Some(i) => {
                proof {
                    table::lemma_update(before, i as int, value@);
                }
                let ghost v = value@;
                self.entries.set(i, (key, value));
                assert(pairs(self.entries@) =~= before.update(i as int, (before[i as int].0, v)));
            },
            None => {
                let ghost k = key@;
                let ghost v = value@;
                self.entries.push((key, value));
                assert(pairs(self.entries@) =~= before.push((k, v)));
                assert(pairs(self.entries@).drop_last() =~= before);
            },
        }
    }

    /// The value of a name, where it has one.
    pub fn get(&self, key: &str) -> (r: Option<&String>)
        ensures
            match r {
                Some(v) => self@.dom().contains(key@) && v@ == self@[key@],
                None => !self@.dom().contains(key@),
            },
    {
        match self.find(key) {
            Some(i) => Some(&self.entries[i].1),
            None => None,
        }
    }

    /// Whether a name has a value.
    pub fn contains_key(&self, key: &str) -> (r: bool)
        ensures
            r == self@.dom().contains(key@),
    {
        self.find(key).is_some()
    }

    /// The entries, one per name.
    pub fn entries(&self) -> (r: &Vec<(String, String)>)
        ensures
            table::table_of(pairs(r@)) == self@,
    {
        &self.entries
    }
}

/// A cookie as a request or a response carried it.
#[derive(Clone, Debug)]
pub struct Cookie {
    pub name: String,
    pub value: String,
    pub path: Option<String>,
    pub domain: Option<String>,
    pub expires: Option<String>,
    pub http_only: Option<bool>,
    pub secure: Option<bool>,
}

/// What a cookie holds.
#[verifier::ext_equal]
pub struct CookieView {
    pub name: Seq<char>,
    pub value: Seq<char>,
    pub path: Option<Seq<char>>,
    pub domain: Option<Seq<char>>,
    pub expires: Option<Seq<char>>,
    pub http_only: Option<bool>,
    pub secure: Option<bool>,
}

impl View for Cookie {
    type V = CookieView;

    open spec fn view(&self) -> CookieView {
        CookieView {
            name: self.name@,
            value: self.value@,
            path: text::text_opt(self.path),
            domain: text::text_opt(self.domain),
            expires: text::text_opt(self.expires),
            http_only: self.http_only,
            secure: self.secure,
        }
    }
}

/// What the cookies of a list hold.
pub open spec fn cookies(list: Seq<Cookie>) -> Seq<CookieView> {
    list.map_values(|c: Cookie| c@)
}

/// One length-prefixed message of a gRPC body.
#[derive(Clone, Debug)]
pub struct GrpcMessage {
    pub compressed: bool,
    pub length: u32,
    pub text: Option<String>,
}

/// What a gRPC message holds.
#[verifier::ext_equal]
pub struct GrpcMessageView {
    pub compressed: bool,
    pub length: u32,
    pub text: Option<Seq<char>>,
}

impl View for GrpcMessage {
    type V = GrpcMessageView;

    open spec fn view(&self) -> GrpcMessageView {
        GrpcMessageView { compressed: self.compressed, length: self.length, text: text::text_opt(self.text) }
    }
}

/// The messages a gRPC body is made of.
#[derive(Clone, Debug)]
pub struct GrpcBody {
    pub messages: Vec<GrpcMessage>,
}

impl View for GrpcBody {
    type V = Seq<GrpcMessageView>;

    open spec fn view(&self) -> Seq<GrpcMessageView> {
        self.messages@.map_values(|m: GrpcMessage| m@)
    }
}

impl GrpcBody {
    /// Whether the body is one message, as a unary call sends it.
    pub fn is_unary(&self) -> (r: bool)
        ensures
            r == (self@.len() == 1),
    {
        self.messages.len() == 1
    }
}

/// The messages an optional gRPC body is made of.
pub open spec fn grpc_opt(g: Option<GrpcBody>) -> Option<Seq<GrpcMessageView>> {
    match g {
        Some(b) => Some(b@),
        None => None,
    }
}

/// A body as the record shows it: readable text, or bytes written as base64.
#[derive(Clone, Debug)]
pub struct BodyData {
    pub encoding: String,
    pub content: String,
    pub size: u64,
    pub grpc: Option<GrpcBody>,
}

/// What a recorded body holds.
#[verifier::ext_equal]
pub struct BodyView {
    pub encoding: Seq<char>,
    pub content: Seq<char>,
    pub size: u64,
    pub grpc: Option<Seq<GrpcMessageView>>,
}

impl View for BodyData {
    type V = BodyView;

    open spec fn view(&self) -> BodyView {
        BodyView { encoding: self.encoding@, content: self.content@, size: self.size, grpc: grpc_opt(self.grpc) }
    }
}

/// What an optional recorded body holds.
pub open spec fn body_opt(b: Option<BodyData>) -> Option<BodyView> {
    match b {
        Some(d) => Some(d@),
        None => None,
    }
}

/// How long the parts of a response took, in milliseconds.
#[derive(Clone, Copy, Debug)]
pub struct ResponseTiming {
    pub time_to_first_byte: Option<u64>,
    pub time_to_last_byte: Option<u64>,
    pub connect_time_ms: Option<u64>,
    pub ssl_time_ms: Option<u64>,
}

/// Nothing measured.
pub open spec fn no_timing() -> ResponseTiming {
    ResponseTiming { time_to_first_byte: None, time_to_last_byte: None, connect_time_ms: None, ssl_time_ms: None }
}

impl ResponseTiming {
    /// Nothing measured.
    pub fn none() -> (r: Self)
        ensures
            r == no_timing(),
    {
        ResponseTiming { time_to_first_byte: None, time_to_last_byte: None, connect_time_ms: None, ssl_time_ms: None }
    }
}

/// A parsed URL: its whole text and the parts that routing reads.
///
/// `port` is the port the URL names, or the one its scheme is known for.
#[derive(Clone, Debug)]
pub struct TargetUrl {
    pub href: String,
    pub scheme: String,
    pub host: Option<String>,
    pub port: Option<u16>,
}

/// What a parsed URL holds.
#[verifier::ext_equal]
pub struct UrlView {
    pub href: Seq<char>,
    pub scheme: Seq<char>,
    pub host: Option<Seq<char>>,
    pub port: Option<u16>,
}

impl View for TargetUrl {
    type V = UrlView;

    open spec fn view(&self) -> UrlView {
        UrlView { href: self.href@, scheme: self.scheme@, host: text::text_opt(self.host), port: self.port }
    }
}

/// The request of an exchange.
#[derive(Clone, Debug)]
pub struct HttpRequest {
    pub method: String,
    pub url: TargetUrl,
    pub version: String,
    pub headers: Vec<(String, String)>,
    pub cookies: Vec<Cookie>,
    pub query: Vec<(String, String)>,
    pub body: Option<BodyData>,
}

/// What a request holds.
#[verifier::ext_equal]
pub struct RequestView {
    pub method: Seq<char>,
    pub url: UrlView,
    pub version: Seq<char>,
    pub headers: Seq<(Seq<char>, Seq<char>)>,
    pub cookies: Seq<CookieView>,
    pub query: Seq<(Seq<char>, Seq<char>)>,
    pub body: Option<BodyView>,
}

impl View for HttpRequest {
    type V = RequestView;

    open spec fn view(&self) -> RequestView {
        RequestView {
            method: self.method@,
            url: self.url@,
            version: self.version@,
            headers: pairs(self.headers@),
            cookies: cookies(self.cookies@),
            query: pairs(self.query@),
            body: body_opt(self.body),
        }
    }
}

/// The response of an exchange.
#[derive(Clone, Debug)]
pub struct HttpResponse {
    pub status: u16,
    pub status_text: String,
    pub version: String,
    pub headers: Vec<(String, String)>,
    pub cookies: Vec<Cookie>,
    pub body: Option<BodyData>,
    pub trailers: Vec<(String, String)>,
    pub timing: ResponseTiming,
}

/// What a response holds.
#[verifier::ext_equal]
pub struct ResponseView {
    pub status: u16,
    pub status_text: Seq<char>,
    pub version: Seq<char>,
    pub headers: Seq<(Seq<char>, Seq<char>)>,
    pub cookies: Seq<CookieView>,
    pub body: Option<BodyView>,
    pub trailers: Seq<(Seq<char>, Seq<char>)>,
    pub timing: ResponseTiming,
}

impl View for HttpResponse {
    type V = ResponseView;

    open spec fn view(&self) -> ResponseView {
        ResponseView {
            status: self.status,
            status_text: self.status_text@,
            version: self.version@,
            headers: pairs(self.headers@),
            cookies: cookies(self.cookies@),
            body: body_opt(self.body),
            trailers: pairs(self.trailers@),
            timing: self.timing,
        }
    }
}

/// What an optional response holds.
pub open spec fn response_opt(r: Option<HttpResponse>) -> Option<ResponseView> {
    match r {
        Some(x) => Some(x@),
        None => None,
    }
}

/// Which way a message or a body travels.
#[derive(Clone, Copy, Debug, PartialEq, Eq, Structural)]
pub enum Direction {
    ClientToServer,
    ServerToClient,
}

/// One message of a WebSocket exchange.
#[derive(Clone, Debug)]
pub struct WebSocketMessage {
    pub id: u128,
    pub timestamp: Timestamp,
    pub direction: Direction,
    pub content: BodyData,
    pub opcode: String,
}

/// What a WebSocket message holds.
#[verifier::ext_equal]
pub struct WsMessageView {
    pub id: u128,
    pub timestamp: Timestamp,
    pub direction: Direction,
    pub content: BodyView,
    pub opcode: Seq<char>,
}

impl View for WebSocketMessage {
    type V = WsMessageView;

    open spec fn view(&self) -> WsMessageView {
        WsMessageView {
            id: self.id,
            timestamp: self.timestamp,
            direction: self.direction,
            content: self.content@,
            opcode: self.opcode@,
        }
    }
}

/// An exchange of one request and one response.
#[derive(Clone, Debug)]
pub struct HttpLayer {
    pub request: HttpRequest,
    pub response: Option<HttpResponse>,
    pub error: Option<String>,
}

/// An upgraded exchange: the handshake and the messages after it.
#[derive(Clone, Debug)]
pub struct WebSocketLayer {
    pub handshake_request: HttpRequest,
    pub handshake_response: HttpResponse,
    pub messages: Vec<WebSocketMessage>,
    pub closed: bool,
}

/// A byte stream the proxy does not look into.
#[derive(Clone, Copy, Debug)]
pub struct TcpLayer {
    pub bytes_up: u64,
    pub bytes_down: u64,
}

/// A datagram session.
#[derive(Clone, Copy, Debug)]
pub struct UdpLayer {
    pub payload_size: usize,
    pub packet_count: usize,
}

/// What kind of exchange a flow records.
#[derive(Clone, Debug)]
pub enum Layer {
    Http(HttpLayer),
    WebSocket(WebSocketLayer),
    Tcp(TcpLayer),
    Udp(UdpLayer),
    Unknown,
}

/// What a layer holds.
#[verifier::ext_equal]
pub enum LayerView {
    Http { request: RequestView, response: Option<ResponseView>, error: Option<Seq<char>> },
    WebSocket {
        handshake_request: RequestView,
        handshake_response: ResponseView,
        messages: Seq<WsMessageView>,
        closed: bool,
    },
    Tcp(TcpLayer),
    Udp(UdpLayer),
    Unknown,
}

impl View for Layer {
    type V = LayerView;

    open spec fn view(&self) -> LayerView {
        match *self {
            Layer::Http(h) => LayerView::Http {
                request: h.request@,
                response: response_opt(h.response),
                error: text::text_opt(h.error),
            },
            Layer::WebSocket(w) => LayerView::WebSocket {
                handshake_request: w.handshake_request@,
                handshake_response: w.handshake_response@,
                messages: w.messages@.map_values(|m: WebSocketMessage| m@),
                closed: w.closed,
            },
            Layer::Tcp(t) => LayerView::Tcp(t),
            Layer::Udp(u) => LayerView::Udp(u),
            Layer::Unknown => LayerView::Unknown,
        }
    }
}

/// The protocol an exchange travels on.
#[derive(Clone, Copy, Debug, PartialEq, Eq, Structural)]
pub enum TransportProtocol {
    TCP,
    UDP,
}

/// The two ends of an exchange.
#[derive(Clone, Debug)]
pub struct NetworkInfo {
    pub client_ip: String,
    pub client_port: u16,
    pub server_ip: String,
    pub server_port: u16,
    pub server_host: Option<String>,
    pub protocol: TransportProtocol,
    pub tls: bool,
    pub tls_version: Option<String>,
    pub sni: Option<String>,
}

/// What the network part holds.
#[verifier::ext_equal]
pub struct NetworkView {
    pub client_ip: Seq<char>,
    pub client_port: u16,
    pub server_ip: Seq<char>,
    pub server_port: u16,
    pub server_host: Option<Seq<char>>,
    pub protocol: TransportProtocol,
    pub tls: bool,
    pub tls_version: Option<Seq<char>>,
    pub sni: Option<Seq<char>>,
}

impl View for NetworkInfo {
    type V = NetworkView;

    open spec fn view(&self) -> NetworkView {
        NetworkView {
            client_ip: self.client_ip@,
            client_port: self.client_port,
            server_ip: self.server_ip@,
            server_port: self.server_port,
            server_host: text::text_opt(self.server_host),
            protocol: self.protocol,
            tls: self.tls,
            tls_version: text::text_opt(self.tls_version),
            sni: text::text_opt(self.sni),
        }
    }
}

/// What went wrong, or was held back, on the way to the upstream.
#[derive(Clone, Debug)]
pub struct ResilienceTrace {
    pub budget_exceeded: bool,
    pub circuit_open: bool,
    pub upstream_errors: Vec<String>,
    pub timeout_type: Option<String>,
}

/// What a resilience trace holds.
#[verifier::ext_equal]
pub struct TraceView {
    pub budget_exceeded: bool,
    pub circuit_open: bool,
    pub upstream_errors: Seq<Seq<char>>,
    pub timeout_type: Option<Seq<char>>,
}

impl View for ResilienceTrace {
    type V = TraceView;

    open spec fn view(&self) -> TraceView {
        TraceView {
            budget_exceeded: self.budget_exceeded,
            circuit_open: self.circuit_open,
            upstream_errors: text::texts(self.upstream_errors@),
            timeout_type: text::text_opt(self.timeout_type),
        }
    }
}

/// What an optional trace holds.
pub open spec fn trace_opt(t: Option<ResilienceTrace>) -> Option<TraceView> {
    match t {
        Some(x) => Some(x@),
        None => None,
    }
}

/// A trace of an exchange on which nothing went wrong.
pub open spec fn clean_trace() -> TraceView {
    TraceView { budget_exceeded: false, circuit_open: false, upstream_errors: Seq::empty(), timeout_type: None }
}

/// The trace there is, or a clean one.
pub open spec fn trace_or_clean(t: Option<TraceView>) -> TraceView {
    match t {
        Some(x) => x,
        None => clean_trace(),
    }
}

/// Why an exchange is over.
#[derive(Clone, Copy, Debug, PartialEq, Eq, Structural)]
pub enum CloseReason {
    Completed,
}

/// A moment by the wall clock: whole seconds since 1970, and the nanoseconds since that second.
#[derive(Clone, Copy, Debug, PartialEq, Eq, Structural)]
pub struct Timestamp {
    pub secs: i64,
    pub nanos: u32,
}

/// The record of one exchange.
#[derive(Clone, Debug)]
pub struct Flow {
    pub id: u128,
    pub start_time: Timestamp,
    pub end_time: Option<Timestamp>,
    pub close_reason: Option<CloseReason>,
    pub network: NetworkInfo,
    pub layer: Layer,
    pub tags: Vec<String>,
    pub meta: TextMap,
    pub resilience_trace: Option<ResilienceTrace>,
    pub rule_variables: TextMap,
    pub matched_rules: Vec<String>,
}

/// What a flow holds.
#[verifier::ext_equal]
pub struct FlowView {
    pub id: u128,
    pub start_time: Timestamp,
    pub end_time: Option<Timestamp>,
    pub close_reason: Option<CloseReason>,
    pub network: NetworkView,
    pub layer: LayerView,
    pub tags: Seq<Seq<char>>,
    pub meta: Map<Seq<char>, Seq<char>>,
    pub resilience_trace: Option<TraceView>,
    pub rule_variables: Map<Seq<char>, Seq<char>>,
    pub matched_rules: Seq<Seq<char>>,
}

impl View for Flow {
    type V = FlowView;

    open spec fn view(&self) -> FlowView {
        FlowView {
            id: self.id,
            start_time: self.start_time,
            end_time: self.end_time,
            close_reason: self.close_reason,
            network: self.network@,
            layer: self.layer@,
            tags: text::texts(self.tags@),
            meta: self.meta@,
            resilience_trace: trace_opt(self.resilience_trace),
            rule_variables: self.rule_variables@,
            matched_rules: text::texts(self.matched_rules@),
        }
    }
}

/// A change to a flow that a host is told about.
#[derive(Clone, Debug)]
pub enum FlowUpdate {
    Full(Flow),
    HttpBody { flow_id: String, direction: Direction, body: BodyData },
    BodyBudgetExceeded { flow_id: String, direction: Direction },
    ResponseTrailers { flow_id: String, trailers: Vec<(String, String)> },
    WebSocketMessage { flow_id: String, message: WebSocketMessage },
}

/// What a change holds.
#[verifier::ext_equal]
pub enum UpdateView {
    Full(FlowView),
    HttpBody { flow_id: Seq<char>, direction: Direction, body: BodyView },
    BodyBudgetExceeded { flow_id: Seq<char>, direction: Direction },
    ResponseTrailers { flow_id: Seq<char>, trailers: Seq<(Seq<char>, Seq<char>)> },
    WebSocketMessage { flow_id: Seq<char>, message: WsMessageView },
}

impl View for FlowUpdate {
    type V = UpdateView;

    open spec fn view(&self) -> UpdateView {
        match *self {
            FlowUpdate::Full(f) => UpdateView::Full(f@),
            FlowUpdate::HttpBody { flow_id, direction, body } => UpdateView::HttpBody {
                flow_id: flow_id@,
                direction,
                body: body@,
            },
            FlowUpdate::BodyBudgetExceeded { flow_id, direction } => UpdateView::BodyBudgetExceeded {
                flow_id: flow_id@,
                direction,
            },
            FlowUpdate::ResponseTrailers { flow_id, trailers } => UpdateView::ResponseTrailers {
                flow_id: flow_id@,
                trailers: pairs(trailers@),
            },
            FlowUpdate::WebSocketMessage { flow_id, message } => UpdateView::WebSocketMessage {
                flow_id: flow_id@,
                message: message@,
            },
        }
    }
}

/// A copy of a list of header fields or query parameters.
pub fn copy_pairs(list: &[(String, String)]) -> (r: Vec<(String, String)>)
    ensures
        pairs(r@) == pairs(list@),
        r@.len() == list@.len(),
        forall|i: int| 0 <= i < r@.len() ==> (#[trigger] r@[i]).0@ == list@[i].0@ && r@[i].1@ == list@[i].1@,
{
    let mut out: Vec<(String, String)> = Vec::new();
    let mut i: usize = 0;
    while i < list.len()
        invariant
            i <= list@.len(),
            out@.len() == i,
            forall|j: int| 0 <= j < i ==> (#[trigger] out@[j]).0@ == list@[j].0@ && out@[j].1@ == list@[j].1@,
        decreases list.len() - i,
    {
        out.push((text::copy(list[i].0.as_str()), text::copy(list[i].1.as_str())));
        i = i + 1;
    }
    assert(pairs(out@) =~= pairs(list@));
    out
}

/// A copy of a list of cookies.
pub fn copy_cookies(list: &Vec<Cookie>) -> (r: Vec<Cookie>)
    ensures
        cookies(r@) == cookies(list@),
        r@.len() == list@.len(),
        forall|i: int|
            0 <= i < r@.len() ==> (#[trigger] r@[i]).name@ == list@[i].name@ && r@[i].value@ == list@[i].value@
                && r@[i].http_only == list@[i].http_only && r@[i].secure == list@[i].secure,
{
    let mut out: Vec<Cookie> = Vec::new();
    let mut i: usize = 0;
    while i < list.len()
        invariant
            i <= list@.len(),
            out@.len() == i,
            forall|j: int| 0 <= j < i ==> (#[trigger] out@[j])@ == list@[j]@,
            forall|j: int|
                0 <= j < i ==> (#[trigger] out@[j]).name@ == list@[j].name@ && out@[j].value@ == list@[j].value@
                    && out@[j].http_only == list@[j].http_only && out@[j].secure == list@[j].secure,
        decreases list.len() - i,
    {
        let c = &list[i];
        out.push(
            Cookie {
                name: text::copy(c.name.as_str()),
                value: text::copy(c.value.as_str()),
                path: text::copy_opt(&c.path),
                domain: text::copy_opt(&c.domain),
                expires: text::copy_opt(&c.expires),
                http_only: c.http_only,
                secure: c.secure,
            },
        );
        i = i + 1;
    }
    assert(cookies(out@) =~= cookies(list@));
    out
}

/// A copy of a recorded body.
pub fn copy_body(b: &BodyData) -> (r: BodyData)
    ensures
        r@ == b@,
        r.encoding@ == b.encoding@,
        r.content@ == b.content@,
        r.size == b.size,
        r.grpc is Some == b.grpc is Some,
{
    let grpc = match &b.grpc {
        Some(g) => {
            let mut messages: Vec<GrpcMessage> = Vec::new();
            let mut i: usize = 0;
            while i < g.messages.len()
                invariant
                    i <= g.messages@.len(),
                    messages@.len() == i,
                    forall|j: int| 0 <= j < i ==> (#[trigger] messages@[j])@ == g.messages@[j]@,
                decreases g.messages.len() - i,
            {
                let m = &g.messages[i];
                messages.push(
                    GrpcMessage { compressed: m.compressed, length: m.length, text: text::copy_opt(&m.text) },
                );
                i = i + 1;
            }
            let copied = GrpcBody { messages };
            assert(copied@ =~= g@);
            Some(copied)
        },
        None => None,
    };
    BodyData {
        encoding: text::copy(b.encoding.as_str()),
        content: text::copy(b.content.as_str()),
        size: b.size,
        grpc,
    }
}

/// A copy of an optional recorded body.
pub fn copy_body_opt(b: &Option<BodyData>) -> (r: Option<BodyData>)
    ensures
        body_opt(r) == body_opt(*b),
        r is Some <==> *b is Some,
        r matches Some(x) ==> x.encoding@ == b->0.encoding@ && x.content@ == b->0.content@ && x.size == b->0.size,
{
    match b {
        Some(x) => Some(copy_body(x)),
        None => None,
    }
}

/// A copy of a parsed URL.
pub fn copy_url(u: &TargetUrl) -> (r: TargetUrl)
    ensures
        r@ == u@,
        r.href@ == u.href@,
        r.scheme@ == u.scheme@,
        text::text_opt(r.host) == text::text_opt(u.host),
        r.port == u.port,
{
    TargetUrl {
        href: text::copy(u.href.as_str()),
        scheme: text::copy(u.scheme.as_str()),
        host: text::copy_opt(&u.host),
        port: u.port,
    }
}

/// A copy of a request.
pub fn copy_request(q: &HttpRequest) -> (r: HttpRequest)
    ensures
        r@ == q@,
        r.method@ == q.method@,
        r.url.href@ == q.url.href@,
        r.version@ == q.version@,
        pairs(r.headers@) == pairs(q.headers@),
        r.headers@.len() == q.headers@.len(),
        forall|i: int|
            0 <= i < r.headers@.len() ==> (#[trigger] r.headers@[i]).0@ == q.headers@[i].0@ && r.headers@[i].1@
                == q.headers@[i].1@,
        r.cookies@.len() == q.cookies@.len(),
        r.query@.len() == q.query@.len(),
        r.body is Some <==> q.body is Some,
        r.body matches Some(x) ==> x.encoding@ == q.body->0.encoding@ && x.content@ == q.body->0.content@,
{
    HttpRequest {
        method: text::copy(q.method.as_str()),
        url: copy_url(&q.url),
        version: text::copy(q.version.as_str()),
        headers: copy_pairs(q.headers.as_slice()),
        cookies: copy_cookies(&q.cookies),
        query: copy_pairs(q.query.as_slice()),
        body: copy_body_opt(&q.body),
    }
}

/// A copy of a response.
pub fn copy_response(q: &HttpResponse) -> (r: HttpResponse)
    ensures
        r@ == q@,
        r.status == q.status,
        r.status_text@ == q.status_text@,
        r.version@ == q.version@,
        r.headers@.len() == q.headers@.len(),
        forall|i: int|
            0 <= i < r.headers@.len() ==> (#[trigger] r.headers@[i]).0@ == q.headers@[i].0@ && r.headers@[i].1@
                == q.headers@[i].1@,
        r.cookies@.len() == q.cookies@.len(),
        r.trailers@.len() == q.trailers@.len(),
        r.body is Some <==> q.body is Some,
        r.body matches Some(x) ==> x.encoding@ == q.body->0.encoding@ && x.content@ == q.body->0.content@,
        r.timing == q.timing,
{
    HttpResponse {
        status: q.status,
        status_text: text::copy(q.status_text.as_str()),
        version: text::copy(q.version.as_str()),
        headers: copy_pairs(q.headers.as_slice()),
        cookies: copy_cookies(&q.cookies),
        body: copy_body_opt(&q.body),
        trailers: copy_pairs(q.trailers.as_slice()),
        timing: q.timing,
    }
}

impl Flow {
    /// Add a tag.
    pub fn tag(&mut self, name: &str)
        ensures
            final(self)@ == (FlowView { tags: old(self)@.tags.push(name@), ..old(self)@ }),
            final(self).tags@.len() == old(self).tags@.len() + 1,
            final(self).tags@.last()@ == name@,
            final(self).layer == old(self).layer,
            final(self).network == old(self).network,
            final(self).id == old(self).id,
    {
        let ghost before = self.tags@;
        self.tags.push(text::copy(name));
        assert(text::texts(self.tags@) =~= text::texts(before).push(name@));
    }
}

} // verus!
