//! What an interceptor may do to a connection, an exchange or a message, and how several of them
//! act as one.
use vstd::prelude::*;

use crate::addr::SocketAddress;
use crate::flow;
use crate::flow::{
    Flow, FlowView, HttpRequest, HttpResponse, Layer, LayerView, RequestView, ResponseView, WebSocketMessage,
    WsMessageView,
};

verus! {

/// A connection as an interceptor sees it.
#[derive(Clone, Debug)]
pub struct ConnectionInfo {
    pub id: u128,
    pub client_addr: SocketAddress,
    pub server_addr: Option<SocketAddress>,
    pub tls_sni: Option<String>,
}

/// What a connection amounted to when it closed.
#[derive(Clone, Copy, Debug, PartialEq, Eq, Structural)]
pub struct ConnectionStats {
    pub duration_ms: u64,
    pub bytes_sent: u64,
    pub bytes_received: u64,
    pub flows_count: u64,
}

impl ConnectionStats {
    /// A connection that took some time; what it moved is not counted.
    pub fn lasting(duration_ms: u64) -> (r: Self)
        ensures
            r == (ConnectionStats { duration_ms, bytes_sent: 0, bytes_received: 0, flows_count: 0 }),
    {
        ConnectionStats { duration_ms, bytes_sent: 0, bytes_received: 0, flows_count: 0 }
    }
}

impl Default for ConnectionStats {
    fn default() -> (r: Self)
        ensures
            r == (ConnectionStats { duration_ms: 0, bytes_sent: 0, bytes_received: 0, flows_count: 0 }),
    {
        ConnectionStats { duration_ms: 0, bytes_sent: 0, bytes_received: 0, flows_count: 0 }
    }
}

/// Whether a connection is taken.
#[derive(Clone, Debug)]
pub enum ConnectAction {
    Allow,
    Drop { reason: String },
}

/// What an interceptor made of the headers of an exchange.
#[derive(Clone, Debug)]
pub enum InterceptionResult {
    Continue,
    Drop,
    MockResponse(HttpResponse),
    ModifiedRequest(HttpRequest),
    ModifiedResponse(HttpResponse),
    ModifiedMessage(WebSocketMessage),
}

/// What an interception holds.
#[verifier::ext_equal]
pub enum InterceptionView {
    Continue,
    Drop,
    MockResponse(ResponseView),
    ModifiedRequest(RequestView),
    ModifiedResponse(ResponseView),
    ModifiedMessage(WsMessageView),
}

impl View for InterceptionResult {
    type V = InterceptionView;

    open spec fn view(&self) -> InterceptionView {
        match *self {
            InterceptionResult::Continue => InterceptionView::Continue,
            InterceptionResult::Drop => InterceptionView::Drop,
            InterceptionResult::MockResponse(r) => InterceptionView::MockResponse(r@),
            InterceptionResult::ModifiedRequest(r) => InterceptionView::ModifiedRequest(r@),
            InterceptionResult::ModifiedResponse(r) => InterceptionView::ModifiedResponse(r@),
            InterceptionResult::ModifiedMessage(m) => InterceptionView::ModifiedMessage(m@),
        }
    }
}

/// What an interceptor made of a request and its body. The body, and a response that replaces the
/// exchange, stay with the host.
#[derive(Clone, Debug)]
pub enum RequestVerdict {
    Continue,
    Drop,
    MockResponse,
    Failed(String),
}

/// What an interceptor made of a response and its body. The body, and a response that replaces it,
/// stay with the host.
#[derive(Clone, Debug)]
pub enum ResponseVerdict {
    Continue,
    Drop,
    ModifiedResponse,
    Failed(String),
}

/// What an interceptor made of a WebSocket message.
#[derive(Clone, Debug)]
pub enum WebSocketMessageAction {
    Continue(WebSocketMessage),
    Drop,
}

/// Lets everything pass.
#[derive(Clone, Copy, Debug, PartialEq, Eq, Structural)]
pub struct NoOpInterceptor;

impl NoOpInterceptor {
    /// Every connection is taken.
    pub fn on_connect(&self, _conn: &ConnectionInfo) -> (r: ConnectAction)
        ensures
            r is Allow,
    {
        ConnectAction::Allow
    }

    /// Every request goes on.
    pub fn on_request_headers(&self, _flow: &Flow) -> (r: InterceptionResult)
        ensures
            r is Continue,
    {
        InterceptionResult::Continue
    }

    /// Every response goes on.
    pub fn on_response_headers(&self, _flow: &Flow) -> (r: InterceptionResult)
        ensures
            r is Continue,
    {
        InterceptionResult::Continue
    }

    /// Every datagram session is taken.
    pub fn on_udp_session(&self, _flow: &Flow) -> (r: InterceptionResult)
        ensures
            r is Continue,
    {
        InterceptionResult::Continue
    }

    /// Every message goes on as it is.
    pub fn on_websocket_message(&self, message: WebSocketMessage) -> (r: WebSocketMessageAction)
        ensures
            r == WebSocketMessageAction::Continue(message),
    {
        WebSocketMessageAction::Continue(message)
    }
}

/// A layer with its request replaced.
pub open spec fn with_request(layer: LayerView, request: RequestView) -> LayerView {
    match layer {
        LayerView::Http { request: _, response, error } => LayerView::Http { request, response, error },
        LayerView::WebSocket { handshake_request: _, handshake_response, messages, closed } => LayerView::WebSocket {
            handshake_request: request,
            handshake_response,
            messages,
            closed,
        },
        other => other,
    }
}

/// A layer with its response replaced.
pub open spec fn with_response(layer: LayerView, response: ResponseView) -> LayerView {
    match layer {
        LayerView::Http { request, response: _, error } => LayerView::Http { request, response: Some(response), error },
        LayerView::WebSocket { handshake_request, handshake_response: _, messages, closed } => LayerView::WebSocket {
            handshake_request,
            handshake_response: response,
            messages,
            closed,
        },
        other => other,
    }
}

/// Take in what one of several interceptors made of the headers of a request; `true` ends the
/// round. A changed request is put into the record for the next one to see.
pub fn fold_request_headers(f: &mut Flow, outcome: &mut InterceptionResult, one: InterceptionResult) -> (r: bool)
    ensures
        r == (one is Drop || one is MockResponse || one is ModifiedResponse),
        final(outcome)@ == (if one is Continue || one is ModifiedMessage {
            old(outcome)@
        } else {
            one@
        }),
        final(f)@ == (match one@ {
            InterceptionView::ModifiedRequest(req) => FlowView { layer: with_request(old(f)@.layer, req), ..old(f)@ },
            _ => old(f)@,
        }),
        one matches InterceptionResult::ModifiedRequest(q) ==> {
            &&& old(f)@.layer is Http ==> final(f)@.layer is Http && final(f)@.layer->request == q@
                && final(f)@.layer->response == old(f)@.layer->response && final(f)@.layer->error == old(f)@.layer->error
            &&& old(f)@.layer is WebSocket ==> final(f)@.layer is WebSocket && final(f)@.layer->handshake_request == q@
                && final(f)@.layer->handshake_response == old(f)@.layer->handshake_response
                && final(f)@.layer->messages == old(f)@.layer->messages
        },
{
    match one {
        InterceptionResult::Continue => false,
        InterceptionResult::ModifiedMessage(_) => false,
        InterceptionResult::ModifiedRequest(req) => {
            let copied = flow::copy_request(&req);
            match &mut f.layer {
                Layer::Http(http) => {
                    http.request = copied;
                },
                Layer::WebSocket(ws) => {
                    ws.handshake_request = copied;
                },
                _ => {},
            }
            *outcome = InterceptionResult::ModifiedRequest(req);
            false
        },
        InterceptionResult::Drop => {
            *outcome = InterceptionResult::Drop;
            true
        },
        InterceptionResult::MockResponse(res) => {
            *outcome = InterceptionResult::MockResponse(res);
            true
        },
        InterceptionResult::ModifiedResponse(res) => {
            *outcome = InterceptionResult::ModifiedResponse(res);
            true
        },
    }
}

/// Take in what one of several interceptors made of the headers of a response; `true` ends the
/// round. A changed response is put into the record for the next one to see.
pub fn fold_response_headers(f: &mut Flow, outcome: &mut InterceptionResult, one: InterceptionResult) -> (r: bool)
    ensures
        r == (one is Drop || one is MockResponse),
        final(outcome)@ == (if one is Drop || one is MockResponse || one is ModifiedResponse {
            one@
        } else {
            old(outcome)@
        }),
        final(f)@ == (match one@ {
            InterceptionView::ModifiedResponse(res) => FlowView { layer: with_response(old(f)@.layer, res), ..old(f)@ },
            _ => old(f)@,
        }),
        one matches InterceptionResult::ModifiedResponse(q) ==> {
            &&& old(f)@.layer is Http ==> final(f)@.layer is Http && final(f)@.layer->response == Some(q@)
                && final(f)@.layer->request == old(f)@.layer->request && final(f)@.layer->error == old(f)@.layer->error
            &&& old(f)@.layer is WebSocket ==> final(f)@.layer is WebSocket && final(f)@.layer->handshake_response == q@
                && final(f)@.layer->handshake_request == old(f)@.layer->handshake_request
                && final(f)@.layer->messages == old(f)@.layer->messages
        },
{
    match one {
        InterceptionResult::Continue => false,
        InterceptionResult::ModifiedMessage(_) => false,
        InterceptionResult::ModifiedRequest(_) => false,
        InterceptionResult::ModifiedResponse(res) => {
            let copied = flow::copy_response(&res);
            match &mut f.layer {
                Layer::Http(http) => {
                    http.response = Some(copied);
                },
                Layer::WebSocket(ws) => {
                    ws.handshake_response = copied;
                },
                _ => {},
            }
            *outcome = InterceptionResult::ModifiedResponse(res);
            false
        },
        InterceptionResult::Drop => {
            *outcome = InterceptionResult::Drop;
            true
        },
        InterceptionResult::MockResponse(res) => {
            *outcome = InterceptionResult::MockResponse(res);
            true
        },
    }
}

/// Whether what one of several interceptors made of a connection ends the round: the first that
/// drops it decides.
pub fn ends_connect_round(one: &ConnectAction) -> (r: bool)
    ensures
        r == (*one is Drop),
{
    match one {
        ConnectAction::Allow => false,
        ConnectAction::Drop { reason: _ } => true,
    }
}

/// Whether what an interceptor made of a datagram session blocks it: only dropping does.
pub fn blocks_session(one: &InterceptionResult) -> (r: bool)
    ensures
        r == (*one is Drop),
{
    match one {
        InterceptionResult::Drop => true,
        _ => false,
    }
}

/// Replacing the request of a record puts it there and leaves the rest of the exchange alone.
pub proof fn law_replaced_requests_are_recorded(layer: LayerView, request: RequestView)
    ensures
        layer is Http ==> with_request(layer, request) is Http && with_request(layer, request)->request == request
            && with_request(layer, request)->response == layer->response && with_request(layer, request)->error
            == layer->error,
        layer is WebSocket ==> with_request(layer, request) is WebSocket && with_request(
            layer,
            request,
        )->handshake_request == request && with_request(layer, request)->handshake_response
            == layer->handshake_response && with_request(layer, request)->messages == layer->messages && with_request(
            layer,
            request,
        )->closed == layer->closed,
        layer !is Http && layer !is WebSocket ==> with_request(layer, request) == layer,
{
}

/// Replacing the response of a record puts it there and leaves the rest of the exchange alone.
pub proof fn law_replaced_responses_are_recorded(layer: LayerView, response: ResponseView)
    ensures
        layer is Http ==> with_response(layer, response) is Http && with_response(layer, response)->response == Some(
            response,
        ) && with_response(layer, response)->request == layer->request && with_response(layer, response)->error
            == layer->error,
        layer is WebSocket ==> with_response(layer, response) is WebSocket && with_response(
            layer,
            response,
        )->handshake_response == response && with_response(layer, response)->handshake_request
            == layer->handshake_request && with_response(layer, response)->messages == layer->messages && with_response(
            layer,
            response,
        )->closed == layer->closed,
        layer !is Http && layer !is WebSocket ==> with_response(layer, response) == layer,
{
}

} // verus!
