//! Whether a connection is served, and where it leads.
use vstd::prelude::*;
use vstd::string::*;

use crate::addr;
use crate::addr::{IpAddress, SocketAddress};
use crate::flow::{
    Flow, FlowView, Layer, LayerView, NetworkInfo, NetworkView, TcpLayer, TextMap, Timestamp,
    TransportProtocol,
};
use crate::headers;
use crate::intercept::{ConnectAction, ConnectionInfo};
use crate::proxy::http_utils;
use crate::proxy::http_utils::{RequestHead, WireResponse, WireView};
use crate::text;
use crate::urls;

verus! {

/// What a rule of the connect stage changes.
#[derive(Clone, Debug)]
pub enum ConnectOverride {
    /// Another port at the same address. The host is kept for a redirect by name.
    ForwardPort { host: String, port: u16 },
    /// Another address at the same port.
    RedirectIp { ip: IpAddress },
    /// Another time to live, which is not applied.
    SetTtl { ttl: u32 },
}

/// What becomes of an accepted connection.
#[derive(Clone, Copy, Debug, PartialEq, Eq, Structural)]
pub enum ConnectStep {
    /// Close it, and tell the interceptors.
    Disconnect,
    /// Ask the rules of the connect stage.
    RunRules,
    /// Serve it; transparent traffic goes to this target.
    Serve(Option<SocketAddress>),
}

/// What becomes of a connection after the interceptors have seen it.
pub fn on_connect_verdict(info: &ConnectionInfo, action: &ConnectAction, has_connect_rules: bool) -> (r: ConnectStep)
    ensures
        r == match *action {
            ConnectAction::Drop { .. } => ConnectStep::Disconnect,
            ConnectAction::Allow => if has_connect_rules {
                ConnectStep::RunRules
            } else {
                ConnectStep::Serve(info.server_addr)
            },
        },
{
    match action {
        ConnectAction::Drop { .. } => ConnectStep::Disconnect,
        ConnectAction::Allow => if has_connect_rules {
            ConnectStep::RunRules
        } else {
            ConnectStep::Serve(info.server_addr)
        },
    }
}

/// The record of a connection that the rules of the connect stage look at.
pub open spec fn connection_view(info: ConnectionInfo, now: Timestamp) -> FlowView {
    FlowView {
        id: info.id,
        start_time: now,
        end_time: None,
        close_reason: None,
        network: NetworkView {
            client_ip: addr::ip_text(info.client_addr.ip),
            client_port: info.client_addr.port,
            server_ip: match info.server_addr {
                Some(a) => addr::ip_text(a.ip),
                None => Seq::empty(),
            },
            server_port: match info.server_addr {
                Some(a) => a.port,
                None => 0,
            },
            server_host: None,
            protocol: TransportProtocol::TCP,
            tls: false,
            tls_version: None,
            sni: None,
        },
        layer: LayerView::Tcp(TcpLayer { bytes_up: 0, bytes_down: 0 }),
        tags: Seq::empty(),
        meta: Map::empty(),
        resilience_trace: None,
        rule_variables: Map::empty(),
        matched_rules: Seq::empty(),
    }
}

/// The record of a connection that the rules of the connect stage look at.
pub fn connection_flow(info: &ConnectionInfo, now: Timestamp) -> (r: Flow)
    ensures
        r@ == connection_view(*info, now),
        r.id == info.id,
        r.start_time == now,
        r.network.client_ip@ == addr::ip_text(info.client_addr.ip),
        r.network.client_port == info.client_addr.port,
        info.server_addr matches Some(a) ==> r.network.server_ip@ == addr::ip_text(a.ip) && r.network.server_port
            == a.port,
        info.server_addr is None ==> r.network.server_ip@.len() == 0 && r.network.server_port == 0,
        r.layer is Tcp,
{
    let (server_ip, server_port) = match info.server_addr {
        Some(a) => (addr::write_ip(a.ip), a.port),
        None => (String::new(), 0),
    };
    let r = Flow {
        id: info.id,
        start_time: now,
        end_time: None,
        close_reason: None,
        network: NetworkInfo {
            client_ip: addr::write_ip(info.client_addr.ip),
            client_port: info.client_addr.port,
            server_ip,
            server_port,
            server_host: None,
            protocol: TransportProtocol::TCP,
            tls: false,
            tls_version: None,
            sni: None,
        },
        layer: Layer::Tcp(TcpLayer { bytes_up: 0, bytes_down: 0 }),
        tags: Vec::new(),
        meta: TextMap::new(),
        resilience_trace: None,
        rule_variables: TextMap::new(),
        matched_rules: Vec::new(),
    };
    proof {
        let e = connection_view(*info, now);
        assert(r@.tags =~= e.tags);
        assert(r@.matched_rules =~= e.matched_rules);
        assert(r@ =~= e);
    }
    r
}

/// The target of a connection once a rule has changed it.
pub open spec fn overridden(target: Option<SocketAddress>, change: Option<ConnectOverride>) -> Option<SocketAddress> {
    match change {
        None => target,
        Some(ConnectOverride::ForwardPort { port, .. }) => Some(
            SocketAddress {
                ip: match target {
                    Some(a) => a.ip,
                    None => IpAddress::V4(0),
                },
                port,
                flow_info: 0,
                scope_id: 0,
            },
        ),
        Some(ConnectOverride::RedirectIp { ip }) => Some(
            SocketAddress {
                ip,
                port: match target {
                    Some(a) => a.port,
                    None => 0,
                },
                flow_info: 0,
                scope_id: 0,
            },
        ),
        Some(ConnectOverride::SetTtl { .. }) => target,
    }
}

/// What becomes of a connection after the rules of the connect stage.
pub fn on_connect_rules(
    target: Option<SocketAddress>,
    terminated: bool,
    change: &Option<ConnectOverride>,
) -> (r: ConnectStep)
    ensures
        r == (if terminated {
            ConnectStep::Disconnect
        } else {
            ConnectStep::Serve(overridden(target, *change))
        }),
        terminated <==> r is Disconnect,
        !terminated && (change is None || change->0 is SetTtl) ==> r == ConnectStep::Serve(target),
        !terminated ==> (change matches Some(ConnectOverride::ForwardPort { host, port }) ==> (
        r matches ConnectStep::Serve(Some(to)) && to.port == port && (target matches Some(a) ==> to.ip == a.ip))),
        !terminated ==> (change matches Some(ConnectOverride::RedirectIp { ip }) ==> (
        r matches ConnectStep::Serve(Some(to)) && to.ip == ip && (target matches Some(a) ==> to.port == a.port))),
{
    if terminated {
        return ConnectStep::Disconnect;
    }
    let next = match change {
        None => target,
        Some(ConnectOverride::ForwardPort { port, .. }) => {
            let ip = match target {
                Some(a) => a.ip,
                None => IpAddress::V4(0),
            };
            Some(SocketAddress::new(ip, *port))
        },
        Some(ConnectOverride::RedirectIp { ip }) => {
            let port: u16 = match target {
                Some(a) => a.port,
                None => 0,
            };
            Some(SocketAddress::new(*ip, port))
        },
        Some(ConnectOverride::SetTtl { .. }) => target,
    };
    ConnectStep::Serve(next)
}

/// What a request on a connection asks for.
#[derive(Debug)]
pub enum Incoming {
    /// An exchange with an origin.
    Exchange,
    /// A tunnel to this host; the answer is empty.
    Tunnel { host: String, answer: WireResponse },
    /// Nothing that can be served.
    Refused(WireResponse),
}

/// What a request on a connection asks for.
pub enum IncomingView {
    Exchange,
    Tunnel { host: Seq<char>, answer: WireView },
    Refused(WireView),
}

impl View for Incoming {
    type V = IncomingView;

    open spec fn view(&self) -> IncomingView {
        match *self {
            Incoming::Exchange => IncomingView::Exchange,
            Incoming::Tunnel { host, answer } => IncomingView::Tunnel { host: host@, answer: answer@ },
            Incoming::Refused(response) => IncomingView::Refused(response@),
        }
    }
}

/// The host a CONNECT request names: its authority, or else its `Host` field.
pub open spec fn connect_host(target: Seq<char>, entries: Seq<(Seq<char>, Seq<Seq<u8>>)>) -> Seq<char> {
    match urls::uri_of(target) {
        Ok(uri) if uri.authority is Some => uri.authority->0,
        _ => match headers::value_text_opt(headers::first_value(entries, "host"@)) {
            Some(host) => host,
            None => "unknown"@,
        },
    }
}

/// What a request asks for. A CONNECT request that names no host is refused.
pub open spec fn incoming(
    method: Seq<char>,
    target: Seq<char>,
    entries: Seq<(Seq<char>, Seq<Seq<u8>>)>,
) -> IncomingView {
    if method != "CONNECT"@ {
        IncomingView::Exchange
    } else if connect_host(target, entries) == "unknown"@ {
        IncomingView::Refused(http_utils::error_view(400, "CONNECT must have authority"@))
    } else {
        IncomingView::Tunnel {
            host: connect_host(target, entries),
            answer: http_utils::bare_response(200, Seq::empty()),
        }
    }
}

/// Tell what a request asks for.
pub fn classify_request(req: &RequestHead) -> (r: Incoming)
    ensures
        r@ == incoming(req.method@, req.uri@, headers::header_entries(req.headers)),
        req.method@ != "CONNECT"@ <==> r is Exchange,
        req.method@ == "CONNECT"@ ==> (urls::uri_of(req.uri@) matches Ok(uri) ==> (uri.authority matches Some(a) ==> (a
            != "unknown"@ ==> (r matches Incoming::Tunnel { host, answer } && host@ == a && answer.head.status == 200
            && answer.body@.len() == 0)))),
        r matches Incoming::Tunnel { host, answer } ==> answer.head.status == 200 && answer.body@.len() == 0,
        r matches Incoming::Refused(answer) ==> answer.head.status == 400,
{
    if !text::same_text(req.method.as_str(), "CONNECT") {
        return Incoming::Exchange;
    }
    let mut host: Option<String> = None;
    match urls::parse_uri(req.uri.as_str()) {
        Ok(uri) => {
            host = uri.authority;
        },
        Err(_) => {},
    }
    let host = match host {
        Some(h) => h,
        None => {
            proof {
                reveal_strlit("Host");
                reveal_strlit("host");
                assert(text::lower("Host"@) =~= "host"@);
            }
            match headers::get_text(&req.headers, "Host") {
                Some(h) => h,
                None => text::copy("unknown"),
            }
        },
    };
    assert(host@ == connect_host(req.uri@, headers::header_entries(req.headers)));
    if text::same_text(host.as_str(), "unknown") {
        return Incoming::Refused(http_utils::create_error_response(400, "CONNECT must have authority"));
    }
    let answer = http_utils::create_error_response(200, "");
    proof {
        reveal_strlit("");
        assert(""@ =~= Seq::empty());
        reveal_with_fuel(vstd::utf8::encode_utf8, 1);
        assert(answer@.body =~= Seq::empty());
        assert(answer@ =~= http_utils::bare_response(200, Seq::empty()));
    }
    Incoming::Tunnel { host, answer }
}

/// A rule that forwards to another port keeps the address, and one that redirects to another address
/// keeps the port; nothing else changes where a connection leads.
pub proof fn law_overrides_change_what_they_name(target: SocketAddress, change: Option<ConnectOverride>)
    ensures
        ({
            let after = overridden(Some(target), change);
            &&& change is None ==> after == Some(target)
            &&& change matches Some(ConnectOverride::ForwardPort { host, port }) ==> (after matches Some(to) && to.ip
                == target.ip && to.port == port)
            &&& change matches Some(ConnectOverride::RedirectIp { ip }) ==> (after matches Some(to) && to.ip == ip
                && to.port == target.port)
            &&& change matches Some(ConnectOverride::SetTtl { ttl }) ==> after == Some(target)
        }),
{
}

/// A CONNECT request opens a tunnel to the authority it names, or else to its `Host`; any other
/// request is an exchange.
pub proof fn law_connect_requests_open_tunnels(
    method: Seq<char>,
    target: Seq<char>,
    entries: Seq<(Seq<char>, Seq<Seq<u8>>)>,
)
    ensures
        method != "CONNECT"@ ==> incoming(method, target, entries) is Exchange,
        method == "CONNECT"@ ==> incoming(method, target, entries) !is Exchange,
        incoming(method, target, entries) matches IncomingView::Tunnel { host, answer } ==> answer.head.status == 200
            && answer.body.len() == 0 && (urls::uri_of(target) matches Ok(uri) ==> (uri.authority matches Some(a)
            ==> host == a)) && (urls::uri_of(target) is Err ==> headers::value_text_opt(
            headers::first_value(entries, "host"@),
        ) == Some(host)),
        incoming(method, target, entries) matches IncomingView::Refused(answer) ==> answer.head.status == 400
            && answer == http_utils::error_view(400, "CONNECT must have authority"@),
{
}

/// A new record of a connection names its two ends.
pub proof fn law_connections_name_their_ends(info: ConnectionInfo, now: Timestamp)
    ensures
        ({
            let f = connection_view(info, now);
            &&& f.id == info.id
            &&& f.start_time == now
            &&& f.end_time is None
            &&& f.network.client_ip == addr::ip_text(info.client_addr.ip)
            &&& f.network.client_port == info.client_addr.port
            &&& info.server_addr matches Some(a) ==> f.network.server_ip == addr::ip_text(a.ip) && f.network.server_port
                == a.port
            &&& f.layer is Tcp
            &&& f.network.protocol is TCP
        }),
{
}

} // verus!
