//! How a request leaves: straight to its target, or through an upstream proxy.
use vstd::prelude::*;
use vstd::string::*;

use crate::addr;
use crate::addr::IpAddress;
use crate::headers;
use crate::proxy::body_codec;
use crate::proxy::http_utils;
use crate::proxy::http_utils::{ForwardRequest, ForwardView};
use crate::text;
use crate::urls;

verus! {

/// Why an outbound connector failed.
#[derive(Clone, Debug)]
pub enum UpstreamError {
    Unreachable(String),
    ConnectRefused { status: u16 },
    AuthRequired,
    Tls(String),
    Io(String),
}

/// What an error of an outbound connector holds.
#[verifier::ext_equal]
pub enum UpstreamErrorView {
    Unreachable(Seq<char>),
    ConnectRefused { status: u16 },
    AuthRequired,
    Tls(Seq<char>),
    Io(Seq<char>),
}

impl View for UpstreamError {
    type V = UpstreamErrorView;

    open spec fn view(&self) -> UpstreamErrorView {
        match *self {
            UpstreamError::Unreachable(m) => UpstreamErrorView::Unreachable(m@),
            UpstreamError::ConnectRefused { status } => UpstreamErrorView::ConnectRefused { status },
            UpstreamError::AuthRequired => UpstreamErrorView::AuthRequired,
            UpstreamError::Tls(m) => UpstreamErrorView::Tls(m@),
            UpstreamError::Io(m) => UpstreamErrorView::Io(m@),
        }
    }
}

/// How an error of an outbound connector reads.
pub open spec fn error_text(e: UpstreamError) -> Seq<char> {
    match e {
        UpstreamError::Unreachable(m) => "upstream proxy unreachable: "@ + m@,
        UpstreamError::ConnectRefused { status } => "upstream proxy refused CONNECT: status "@ + text::decimal(
            status as nat,
        ),
        UpstreamError::AuthRequired => "upstream proxy authentication required"@,
        UpstreamError::Tls(m) => "upstream TLS error: "@ + m@,
        UpstreamError::Io(m) => "I/O error: "@ + m@,
    }
}

impl UpstreamError {
    /// How the error reads.
    pub fn message(&self) -> (r: String)
        ensures
            r@ == error_text(*self),
            self matches UpstreamError::Unreachable(m) ==> r@ == "upstream proxy unreachable: "@ + m@,
            self matches UpstreamError::ConnectRefused { status } ==> r@ == "upstream proxy refused CONNECT: status "@
                + text::decimal(*status as nat),
            self is AuthRequired ==> r@ == "upstream proxy authentication required"@,
            self matches UpstreamError::Tls(m) ==> r@ == "upstream TLS error: "@ + m@,
            self matches UpstreamError::Io(m) ==> r@ == "I/O error: "@ + m@,
    {
        match self {
            UpstreamError::Unreachable(m) => text::concat2("upstream proxy unreachable: ", m.as_str()),
            UpstreamError::ConnectRefused { status } => text::concat2(
                "upstream proxy refused CONNECT: status ",
                text::decimal_text(*status as u64).as_str(),
            ),
            UpstreamError::AuthRequired => text::copy("upstream proxy authentication required"),
            UpstreamError::Tls(m) => text::concat2("upstream TLS error: ", m.as_str()),
            UpstreamError::Io(m) => text::concat2("I/O error: ", m.as_str()),
        }
    }
}

/// What is wrong with a glob pattern, as `glob::Pattern::new` finds it.
pub uninterp spec fn pattern_error(pattern: Seq<char>) -> Option<Seq<char>>;

/// `glob::Pattern::new` reports what is wrong with a pattern.
#[verifier::external_body]
pub(crate) fn check_pattern(pattern: &str) -> (r: Option<String>)
    ensures
        text::text_opt(r) == pattern_error(pattern@),
{
    glob::Pattern::new(pattern).err().map(|e| e.to_string())
}

/// Whether a text matches a glob pattern, as `glob::Pattern::matches` has it.
pub uninterp spec fn glob_matches(pattern: Seq<char>, s: Seq<char>) -> bool;

/// `glob::Pattern::matches`. Nothing matches a pattern that is not one.
#[verifier::external_body]
pub(crate) fn match_pattern(pattern: &str, s: &str) -> (r: bool)
    ensures
        r == (pattern_error(pattern@) is None && glob_matches(pattern@, s@)),
{
    glob::Pattern::new(pattern).map(|p| p.matches(s)).unwrap_or(false)
}

/// A host that is reached without the upstream proxy.
#[derive(Clone, Debug)]
pub enum BypassRule {
    /// A network: an address of it and the length of its prefix.
    Cidr { net: IpAddress, prefix: u8 },
    Ip(IpAddress),
    /// A pattern of host names.
    Glob(String),
}

/// What a rule holds.
pub enum RuleView {
    Cidr { net: IpAddress, prefix: u8 },
    Ip(IpAddress),
    Glob(Seq<char>),
}

impl View for BypassRule {
    type V = RuleView;

    open spec fn view(&self) -> RuleView {
        match *self {
            BypassRule::Cidr { net, prefix } => RuleView::Cidr { net, prefix },
            BypassRule::Ip(ip) => RuleView::Ip(ip),
            BypassRule::Glob(p) => RuleView::Glob(p@),
        }
    }
}

/// Whether the prefix of a network fits its address.
pub open spec fn well_formed(rule: RuleView) -> bool {
    match rule {
        RuleView::Cidr { net, prefix } => addr::prefix_fits(net, prefix),
        _ => true,
    }
}

/// The rule a text stands for, or what is wrong with it: `cidr:` and a network, an address, or a
/// pattern of host names.
pub open spec fn rule_of(raw: Seq<char>) -> Result<RuleView, Seq<char>> {
    if text::starts(raw, "cidr:"@) {
        let cidr = raw.subrange(5, raw.len() as int);
        match addr::network_of(cidr) {
            Ok(n) => Ok(RuleView::Cidr { net: n.0, prefix: n.1 }),
            Err(e) => Err("invalid CIDR '"@ + cidr + "': "@ + e),
        }
    } else {
        match addr::address_of(raw) {
            Some(ip) => Ok(RuleView::Ip(ip)),
            None => match pattern_error(raw) {
                None => Ok(RuleView::Glob(raw)),
                Some(e) => Err("invalid glob '"@ + raw + "': "@ + e),
            },
        }
    }
}

/// Whether a rule lets a host past the upstream proxy.
pub open spec fn passes_host(rule: RuleView, host: Seq<char>) -> bool {
    match rule {
        RuleView::Cidr { net, prefix } => match addr::address_of(host) {
            Some(ip) => addr::same_network(net, prefix, ip),
            None => false,
        },
        RuleView::Ip(ip) => addr::address_of(host) == Some(ip),
        RuleView::Glob(p) => pattern_error(p) is None && glob_matches(p, host),
    }
}

/// Whether a rule lets an address past the upstream proxy. Patterns are about names alone.
pub open spec fn passes_ip(rule: RuleView, ip: IpAddress) -> bool {
    match rule {
        RuleView::Cidr { net, prefix } => addr::same_network(net, prefix, ip),
        RuleView::Ip(a) => a == ip,
        RuleView::Glob(_) => false,
    }
}

/// What parsing a rule gave.
pub open spec fn rule_result(r: Result<BypassRule, String>) -> Result<RuleView, Seq<char>> {
    match r {
        Ok(rule) => Ok(rule@),
        Err(e) => Err(e@),
    }
}

impl BypassRule {
    /// Read a rule.
    pub fn parse(raw: &str) -> (r: Result<Self, String>)
        ensures
            rule_result(r) == rule_of(raw@),
            r matches Ok(rule) ==> well_formed(rule@),
            text::starts(raw@, "cidr:"@) ==> (addr::network_of(raw@.subrange(5, raw@.len() as int)) matches Ok(n) ==> (
            r matches Ok(rule) && rule@ == (RuleView::Cidr { net: n.0, prefix: n.1 }))),
            !text::starts(raw@, "cidr:"@) ==> (addr::address_of(raw@) matches Some(ip) ==> (r matches Ok(rule) && rule@
                == RuleView::Ip(ip))),
            !text::starts(raw@, "cidr:"@) && addr::address_of(raw@) is None ==> (r is Ok <==> pattern_error(raw@) is None)
                && (r matches Ok(rule) ==> rule@ == RuleView::Glob(raw@)),
    {
        proof {
            reveal_strlit("cidr:");
        }
        if text::starts_with(raw, "cidr:") {
            let cidr = text::skip(raw, 5);
            return match addr::parse_network(cidr.as_str()) {
                Ok(n) => Ok(BypassRule::Cidr { net: n.0, prefix: n.1 }),
                Err(e) => Err(text::concat4("invalid CIDR '", cidr.as_str(), "': ", e.as_str())),
            };
        }
        match addr::parse_address(raw) {
            Some(ip) => Ok(BypassRule::Ip(ip)),
            None => match check_pattern(raw) {
                None => Ok(BypassRule::Glob(text::copy(raw))),
                Some(e) => Err(text::concat4("invalid glob '", raw, "': ", e.as_str())),
            },
        }
    }

    /// Whether a host, by name or address, is reached without the upstream proxy.
    pub fn matches_host(&self, hostname: &str) -> (r: bool)
        requires
            well_formed(self@),
        ensures
            r == passes_host(self@, hostname@),
            self matches BypassRule::Ip(ip) ==> r == (addr::address_of(hostname@) == Some(*ip)),
            self matches BypassRule::Glob(p) ==> (r ==> glob_matches(p@, hostname@)),
            self matches BypassRule::Cidr { net, prefix } ==> r == (addr::address_of(hostname@) matches Some(ip)
                && addr::same_network(*net, *prefix, ip)),
    {
        match self {
            BypassRule::Cidr { net, prefix } => match addr::parse_address(hostname) {
                Some(ip) => addr::network_contains(*net, *prefix, ip),
                None => false,
            },
            BypassRule::Ip(ip) => match addr::parse_address(hostname) {
                Some(parsed) => parsed == *ip,
                None => false,
            },
            BypassRule::Glob(p) => match_pattern(p.as_str(), hostname),
        }
    }

    /// Whether an address is reached without the upstream proxy.
    pub fn matches_ip(&self, ip: &IpAddress) -> (r: bool)
        requires
            well_formed(self@),
        ensures
            r == passes_ip(self@, *ip),
            self matches BypassRule::Ip(own) ==> r == (*own == *ip),
            self matches BypassRule::Cidr { net, prefix } ==> r == addr::same_network(*net, *prefix, *ip),
            self is Glob ==> !r,
    {
        match self {
            BypassRule::Cidr { net, prefix } => addr::network_contains(*net, *prefix, *ip),
            BypassRule::Ip(a) => *a == *ip,
            BypassRule::Glob(_) => false,
        }
    }
}

/// Who the proxy is to the upstream proxy.
#[derive(Clone, Debug)]
pub struct UpstreamAuth {
    pub username: String,
    pub password: String,
}

/// An upstream proxy.
#[derive(Clone, Debug)]
pub struct UpstreamProxyConfig {
    pub proxy_url: String,
    pub bypass_hosts: Vec<String>,
    pub auth: Option<UpstreamAuth>,
}

/// The value of the `Proxy-Authorization` field for some credentials.
pub open spec fn basic_credentials(username: Seq<char>, password: Seq<char>) -> Seq<char> {
    "Basic "@ + body_codec::base64(vstd::utf8::encode_utf8(username + ":"@ + password))
}

/// The value of the `Proxy-Authorization` field, where the upstream proxy asks for one.
pub fn upstream_proxy_authorization(upstream: &UpstreamProxyConfig) -> (r: Option<String>)
    ensures
        text::text_opt(r) == match upstream.auth {
            Some(a) => Some(basic_credentials(a.username@, a.password@)),
            None => None,
        },
        upstream.auth is None ==> r is None,
        upstream.auth matches Some(a) ==> (r matches Some(v) && v@ == "Basic "@ + body_codec::base64(
            vstd::utf8::encode_utf8(a.username@ + ":"@ + a.password@),
        )),
{
    match &upstream.auth {
        Some(a) => {
            let credentials = text::concat3(a.username.as_str(), ":", a.password.as_str());
            let encoded = body_codec::to_base64(credentials.as_str().as_bytes());
            Some(text::concat2("Basic ", encoded.as_str()))
        },
        None => None,
    }
}

/// Whether an entry lets a host, or the address it was reached by, past the upstream proxy. An entry
/// that is no rule lets nothing past.
pub open spec fn entry_passes(entry: Seq<char>, host: Seq<char>, ip: Option<IpAddress>) -> bool {
    match rule_of(entry) {
        Ok(rule) => passes_host(rule, host) || (ip is Some && passes_ip(rule, ip->0)),
        Err(_) => false,
    }
}

/// Whether a host is reached without the upstream proxy.
pub fn should_bypass(upstream: &UpstreamProxyConfig, host: &str, ip: Option<IpAddress>) -> (r: bool)
    ensures
        r == exists|i: int|
            0 <= i < upstream.bypass_hosts@.len() && entry_passes(
                (#[trigger] upstream.bypass_hosts@[i])@,
                host@,
                ip,
            ),
{
    let mut i: usize = 0;
    while i < upstream.bypass_hosts.len()
        invariant
            i <= upstream.bypass_hosts@.len(),
            forall|j: int| 0 <= j < i ==> !entry_passes((#[trigger] upstream.bypass_hosts@[j])@, host@, ip),
        decreases upstream.bypass_hosts.len() - i,
    {
        match BypassRule::parse(upstream.bypass_hosts[i].as_str()) {
            Ok(rule) => {
                if rule.matches_host(host) {
                    assert(entry_passes(upstream.bypass_hosts@[i as int]@, host@, ip));
                    return true;
                }
                match ip {
                    Some(a) => {
                        if rule.matches_ip(&a) {
                            assert(entry_passes(upstream.bypass_hosts@[i as int]@, host@, ip));
                            return true;
                        }
                    },
                    None => {},
                }
            },
            Err(_) => {},
        }
        i = i + 1;
    }
    false
}

/// Without entries nothing bypasses the upstream proxy, and one more entry never takes a bypass away.
pub proof fn law_bypass_entries_only_add(
    entries: Seq<Seq<char>>,
    more: Seq<char>,
    host: Seq<char>,
    ip: Option<IpAddress>,
)
    ensures
        !passes_any(Seq::empty(), host, ip),
        passes_any(entries, host, ip) ==> passes_any(entries.push(more), host, ip),
        passes_any(entries.push(more), host, ip) == (passes_any(entries, host, ip) || entry_passes(more, host, ip)),
{
    let all = entries.push(more);
    if passes_any(entries, host, ip) {
        let i = choose|i: int| 0 <= i < entries.len() && entry_passes(#[trigger] entries[i], host, ip);
        assert(all[i] == entries[i]);
    }
    if entry_passes(more, host, ip) {
        assert(all[entries.len() as int] == more);
    }
    if passes_any(all, host, ip) && !entry_passes(more, host, ip) {
        let i = choose|i: int| 0 <= i < all.len() && entry_passes(#[trigger] all[i], host, ip);
        assert(all[i] == entries[i]);
    }
}

/// Whether one of some entries lets a host past the upstream proxy.
pub open spec fn passes_any(entries: Seq<Seq<char>>, host: Seq<char>, ip: Option<IpAddress>) -> bool {
    exists|i: int| 0 <= i < entries.len() && entry_passes(#[trigger] entries[i], host, ip)
}

/// Where an upstream proxy listens, or why its URL says nothing of it. Without a port in the URL or
/// one that its scheme is known for, it is `default_port`.
pub open spec fn endpoint_of(url: Seq<char>, default_port: u16) -> Result<(Seq<char>, u16), Seq<char>> {
    match urls::url_of(url) {
        Err(e) => Err("invalid proxy URL: "@ + e),
        Ok(u) => match u.host {
            None => Err("proxy URL missing host"@),
            Some(host) => Ok(
                (
                    host,
                    match u.port {
                        Some(p) => p,
                        None => default_port,
                    },
                ),
            ),
        },
    }
}

/// The host and port an upstream proxy listens on.
pub fn proxy_endpoint(url: &str, default_port: u16) -> (r: Result<(String, u16), UpstreamError>)
    ensures
        match r {
            Ok(e) => endpoint_of(url@, default_port) == Ok::<(Seq<char>, u16), Seq<char>>((e.0@, e.1)),
            Err(UpstreamError::Unreachable(m)) => endpoint_of(url@, default_port) == Err::<
                (Seq<char>, u16),
                Seq<char>,
            >(m@),
            Err(_) => false,
        },
        urls::url_of(url@) is Err ==> r is Err,
        urls::url_of(url@) matches Ok(u) ==> (u.host is None ==> r is Err) && (u.host matches Some(h) ==> (
        r matches Ok(e) && e.0@ == h && (u.port matches Some(p) ==> e.1 == p) && (u.port is None ==> e.1
            == default_port))),
{
    match urls::parse_url(url) {
        Err(e) => Err(UpstreamError::Unreachable(text::concat2("invalid proxy URL: ", e.as_str()))),
        Ok(u) => match u.host {
            None => Err(UpstreamError::Unreachable(text::copy("proxy URL missing host"))),
            Some(host) => {
                let port: u16 = match u.port {
                    Some(p) => p,
                    None => default_port,
                };
                Ok((host, port))
            },
        },
    }
}

/// Whether a request goes through the upstream proxy in a tunnel: an HTTPS request does.
pub fn needs_tunnel(request: &ForwardRequest) -> (r: bool)
    ensures
        r == (request@.uri.scheme == Some("https"@)),
{
    match &request.uri.scheme {
        Some(s) => text::same_text(s.as_str(), "https"),
        None => false,
    }
}

/// The target of a request that an upstream proxy is to fetch.
pub open spec fn absolute_target(host: Seq<char>, port: u16, path: Option<Seq<char>>) -> Seq<char> {
    "http://"@ + host + ":"@ + text::decimal(port as nat) + match path {
        Some(p) => p,
        None => "/"@,
    }
}

/// The fields of a request but for those about one connection only.
pub open spec fn passed_fields(fields: Seq<(Seq<char>, Seq<u8>)>) -> Seq<(Seq<char>, Seq<Seq<u8>>)>
    decreases fields.len(),
{
    if fields.len() == 0 {
        Seq::empty()
    } else {
        let rest = passed_fields(fields.drop_last());
        if http_utils::hop_names().contains(fields.last().0) {
            rest
        } else {
            headers::with_appended(rest, fields.last().0, fields.last().1)
        }
    }
}

/// What building the request that an upstream proxy is to fetch leads to.
pub open spec fn absolute_outcome(
    request: ForwardView,
    host: Seq<char>,
    port: u16,
    r: Result<ForwardView, UpstreamErrorView>,
) -> bool {
    let fields = passed_fields(headers::flat(request.headers));
    match urls::uri_of(absolute_target(host, port, request.uri.path_and_query)) {
        Err(e) => r == Err::<ForwardView, UpstreamErrorView>(UpstreamErrorView::Io(e)),
        Ok(uri) => {
            ||| r == Ok::<ForwardView, UpstreamErrorView>(ForwardView { uri, headers: fields, ..request })
            ||| r == Err::<ForwardView, UpstreamErrorView>(UpstreamErrorView::Io("max size reached"@)) && fields.len()
                > headers::FIELD_CAPACITY
        },
    }
}

/// What building a request gave.
pub open spec fn built(r: Result<ForwardRequest, UpstreamError>) -> Result<ForwardView, UpstreamErrorView> {
    match r {
        Ok(q) => Ok(q@),
        Err(e) => Err(e@),
    }
}

proof fn lemma_passed_grows(fields: Seq<(Seq<char>, Seq<u8>)>, n: int)
    requires
        0 <= n <= fields.len(),
    ensures
        passed_fields(fields.subrange(0, n)).len() <= passed_fields(fields).len(),
    decreases fields.len(),
{
    if n == fields.len() {
        assert(fields.subrange(0, n) =~= fields);
    } else {
        let rest = fields.drop_last();
        assert(fields.subrange(0, n) =~= rest.subrange(0, n));
        lemma_passed_grows(rest, n);
        headers::lemma_position(passed_fields(rest), fields.last().0);
    }
}

/// The request an upstream proxy is to fetch: with an absolute target, and without the fields that
/// are about the client's connection. Whether more than `FIELD_CAPACITY` names still fit depends on
/// how they hash.
pub fn build_absolute_request(request: &ForwardRequest, target_host: &str, target_port: u16) -> (r: Result<
    ForwardRequest,
    UpstreamError,
>)
    ensures
        absolute_outcome(request@, target_host@, target_port, built(r)),
        r matches Ok(q) ==> q.method@ == request.method@ && q.version == request.version && urls::uri_of(
            "http://"@ + target_host@ + ":"@ + text::decimal(target_port as nat) + (match request@.uri.path_and_query {
                Some(p) => p,
                None => "/"@,
            }),
        ) == Ok::<urls::UriView, Seq<char>>(q@.uri),
        r matches Err(e) ==> e is Io,
{
    let path = match &request.uri.path_and_query {
        Some(p) => p.as_str(),
        None => "/",
    };
    let mut target = text::concat3("http://", target_host, ":");
    target.append(text::decimal_text(target_port as u64).as_str());
    target.append(path);
    assert(target@ =~= absolute_target(target_host@, target_port, request@.uri.path_and_query));
    let uri = match urls::parse_uri(target.as_str()) {
        Ok(u) => u,
        Err(e) => {
            return Err(UpstreamError::Io(e));
        },
    };
    let mut out = headers::new_headers();
    let all = headers::fields(&request.headers);
    let ghost seen = all@.map_values(|f: (String, Vec<u8>)| (f.0@, f.1@));
    let mut i: usize = 0;
    while i < all.len()
        invariant
            i <= all@.len(),
            seen == all@.map_values(|f: (String, Vec<u8>)| (f.0@, f.1@)),
            seen == headers::flat(request@.headers),
            urls::uri_of(absolute_target(target_host@, target_port, request@.uri.path_and_query)) == Ok::<
                urls::UriView,
                Seq<char>,
            >(uri@),
            forall|j: int|
                0 <= j < all@.len() ==> headers::valid_name((#[trigger] all@[j]).0@) && text::lower(all@[j].0@)
                    == all@[j].0@ && headers::valid_value(all@[j].1@),
            headers::header_entries(out) == passed_fields(seen.subrange(0, i as int)),
        decreases all.len() - i,
    {
        let ghost prefix = seen.subrange(0, i + 1);
        proof {
            assert(prefix.drop_last() =~= seen.subrange(0, i as int));
            assert(prefix.last() == (all@[i as int].0@, all@[i as int].1@));
            lemma_passed_grows(seen, i as int);
        }
        if !http_utils::is_hop_by_hop(all[i].0.as_str()) {
            if !headers::append(&mut out, all[i].0.as_str(), all[i].1.as_slice()) {
                return Err(UpstreamError::Io(text::copy("max size reached")));
            }
        }
        i = i + 1;
    }
    assert(seen.subrange(0, i as int) =~= seen);
    Ok(ForwardRequest { method: text::copy(request.method.as_str()), uri, version: request.version, headers: out })
}

/// The request that asks an upstream proxy for a tunnel.
pub open spec fn connect_text(host: Seq<char>, port: u16, auth: Option<Seq<char>>) -> Seq<char> {
    let authority = host + ":"@ + text::decimal(port as nat);
    "CONNECT "@ + authority + " HTTP/1.1\r\nHost: "@ + authority + "\r\n"@ + match auth {
        Some(a) => "Proxy-Authorization: "@ + a + "\r\n"@,
        None => Seq::empty(),
    } + "\r\n"@
}

/// Write the request that asks an upstream proxy for a tunnel.
pub fn connect_request(host: &str, port: u16, proxy_auth: Option<&str>) -> (r: String)
    ensures
        r@ == connect_text(host@, port, text::str_opt(proxy_auth)),
        proxy_auth is None ==> r@ == "CONNECT "@ + (host@ + ":"@ + text::decimal(port as nat)) + " HTTP/1.1\r\nHost: "@ + (
        host@ + ":"@ + text::decimal(port as nat)) + "\r\n"@ + "\r\n"@,
        proxy_auth matches Some(a) ==> r@ == "CONNECT "@ + (host@ + ":"@ + text::decimal(port as nat))
            + " HTTP/1.1\r\nHost: "@ + (host@ + ":"@ + text::decimal(port as nat)) + "\r\n"@ + (
        "Proxy-Authorization: "@ + a@ + "\r\n"@) + "\r\n"@,
{
    let authority = text::concat3(host, ":", text::decimal_text(port as u64).as_str());
    let mut out = text::concat4("CONNECT ", authority.as_str(), " HTTP/1.1\r\nHost: ", authority.as_str());
    out.append("\r\n");
    match proxy_auth {
        Some(auth) => {
            let line = text::concat3("Proxy-Authorization: ", auth, "\r\n");
            out.append(line.as_str());
        },
        None => {
            assert(out@ =~= out@ + Seq::<char>::empty());
        },
    }
    out.append("\r\n");
    out
}

/// How long the status line of an answer to CONNECT may be, and how many bytes of fields are read.
pub const STATUS_LINE_MAX: usize = 512;

pub const CONNECT_FIELDS_MAX: usize = 4096;

/// The answer to a CONNECT request while it is read.
#[derive(Clone, Debug)]
pub struct ConnectHandshake {
    pub line: Vec<u8>,
    /// The status, once the status line is complete.
    pub status: Option<u16>,
    pub rest: Vec<u8>,
}

/// What was read of the answer to a CONNECT request.
#[verifier::ext_equal]
pub struct HandshakeView {
    pub line: Seq<u8>,
    pub status: Option<u16>,
    pub rest: Seq<u8>,
}

impl View for ConnectHandshake {
    type V = HandshakeView;

    open spec fn view(&self) -> HandshakeView {
        HandshakeView { line: self.line@, status: self.status, rest: self.rest@ }
    }
}

/// What to do next about a CONNECT request.
#[derive(Clone, Debug)]
pub enum ConnectStep {
    /// Read at most so many bytes more.
    Read(usize),
    /// The answer has been read; this is its status.
    Answered(u16),
    Failed(UpstreamError),
}

/// What to do next about a CONNECT request.
#[verifier::ext_equal]
pub enum ConnectStepView {
    Read(nat),
    Answered(u16),
    Failed(UpstreamErrorView),
}

impl View for ConnectStep {
    type V = ConnectStepView;

    open spec fn view(&self) -> ConnectStepView {
        match *self {
            ConnectStep::Read(n) => ConnectStepView::Read(n as nat),
            ConnectStep::Answered(status) => ConnectStepView::Answered(status),
            ConnectStep::Failed(e) => ConnectStepView::Failed(e@),
        }
    }
}

/// Whether some bytes end with a line break.
pub open spec fn ends_line(bytes: Seq<u8>) -> bool {
    bytes.len() >= 2 && bytes[bytes.len() - 2] == 13 && bytes[bytes.len() - 1] == 10
}

/// Whether what follows a status line ends with an empty line: the fields are over. The line break
/// of the status line counts, so that an answer without fields is over at once.
pub open spec fn ends_fields(rest: Seq<u8>) -> bool {
    let bytes = seq![13u8, 10u8] + rest;
    bytes.len() >= 4 && ends_line(bytes) && ends_line(bytes.subrange(0, bytes.len() - 2))
}

/// The status in a status line: its second word.
pub open spec fn status_in(line: Seq<u8>) -> Option<nat> {
    let parts = text::words(text::trimmed(headers::lossy_text(line)));
    if parts.len() < 2 {
        None
    } else {
        text::unsigned(parts[1], 65535)
    }
}

/// Whether an answer is still being read.
pub open spec fn unfinished(h: HandshakeView) -> bool {
    match h.status {
        None => h.line.len() < STATUS_LINE_MAX && !ends_line(h.line) && h.rest.len() == 0,
        Some(_) => h.rest.len() < CONNECT_FIELDS_MAX && !ends_fields(h.rest),
    }
}

/// How many bytes may be read at once: one of the status line, which must not be overrun, and as
/// many of the fields as there is room for.
pub open spec fn room(h: HandshakeView) -> nat {
    match h.status {
        None => 1,
        Some(_) => (CONNECT_FIELDS_MAX - h.rest.len()) as nat,
    }
}

/// An answer that cannot be read counts as refused with status 0.
pub open spec fn unreadable() -> ConnectStepView {
    ConnectStepView::Failed(UpstreamErrorView::ConnectRefused { status: 0 })
}

/// An answer once some more of it has been read, and what to do next.
pub open spec fn after_read(h: HandshakeView, bytes: Seq<u8>) -> (HandshakeView, ConnectStepView) {
    match h.status {
        None => if bytes.len() == 0 {
            (h, ConnectStepView::Failed(
                UpstreamErrorView::Unreachable("connection closed during CONNECT handshake"@),
            ))
        } else {
            let line = h.line + bytes;
            let next = HandshakeView { line, ..h };
            if !ends_line(line) {
                if line.len() >= STATUS_LINE_MAX {
                    (next, unreadable())
                } else {
                    (next, ConnectStepView::Read(1))
                }
            } else {
                match status_in(line) {
                    None => (next, unreadable()),
                    Some(status) => (
                        HandshakeView { status: Some(status as u16), ..next },
                        ConnectStepView::Read(CONNECT_FIELDS_MAX as nat),
                    ),
                }
            }
        },
        Some(status) => if bytes.len() == 0 {
            (h, ConnectStepView::Failed(
                UpstreamErrorView::Unreachable("connection closed during CONNECT response"@),
            ))
        } else {
            let rest = h.rest + bytes;
            let next = HandshakeView { rest, ..h };
            if ends_fields(rest) || rest.len() >= CONNECT_FIELDS_MAX {
                (next, ConnectStepView::Answered(status))
            } else {
                (next, ConnectStepView::Read((CONNECT_FIELDS_MAX - rest.len()) as nat))
            }
        },
    }
}

impl ConnectHandshake {
    /// Nothing read yet.
    pub fn new() -> (r: Self)
        ensures
            r@ == (HandshakeView { line: Seq::empty(), status: None, rest: Seq::empty() }),
            unfinished(r@),
    {
        ConnectHandshake { line: Vec::new(), status: None, rest: Vec::new() }
    }

    /// Some bytes of the answer were read; none were where the connection was closed.
    pub fn on_read(&mut self, bytes: &[u8]) -> (r: ConnectStep)
        requires
            unfinished(old(self)@),
            bytes@.len() <= room(old(self)@),
        ensures
            final(self)@ == after_read(old(self)@, bytes@).0,
            r@ == after_read(old(self)@, bytes@).1,
            r is Read ==> unfinished(final(self)@),
            bytes@.len() == 0 ==> (r matches ConnectStep::Failed(e) && e is Unreachable),
            r matches ConnectStep::Answered(status) ==> old(self)@.status == Some(status),
            old(self)@.status matches Some(status) ==> ({
                let rest = old(self)@.rest + bytes@;
                bytes@.len() > 0 && (rest == seq![13u8, 10u8] || rest.len() >= 4 && rest[rest.len() - 4] == 13 && rest[
                rest.len() - 3] == 10 && rest[rest.len() - 2] == 13 && rest[rest.len() - 1] == 10) ==> r
                    == ConnectStep::Answered(status)
            }),
    {
        proof {
            law_empty_lines_end_the_fields(old(self)@.rest + bytes@);
        }
        match self.status {
            None => {
                if bytes.len() == 0 {
                    return ConnectStep::Failed(
                        UpstreamError::Unreachable(text::copy("connection closed during CONNECT handshake")),
                    );
                }
                self.line.extend_from_slice(bytes);
                assert(self.line@ =~= old(self)@.line + bytes@);
                let n: usize = self.line.len();
                if !(n >= 2 && self.line[n - 2] == 13 && self.line[n - 1] == 10) {
                    if n >= STATUS_LINE_MAX {
                        return ConnectStep::Failed(UpstreamError::ConnectRefused { status: 0 });
                    }
                    return ConnectStep::Read(1);
                }
                match read_status(self.line.as_slice()) {
                    None => ConnectStep::Failed(UpstreamError::ConnectRefused { status: 0 }),
                    Some(status) => {
                        self.status = Some(status);
                        ConnectStep::Read(CONNECT_FIELDS_MAX)
                    },
                }
            },
            Some(status) => {
                if bytes.len() == 0 {
                    return ConnectStep::Failed(
                        UpstreamError::Unreachable(text::copy("connection closed during CONNECT response")),
                    );
                }
                self.rest.extend_from_slice(bytes);
                assert(self.rest@ =~= old(self)@.rest + bytes@);
                let n: usize = self.rest.len();
                if fields_are_over(self.rest.as_slice()) {
                    return ConnectStep::Answered(status);
                }
                if n >= CONNECT_FIELDS_MAX {
                    return ConnectStep::Answered(status);
                }
                ConnectStep::Read(CONNECT_FIELDS_MAX - n)
            },
        }
    }
}

fn fields_are_over(rest: &[u8]) -> (r: bool)
    ensures
        r == ends_fields(rest@),
{
    let n: usize = rest.len();
    let ghost bytes = seq![13u8, 10u8] + rest@;
    assert(forall|i: int| 0 <= i < n ==> bytes[i + 2] == rest@[i]);
    if n == 2 {
        return rest[0] == 13 && rest[1] == 10;
    }
    n >= 4 && rest[n - 4] == 13 && rest[n - 3] == 10 && rest[n - 2] == 13 && rest[n - 1] == 10
}

fn read_status(line: &[u8]) -> (r: Option<u16>)
    ensures
        match r {
            Some(status) => status_in(line@) == Some(status as nat),
            None => status_in(line@) is None,
        },
{
    let decoded = headers::lossy(line);
    let trimmed = text::trim(decoded.as_str());
    let parts = text::split_words(trimmed.as_str());
    assert(text::texts(parts@).len() == parts@.len());
    if parts.len() < 2 {
        return None;
    }
    assert(text::texts(parts@)[1] == parts@[1]@);
    match text::parse_unsigned(parts[1].as_str(), 65535) {
        Some(n) => Some(n as u16),
        None => None,
    }
}

/// Whether the upstream proxy has opened the tunnel: any status that reports success says so.
pub fn tunnel_granted(status: u16) -> (r: Result<(), UpstreamError>)
    ensures
        r == (if 200 <= status < 300 {
            Ok(())
        } else {
            Err(UpstreamError::ConnectRefused { status })
        }),
{
    if 200 <= status && status < 300 {
        Ok(())
    } else {
        Err(UpstreamError::ConnectRefused { status })
    }
}

/// The credentials of the client's connection, and whatever else is about that connection alone, do
/// not reach an upstream proxy that fetches for it.
pub proof fn law_absolute_requests_drop_hop_by_hop_fields(fields: Seq<(Seq<char>, Seq<u8>)>, name: Seq<char>)
    requires
        http_utils::hop_names().contains(name),
    ensures
        !headers::present(passed_fields(fields), name),
    decreases fields.len(),
{
    if fields.len() > 0 {
        let before = passed_fields(fields.drop_last());
        law_absolute_requests_drop_hop_by_hop_fields(fields.drop_last(), name);
        headers::lemma_position(before, name);
        headers::lemma_position(before, fields.last().0);
        headers::lemma_position(passed_fields(fields), name);
        let after = passed_fields(fields);
        if headers::present(after, name) {
            let p = headers::position(after, name);
            assert(after[p].0 == name);
            if p < before.len() {
                assert(before[p].0 == name);
            }
        }
    } else {
        headers::lemma_position(passed_fields(fields), name);
    }
}

/// The fields of an answer are over with an empty line: behind some fields, or at once.
pub proof fn law_empty_lines_end_the_fields(rest: Seq<u8>)
    ensures
        ends_fields(rest) <==> rest == seq![13u8, 10u8] || rest.len() >= 4 && rest[rest.len() - 4] == 13 && rest[rest.len()
            - 3] == 10 && rest[rest.len() - 2] == 13 && rest[rest.len() - 1] == 10,
{
    let bytes = seq![13u8, 10u8] + rest;
    assert(forall|i: int| 0 <= i < rest.len() ==> bytes[i + 2] == rest[i]);
    if rest.len() == 2 && ends_fields(rest) {
        assert(rest =~= seq![13u8, 10u8]);
    }
}

/// An answer to CONNECT has the status of its status line, however its bytes arrive.
pub proof fn law_connect_answers_keep_their_status(h: HandshakeView, bytes: Seq<u8>, status: u16)
    requires
        h.status == Some(status),
        bytes.len() > 0,
    ensures
        after_read(h, bytes).0.status == Some(status),
        after_read(h, bytes).0.rest == h.rest + bytes,
        after_read(h, bytes).1 matches ConnectStepView::Answered(s) ==> s == status,
        after_read(h, bytes).1 !is Failed,
        ends_fields(h.rest + bytes) ==> after_read(h, bytes).1 == ConnectStepView::Answered(status),
        !ends_fields(h.rest + bytes) && h.rest.len() + bytes.len() < 4096 ==> after_read(h, bytes).1 is Read,
{
}

/// A complete status line with a status in it lets the fields be read; what is no status line is
/// refused.
pub proof fn law_status_lines_decide(h: HandshakeView, bytes: Seq<u8>)
    requires
        h.status is None,
        bytes.len() > 0,
    ensures
        ends_line(h.line + bytes) ==> (status_in(h.line + bytes) matches Some(n) ==> after_read(h, bytes).0.status
            == Some(n as u16) && after_read(h, bytes).1 is Read),
        ends_line(h.line + bytes) && status_in(h.line + bytes) is None ==> after_read(h, bytes).1 is Failed,
        !ends_line(h.line + bytes) && h.line.len() + bytes.len() < 512 ==> after_read(h, bytes).1 is Read
            && after_read(h, bytes).0.line == h.line + bytes,
        after_read(h, bytes).1 !is Answered,
{
}

/// Which hosts an entry lets past the upstream proxy: those of a network, one address, or those a
/// pattern matches.
pub proof fn law_entries_name_whom_they_let_past(entry: Seq<char>, host: Seq<char>, ip: Option<IpAddress>)
    ensures
        text::starts(entry, "cidr:"@) ==> (addr::network_of(entry.subrange(5, entry.len() as int)) matches Ok(n)
            ==> entry_passes(entry, host, ip) == ((addr::address_of(host) matches Some(a) && addr::same_network(
            n.0,
            n.1,
            a,
        )) || (ip matches Some(a) && addr::same_network(n.0, n.1, a)))),
        !text::starts(entry, "cidr:"@) ==> (addr::address_of(entry) matches Some(own) ==> entry_passes(entry, host, ip)
            == (addr::address_of(host) == Some(own) || ip == Some(own))),
        !text::starts(entry, "cidr:"@) && addr::address_of(entry) is None && pattern_error(entry) is None
            ==> entry_passes(entry, host, ip) == glob_matches(entry, host),
        !text::starts(entry, "cidr:"@) && addr::address_of(entry) is None && pattern_error(entry) is Some
            ==> !entry_passes(entry, host, ip),
{
}

proof fn lemma_passed_values(fields: Seq<(Seq<char>, Seq<u8>)>, name: Seq<char>)
    ensures
        headers::values(passed_fields(fields), name) == (if http_utils::hop_names().contains(name) {
            Seq::empty()
        } else {
            headers::field_values(fields, name)
        }),
    decreases fields.len(),
{
    if fields.len() == 0 {
        headers::lemma_position(Seq::empty(), name);
        assert(headers::values(passed_fields(fields), name) =~= Seq::empty());
    } else {
        lemma_passed_values(fields.drop_last(), name);
        if !http_utils::hop_names().contains(fields.last().0) {
            headers::lemma_appended_values(
                passed_fields(fields.drop_last()),
                fields.last().0,
                fields.last().1,
                name,
            );
        }
    }
}

/// A request that an upstream proxy is to fetch is the one that was to be sent: its method, its
/// version and under each name its values, but for what is about one connection.
pub proof fn law_absolute_requests_repeat_the_request(
    request: ForwardView,
    host: Seq<char>,
    port: u16,
    r: Result<ForwardView, UpstreamErrorView>,
    name: Seq<char>,
)
    requires
        absolute_outcome(request, host, port, r),
        r is Ok,
    ensures
        r->Ok_0.method == request.method,
        r->Ok_0.version == request.version,
        request.uri.path_and_query matches Some(p) ==> urls::uri_of(
            "http://"@ + host + ":"@ + text::decimal(port as nat) + p,
        ) == Ok::<urls::UriView, Seq<char>>(r->Ok_0.uri),
        name == "connection"@ || name == "keep-alive"@ || name == "proxy-authenticate"@ || name
            == "proxy-authorization"@ || name == "te"@ || name == "trailers"@ || name == "transfer-encoding"@ || name
            == "upgrade"@ ==> headers::values(r->Ok_0.headers, name).len() == 0,
        name != "connection"@ && name != "keep-alive"@ && name != "proxy-authenticate"@ && name
            != "proxy-authorization"@ && name != "te"@ && name != "trailers"@ && name != "transfer-encoding"@ && name
            != "upgrade"@ ==> headers::values(r->Ok_0.headers, name) == headers::field_values(
            headers::flat(request.headers),
            name,
        ),
{
    http_utils::law_hop_by_hop_fields_are_these(name);
    lemma_passed_values(headers::flat(request.headers), name);
}

/// The status of an answer is the number that is the second word of its first line.
pub proof fn law_statuses_are_the_second_word(line: Seq<u8>, status: u16)
    requires
        text::words(text::trimmed(headers::lossy_text(line))).len() >= 2,
        text::words(text::trimmed(headers::lossy_text(line)))[1] == text::decimal(status as nat),
    ensures
        status_in(line) == Some(status as nat),
{
    text::lemma_decimal_reads_back(status as nat, 65535);
}

} // verus!
