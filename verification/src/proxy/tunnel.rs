//! What runs inside a CONNECT tunnel: TLS, or plaintext HTTP.
use vstd::prelude::*;

use crate::text;
use crate::urls;
use crate::urls::{TargetUri, UriView};

verus! {

/// What the client is speaking inside a CONNECT tunnel. A tunnel is not necessarily TLS: gRPC over
/// plaintext reaches a proxy as CONNECT followed by an HTTP/2 preface.
#[derive(Clone, Copy, Debug, PartialEq, Eq, Structural)]
pub enum TunnelProtocol {
    /// A TLS record; terminate it and serve decrypted HTTP inside.
    Tls,
    /// Plaintext HTTP/1.x.
    PlaintextHttp1,
    /// Plaintext HTTP/2 by prior knowledge.
    PlaintextH2,
}

/// The longest prefix needed to tell: the HTTP/2 client preface.
pub const SNIFF_LEN: usize = 24;

/// How long the first bytes of a tunnel may take, in seconds.
pub const PREFACE_TIMEOUT_SECS: u64 = 10;

/// The bytes of `PRI * HTTP/2.0`.
pub open spec fn h2_magic() -> Seq<u8> {
    seq![0x50u8, 0x52, 0x49, 0x20, 0x2a, 0x20, 0x48, 0x54, 0x54, 0x50, 0x2f, 0x32, 0x2e, 0x30]
}

/// Whether some bytes begin with others.
pub open spec fn begins(bytes: Seq<u8>, start: Seq<u8>) -> bool {
    start.len() <= bytes.len() && bytes.subrange(0, start.len() as int) == start
}

/// What a client speaks that sends such bytes first. What is neither TLS nor an HTTP/2 preface is
/// taken for HTTP/1.x.
pub open spec fn spoken(prefix: Seq<u8>) -> TunnelProtocol {
    if prefix.len() >= 2 && prefix[0] == 0x16 && prefix[1] == 0x03 {
        TunnelProtocol::Tls
    } else if begins(prefix, h2_magic()) {
        TunnelProtocol::PlaintextH2
    } else {
        TunnelProtocol::PlaintextHttp1
    }
}

/// Whether the bytes so far decide what the client speaks: TLS needs two bytes, the HTTP/2 preface
/// all of it, and HTTP/1.x as many as rule the others out.
pub open spec fn decided(prefix: Seq<u8>) -> bool {
    if prefix.len() > 0 && prefix[0] == 0x16 {
        prefix.len() >= 2
    } else {
        !begins(h2_magic(), prefix) || prefix.len() >= SNIFF_LEN
    }
}

fn write_magic() -> (r: Vec<u8>)
    ensures
        r@ == h2_magic(),
{
    let out: Vec<u8> = vec![
        0x50,
        0x52,
        0x49,
        0x20,
        0x2a,
        0x20,
        0x48,
        0x54,
        0x54,
        0x50,
        0x2f,
        0x32,
        0x2e,
        0x30,
    ];
    assert(out@ =~= h2_magic());
    out
}

fn begins_with(bytes: &[u8], start: &[u8]) -> (r: bool)
    ensures
        r == begins(bytes@, start@),
{
    if start.len() > bytes.len() {
        return false;
    }
    let mut i: usize = 0;
    while i < start.len()
        invariant
            i <= start@.len() <= bytes@.len(),
            forall|j: int| 0 <= j < i ==> bytes@[j] == start@[j],
        decreases start.len() - i,
    {
        if bytes[i] != start[i] {
            assert(bytes@.subrange(0, start@.len() as int)[i as int] != start@[i as int]);
            return false;
        }
        i = i + 1;
    }
    assert(bytes@.subrange(0, start@.len() as int) =~= start@);
    true
}

/// Tell what a client speaks from the first bytes it sends.
pub fn classify_tunnel_preface(prefix: &[u8]) -> (r: TunnelProtocol)
    ensures
        r == spoken(prefix@),
        r is Tls <==> prefix@.len() >= 2 && prefix@[0] == 0x16 && prefix@[1] == 0x03,
        r is PlaintextH2 <==> prefix@.len() >= 14 && prefix@.subrange(0, 14) == seq![
            0x50u8,
            0x52,
            0x49,
            0x20,
            0x2a,
            0x20,
            0x48,
            0x54,
            0x54,
            0x50,
            0x2f,
            0x32,
            0x2e,
            0x30,
        ],
{
    proof {
        law_tls_and_h2_are_told_by_their_start(prefix@);
    }
    if prefix.len() >= 2 && prefix[0] == 0x16 && prefix[1] == 0x03 {
        return TunnelProtocol::Tls;
    }
    let magic = write_magic();
    if begins_with(prefix, magic.as_slice()) {
        return TunnelProtocol::PlaintextH2;
    }
    TunnelProtocol::PlaintextHttp1
}

/// Whether a decision can be made yet.
pub fn preface_is_decidable(prefix: &[u8]) -> (r: bool)
    ensures
        r == decided(prefix@),
        prefix@.len() == 0 ==> !r,
        prefix@.len() >= 24 ==> r,
        prefix@.len() > 0 && prefix@[0] == 0x16 ==> r == (prefix@.len() >= 2),
        prefix@.len() > 0 && prefix@[0] != 0x16 && prefix@[0] != 0x50 ==> r,
{
    proof {
        assert(prefix@.len() == 0 ==> h2_magic().subrange(0, 0) =~= prefix@);
        assert(prefix@.len() > 0 && begins(h2_magic(), prefix@) ==> h2_magic().subrange(0, prefix@.len() as int)[0]
            == prefix@[0]);
    }
    if prefix.len() > 0 && prefix[0] == 0x16 {
        return prefix.len() >= 2;
    }
    let magic = write_magic();
    !begins_with(magic.as_slice(), prefix) || prefix.len() >= SNIFF_LEN
}

/// Once the first bytes have decided what a client speaks, no further byte changes it.
pub proof fn law_decided_prefaces_stay_decided(prefix: Seq<u8>, more: Seq<u8>)
    requires
        decided(prefix),
    ensures
        spoken(prefix + more) == spoken(prefix),
{
    let whole = prefix + more;
    let magic = h2_magic();
    if prefix.len() > 0 && prefix[0] == 0x16 {
        assert(whole[0] == prefix[0] && whole[1] == prefix[1]);
        if begins(prefix, magic) {
            assert(prefix.subrange(0, 14)[0] == magic[0]);
        }
        if begins(whole, magic) {
            assert(whole.subrange(0, 14)[0] == magic[0]);
        }
    } else {
        if prefix.len() > 0 {
            assert(whole[0] == prefix[0]);
        }
        if prefix.len() >= 14 {
            assert(whole.subrange(0, 14) =~= prefix.subrange(0, 14));
        } else if begins(whole, magic) {
            assert(magic.subrange(0, prefix.len() as int) =~= prefix) by {
                assert forall|i: int| 0 <= i < prefix.len() implies magic[i] == prefix[i] by {
                    assert(whole.subrange(0, 14)[i] == whole[i]);
                }
            }
        }
        if prefix.len() == 0 {
            assert(magic.subrange(0, 0) =~= prefix);
        }
    }
}

/// What to do next with the start of a tunnel.
#[derive(Clone, Copy, Debug, PartialEq, Eq, Structural)]
pub enum SniffStep {
    /// Read at most so many bytes more.
    Read(usize),
    /// The client speaks this.
    Ready(TunnelProtocol),
}

/// The first bytes of a tunnel while they are read.
pub struct Sniffer {
    prefix: Vec<u8>,
}

impl View for Sniffer {
    type V = Seq<u8>;

    closed spec fn view(&self) -> Seq<u8> {
        self.prefix@
    }
}

impl Sniffer {
    /// Nothing read yet.
    pub fn new() -> (r: Self)
        ensures
            r@ == Seq::<u8>::empty(),
    {
        Sniffer { prefix: Vec::new() }
    }

    /// Whether to read on.
    pub fn next(&self) -> (r: SniffStep)
        ensures
            r == (if decided(self@) || self@.len() >= SNIFF_LEN {
                SniffStep::Ready(spoken(self@))
            } else {
                SniffStep::Read((SNIFF_LEN - self@.len()) as usize)
            }),
            r matches SniffStep::Read(n) ==> n + self@.len() == 24 && n > 0,
            self@.len() >= 24 ==> r is Ready,
    {
        if preface_is_decidable(self.prefix.as_slice()) || self.prefix.len() >= SNIFF_LEN {
            SniffStep::Ready(classify_tunnel_preface(self.prefix.as_slice()))
        } else {
            SniffStep::Read(SNIFF_LEN - self.prefix.len())
        }
    }

    /// Some bytes were read. None were where the client has stopped sending, and what it speaks is
    /// told from what there is.
    pub fn on_read(&mut self, bytes: &[u8]) -> (r: SniffStep)
        requires
            old(self)@.len() + bytes@.len() <= SNIFF_LEN,
        ensures
            final(self)@ == old(self)@ + bytes@,
            r == (if bytes@.len() == 0 || decided(final(self)@) || final(self)@.len() >= SNIFF_LEN {
                SniffStep::Ready(spoken(final(self)@))
            } else {
                SniffStep::Read((SNIFF_LEN - final(self)@.len()) as usize)
            }),
            r matches SniffStep::Read(n) ==> n + final(self)@.len() == 24 && n > 0,
            bytes@.len() == 0 ==> r is Ready,
    {
        self.prefix.extend_from_slice(bytes);
        if bytes.len() == 0 {
            return SniffStep::Ready(classify_tunnel_preface(self.prefix.as_slice()));
        }
        self.next()
    }

    /// The bytes that were read, for whoever takes the tunnel over.
    pub fn into_stream(self) -> (r: PrefixedStream)
        ensures
            r@ == self@,
    {
        PrefixedStream::new(self.prefix)
    }
}

/// Bytes that were read ahead of a stream and are handed out before it.
pub struct PrefixedStream {
    prefix: Vec<u8>,
    offset: usize,
}

impl View for PrefixedStream {
    type V = Seq<u8>;

    /// The bytes still to be handed out.
    closed spec fn view(&self) -> Seq<u8> {
        self.prefix@.subrange(self.offset as int, self.prefix@.len() as int)
    }
}

impl PrefixedStream {
    #[verifier::type_invariant]
    closed spec fn inside(self) -> bool {
        self.offset <= self.prefix@.len()
    }

    /// Hand out these bytes first.
    pub fn new(prefix: Vec<u8>) -> (r: Self)
        ensures
            r@ == prefix@,
    {
        let r = PrefixedStream { prefix, offset: 0 };
        assert(r@ =~= prefix@);
        r
    }

    /// Whether it is the stream's turn.
    pub fn is_empty(&self) -> (r: bool)
        ensures
            r == (self@.len() == 0),
    {
        proof {
            use_type_invariant(self);
        }
        self.offset == self.prefix.len()
    }

    /// Hand out as many bytes as there is room for. None is lost, and they come in their order.
    pub fn read(&mut self, room: usize) -> (r: Vec<u8>)
        ensures
            r@ + final(self)@ == old(self)@,
            r@.len() == (if room < old(self)@.len() {
                room as nat
            } else {
                old(self)@.len()
            }),
    {
        proof {
            use_type_invariant(&*self);
        }
        let ghost before = self@;
        let left: usize = self.prefix.len() - self.offset;
        let n: usize = if room < left {
            room
        } else {
            left
        };
        let out = vstd::slice::slice_to_vec(
            vstd::slice::slice_subrange(self.prefix.as_slice(), self.offset, self.offset + n),
        );
        self.offset = self.offset + n;
        assert(out@ + self@ =~= before);
        out
    }
}

/// The name a certificate is made for: the CONNECT target up to its first colon.
pub open spec fn name_in(host: Seq<char>) -> Seq<char> {
    host.subrange(0, text::find_from(host, ':', 0))
}

/// The name a certificate is made for.
pub fn hostname(host: &str) -> (r: String)
    ensures
        r@ == name_in(host@),
        r@.len() <= host@.len() && r@ == host@.subrange(0, r@.len() as int),
        forall|i: int| 0 <= i < r@.len() ==> r@[i] != ':',
        r@.len() < host@.len() ==> host@[r@.len() as int] == ':',
{
    proof {
        law_names_end_at_the_colon(host@);
    }
    let chars = text::chars_of(host);
    let end: usize = text::find_char(chars.as_slice(), ':', 0);
    text::string_of_range(chars.as_slice(), 0, end)
}

/// The scheme of the requests inside a tunnel, and whether TLS was terminated for them. A plaintext
/// tunnel must not claim that there was any.
pub fn tunnel_scheme(protocol: TunnelProtocol) -> (r: (&'static str, bool))
    ensures
        protocol == TunnelProtocol::Tls ==> r.0@ == "https"@ && r.1,
        protocol != TunnelProtocol::Tls ==> r.0@ == "http"@ && !r.1,
{
    match protocol {
        TunnelProtocol::Tls => ("https", true),
        _ => ("http", false),
    }
}

/// The text of the URL of a request inside a tunnel: the authority comes from the CONNECT line.
pub open spec fn tunnel_url(scheme: Seq<char>, host: Seq<char>, path: Option<Seq<char>>) -> Seq<char> {
    scheme + "://"@ + host + match path {
        Some(p) => p,
        None => "/"@,
    }
}

/// The target a request inside a tunnel is given, where one can be made.
pub open spec fn tunnel_target(scheme: Seq<char>, host: Seq<char>, path: Option<Seq<char>>) -> Option<UriView> {
    match urls::url_of(tunnel_url(scheme, host, path)) {
        Ok(url) => match urls::uri_of(url.href) {
            Ok(uri) => Some(uri),
            Err(_) => None,
        },
        Err(_) => None,
    }
}

/// What an optional target holds.
pub open spec fn uri_opt(u: Option<TargetUri>) -> Option<UriView> {
    match u {
        Some(x) => Some(x@),
        None => None,
    }
}

/// The absolute target of a request inside a tunnel. Without one the request keeps its own.
pub fn tunnel_request_target(scheme: &str, host: &str, path: Option<&str>) -> (r: Option<TargetUri>)
    ensures
        uri_opt(r) == tunnel_target(scheme@, host@, text::str_opt(path)),
        r matches Some(u) ==> ({
            let whole = scheme@ + "://"@ + host@ + (match path {
                Some(p) => p@,
                None => "/"@,
            });
            urls::url_of(whole) matches Ok(url) && urls::uri_of(url.href) == Ok::<UriView, Seq<char>>(u@)
        }),
        ({
            let whole = scheme@ + "://"@ + host@ + (match path {
                Some(p) => p@,
                None => "/"@,
            });
            urls::url_of(whole) matches Ok(url) ==> (urls::uri_of(url.href) is Ok ==> r is Some)
        }),
{
    let path = match path {
        Some(p) => p,
        None => "/",
    };
    let joined = text::concat4(scheme, "://", host, path);
    assert(joined@ =~= tunnel_url(scheme@, host@, Some(path@)));
    match urls::parse_url(joined.as_str()) {
        Ok(url) => match urls::parse_uri(url.href.as_str()) {
            Ok(uri) => Some(uri),
            Err(_) => None,
        },
        Err(_) => None,
    }
}

/// TLS is told by the two bytes a record starts with, HTTP/2 by the words its preface starts with.
pub proof fn law_tls_and_h2_are_told_by_their_start(prefix: Seq<u8>)
    ensures
        spoken(prefix) is Tls <==> prefix.len() >= 2 && prefix[0] == 0x16 && prefix[1] == 0x03,
        spoken(prefix) is PlaintextH2 <==> prefix.len() >= 14 && prefix.subrange(0, 14) == seq![
            0x50u8,
            0x52,
            0x49,
            0x20,
            0x2a,
            0x20,
            0x48,
            0x54,
            0x54,
            0x50,
            0x2f,
            0x32,
            0x2e,
            0x30,
        ],
{
    if prefix.len() >= 14 && begins(prefix, h2_magic()) {
        assert(prefix.subrange(0, 14)[0] == 0x50);
    }
}

/// A certificate is made for what stands before the first colon of a CONNECT target.
pub proof fn law_names_end_at_the_colon(host: Seq<char>)
    ensures
        name_in(host).len() <= host.len(),
        name_in(host) == host.subrange(0, name_in(host).len() as int),
        forall|i: int| 0 <= i < name_in(host).len() ==> name_in(host)[i] != ':',
        name_in(host).len() < host.len() ==> host[name_in(host).len() as int] == ':',
{
    text::law_the_first_place_is_found(host, ':', 0);
}

} // verus!
