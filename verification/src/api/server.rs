//! Who may use the API.
use vstd::prelude::*;
use vstd::string::*;

use crate::addr;
use crate::addr::{IpAddress, SocketAddress};
use crate::headers;
use crate::proxy::http_utils::{HeadView, HttpVersion, ResponseHead, WireResponse, WireView};
use crate::text;

verus! {

/// How the API is served.
#[derive(Clone, Debug)]
pub struct HttpApiConfig {
    /// The address to bind.
    pub addr: SocketAddress,
    pub bearer_token: Option<String>,
    pub allowed_origins: Vec<String>,
    /// Serve the Web UI on what is no route of the API.
    pub serve_webui: bool,
}

impl HttpApiConfig {
    /// The API on a port of this host alone, open to whoever reaches it there.
    pub fn new(port: u16) -> (r: Self)
        ensures
            r.addr == (SocketAddress { ip: IpAddress::V4(0x7f00_0001), port, flow_info: 0, scope_id: 0 }),
            r.bearer_token is None,
            r.allowed_origins@.len() == 0,
            !r.serve_webui,
    {
        HttpApiConfig {
            addr: SocketAddress::new(IpAddress::V4(0x7f00_0001), port),
            bearer_token: None,
            allowed_origins: Vec::new(),
            serve_webui: false,
        }
    }

    /// Ask for a token.
    pub fn with_bearer_token(self, token: String) -> (r: Self)
        ensures
            r == (HttpApiConfig { bearer_token: Some(token), ..self }),
    {
        HttpApiConfig {
            bearer_token: Some(token),
            addr: self.addr,
            allowed_origins: self.allowed_origins,
            serve_webui: self.serve_webui,
        }
    }

    /// Let pages of some origins use the API.
    pub fn with_allowed_origins(self, origins: Vec<String>) -> (r: Self)
        ensures
            r == (HttpApiConfig { allowed_origins: origins, ..self }),
    {
        HttpApiConfig {
            allowed_origins: origins,
            addr: self.addr,
            bearer_token: self.bearer_token,
            serve_webui: self.serve_webui,
        }
    }

    /// Serve the Web UI, or not.
    pub fn with_webui(self, serve: bool) -> (r: Self)
        ensures
            r == (HttpApiConfig { serve_webui: serve, ..self }),
    {
        HttpApiConfig {
            serve_webui: serve,
            addr: self.addr,
            bearer_token: self.bearer_token,
            allowed_origins: self.allowed_origins,
        }
    }

    /// Whether the API is open to the network without a token, which is worth a warning.
    pub fn is_exposed(&self) -> (r: bool)
        ensures
            r == (!addr::loopback(self.addr.ip) && self.bearer_token is None),
    {
        !addr::is_loopback(self.addr.ip) && self.bearer_token.is_none()
    }
}

/// The name of the cookie the Web UI authenticates with: a browser cannot send a header of its own
/// with a stream of events.
pub const AUTH_COOKIE_NAME: &'static str = "relay_core_token";

/// What one piece of a `Cookie` header says of a cookie.
pub open spec fn cookie_in(piece: Seq<char>, name: Seq<char>) -> Option<Seq<char>> {
    let at = text::find_from(piece, '=', 0);
    if at < piece.len() && text::trimmed(piece.subrange(0, at)) == name {
        Some(text::trimmed(piece.subrange(at + 1, piece.len() as int)))
    } else {
        None
    }
}

/// The first of some pieces of a `Cookie` header that says something of a cookie.
pub open spec fn first_in(pieces: Seq<Seq<char>>, name: Seq<char>) -> Option<Seq<char>>
    decreases pieces.len(),
{
    if pieces.len() == 0 {
        None
    } else {
        match cookie_in(pieces[0], name) {
            Some(v) => Some(v),
            None => first_in(pieces.subrange(1, pieces.len() as int), name),
        }
    }
}

/// The value of a cookie in a `Cookie` header.
pub open spec fn cookie_of(cookies: Seq<char>, name: Seq<char>) -> Option<Seq<char>> {
    first_in(text::pieces(cookies, ';'), name)
}

fn read_piece(piece: &str, name: &str) -> (r: Option<String>)
    ensures
        text::text_opt(r) == cookie_in(piece@, name@),
{
    let chars = text::chars_of(piece);
    let at: usize = text::find_char(chars.as_slice(), '=', 0);
    if at >= chars.len() {
        return None;
    }
    let key = text::string_of_range(chars.as_slice(), 0, at);
    let key = text::trim(key.as_str());
    if !text::same_text(key.as_str(), name) {
        return None;
    }
    let value = text::string_of_range(chars.as_slice(), at + 1, chars.len());
    Some(text::trim(value.as_str()))
}

/// Read one cookie out of a `Cookie` header.
pub fn cookie_value(cookies: &str, name: &str) -> (r: Option<String>)
    ensures
        text::text_opt(r) == cookie_of(cookies@, name@),
{
    let parts = text::split(cookies, ';');
    let ghost all = text::texts(parts@);
    let mut i: usize = 0;
    assert(all.subrange(0, all.len() as int) =~= all);
    while i < parts.len()
        invariant
            i <= parts@.len(),
            all == text::texts(parts@),
            all == text::pieces(cookies@, ';'),
            first_in(all.subrange(i as int, all.len() as int), name@) == first_in(all, name@),
        decreases parts.len() - i,
    {
        let ghost rest = all.subrange(i as int, all.len() as int);
        assert(rest[0] == parts@[i as int]@);
        assert(rest.subrange(1, rest.len() as int) =~= all.subrange(i + 1, all.len() as int));
        match read_piece(parts[i].as_str(), name) {
            Some(v) => {
                return Some(v);
            },
            None => {},
        }
        i = i + 1;
    }
    assert(all.subrange(i as int, all.len() as int).len() == 0);
    None
}

/// Whether a request carries a token: as a bearer header, or as the cookie of the Web UI.
pub open spec fn authorized(entries: Seq<(Seq<char>, Seq<Seq<u8>>)>, token: Seq<char>) -> bool {
    ||| headers::value_text_opt(headers::first_value(entries, "authorization"@)) == Some("Bearer "@ + token)
    ||| (headers::value_text_opt(headers::first_value(entries, "cookie"@)) matches Some(cookies) && cookie_of(
        cookies,
        AUTH_COOKIE_NAME@,
    ) == Some(token))
}

/// Whether a request carries the token.
pub fn is_authorized(m: &hyper::HeaderMap, expected_token: &str) -> (r: bool)
    ensures
        r == authorized(headers::header_entries(*m), expected_token@),
        headers::value_text_opt(headers::first_value(headers::header_entries(*m), "authorization"@)) == Some(
            "Bearer "@ + expected_token@,
        ) ==> r,
        r ==> headers::value_text_opt(headers::first_value(headers::header_entries(*m), "authorization"@)) == Some(
            "Bearer "@ + expected_token@,
        ) || (headers::value_text_opt(headers::first_value(headers::header_entries(*m), "cookie"@)) matches Some(cookies)
            && cookie_of(cookies, "relay_core_token"@) == Some(expected_token@)),
        headers::value_text_opt(headers::first_value(headers::header_entries(*m), "cookie"@)) matches Some(cookies) ==> (
        cookie_of(cookies, "relay_core_token"@) == Some(expected_token@) ==> r),
{
    proof {
        reveal_strlit("authorization");
        reveal_strlit("cookie");
        assert(text::lower("authorization"@) =~= "authorization"@);
        assert(text::lower("cookie"@) =~= "cookie"@);
    }
    match headers::get_text(m, "authorization") {
        Some(value) => {
            let expected = text::concat2("Bearer ", expected_token);
            if text::same_text(value.as_str(), expected.as_str()) {
                return true;
            }
        },
        None => {},
    }
    match headers::get_text(m, "cookie") {
        Some(cookies) => match cookie_value(cookies.as_str(), AUTH_COOKIE_NAME) {
            Some(value) => text::same_text(value.as_str(), expected_token),
            None => false,
        },
        None => false,
    }
}

/// Whether a request may pass: a preflight may, and everything may where no token is asked for.
pub open spec fn admitted(
    method: Seq<char>,
    token: Option<Seq<char>>,
    entries: Seq<(Seq<char>, Seq<Seq<u8>>)>,
) -> bool {
    match token {
        None => true,
        Some(t) => method == "OPTIONS"@ || authorized(entries, t),
    }
}

/// What a request without the token is answered with.
pub open spec fn unauthorized() -> WireView {
    WireView {
        head: HeadView {
            status: 401,
            version: HttpVersion::Http11,
            headers: headers::with_inserted(
                headers::with_inserted(Seq::empty(), "www-authenticate"@, vstd::utf8::encode_utf8("Bearer"@)),
                "content-type"@,
                vstd::utf8::encode_utf8("application/json"@),
            ),
        },
        body: vstd::utf8::encode_utf8("{\"error\":\"missing_or_invalid_bearer_token\"}"@),
    }
}

/// Let a request pass, or answer it.
pub fn require_bearer_token(config: &HttpApiConfig, method: &str, m: &hyper::HeaderMap) -> (r: Option<WireResponse>)
    ensures
        r is None <==> admitted(method@, text::text_opt(config.bearer_token), headers::header_entries(*m)),
        r matches Some(answer) ==> answer@ == unauthorized(),
        r matches Some(answer) ==> answer.head.status == 401,
        config.bearer_token is None || method@ == "OPTIONS"@ ==> r is None,
        r is Some ==> config.bearer_token is Some && method@ != "OPTIONS"@,
        config.bearer_token matches Some(t) ==> (method@ != "OPTIONS"@ && r is None ==> headers::value_text_opt(
            headers::first_value(headers::header_entries(*m), "authorization"@),
        ) == Some("Bearer "@ + t@) || (headers::value_text_opt(
            headers::first_value(headers::header_entries(*m), "cookie"@),
        ) matches Some(cookies) && cookie_of(cookies, "relay_core_token"@) == Some(t@))),
        config.bearer_token matches Some(t) ==> (headers::value_text_opt(
            headers::first_value(headers::header_entries(*m), "authorization"@),
        ) == Some("Bearer "@ + t@) ==> r is None),
{
    if text::same_text(method, "OPTIONS") {
        return None;
    }
    match &config.bearer_token {
        None => {
            return None;
        },
        Some(token) => {
            if is_authorized(m, token.as_str()) {
                return None;
            }
        },
    }
    Some(refuse())
}

fn refuse() -> (r: WireResponse)
    ensures
        r@ == unauthorized(),
        r.head.status == 401,
        r.body@ == vstd::utf8::encode_utf8("{\"error\":\"missing_or_invalid_bearer_token\"}"@),
        headers::values(headers::header_entries(r.head.headers), "www-authenticate"@) == seq![
            vstd::utf8::encode_utf8("Bearer"@),
        ],
        headers::values(headers::header_entries(r.head.headers), "content-type"@) == seq![
            vstd::utf8::encode_utf8("application/json"@),
        ],
{
    proof {
        law_refusals_ask_for_a_token();
    }
    proof {
        reveal_strlit("www-authenticate");
        reveal_strlit("content-type");
        reveal_strlit("Bearer");
        reveal_strlit("application/json");
        assert(text::lower("www-authenticate"@) =~= "www-authenticate"@);
        assert(text::lower("content-type"@) =~= "content-type"@);
        vstd::utf8::is_ascii_chars_encode_utf8("Bearer"@);
        vstd::utf8::is_ascii_chars_encode_utf8("application/json"@);
    }
    let mut fields = headers::new_headers();
    headers::insert(&mut fields, "www-authenticate", "Bearer".as_bytes());
    headers::insert(&mut fields, "content-type", "application/json".as_bytes());
    WireResponse {
        head: ResponseHead { status: 401, version: HttpVersion::Http11, headers: fields },
        body: vstd::slice::slice_to_vec("{\"error\":\"missing_or_invalid_bearer_token\"}".as_bytes()),
    }
}

/// With a token asked for, nothing but a preflight passes without it, and whatever carries it passes.
pub proof fn law_tokens_decide(
    method: Seq<char>,
    token: Seq<char>,
    entries: Seq<(Seq<char>, Seq<Seq<u8>>)>,
)
    requires
        method != "OPTIONS"@,
    ensures
        admitted(method, Some(token), entries) <==> authorized(entries, token),
        entries.len() == 0 ==> !admitted(method, Some(token), entries),
{
    headers::lemma_position(entries, "authorization"@);
    headers::lemma_position(entries, "cookie"@);
}

/// The cookie that is read is the first of its name.
pub proof fn law_the_first_cookie_of_a_name_is_read(pieces: Seq<Seq<char>>, name: Seq<char>, i: int)
    requires
        0 <= i < pieces.len(),
        cookie_in(pieces[i], name) is Some,
        forall|j: int| 0 <= j < i ==> cookie_in(#[trigger] pieces[j], name) is None,
    ensures
        first_in(pieces, name) == cookie_in(pieces[i], name),
    decreases pieces.len(),
{
    if i > 0 {
        let rest = pieces.subrange(1, pieces.len() as int);
        assert(cookie_in(pieces[0], name) is None);
        assert forall|j: int| 0 <= j < i - 1 implies cookie_in(#[trigger] rest[j], name) is None by {
            assert(rest[j] == pieces[j + 1]);
        }
        law_the_first_cookie_of_a_name_is_read(rest, name, i - 1);
    }
}

proof fn lemma_first_equals(piece: Seq<char>, at: int, from: int)
    requires
        0 <= from <= at < piece.len(),
        piece[at] == '=',
        forall|j: int| from <= j < at ==> piece[j] != '=',
    ensures
        text::find_from(piece, '=', from) == at,
    decreases at - from,
{
    if from < at {
        lemma_first_equals(piece, at, from + 1);
    }
}

/// A cookie is written as its name, an equals sign and its value, with white space around either.
pub proof fn law_cookies_are_names_and_values(key: Seq<char>, value: Seq<char>, name: Seq<char>)
    requires
        forall|j: int| 0 <= j < key.len() ==> key[j] != '=',
    ensures
        cookie_in(key + seq!['='] + value, name) == (if text::trimmed(key) == name {
            Some(text::trimmed(value))
        } else {
            None
        }),
{
    let piece = key + seq!['='] + value;
    assert forall|j: int| 0 <= j < key.len() implies piece[j] != '=' by {
        assert(piece[j] == key[j]);
    }
    lemma_first_equals(piece, key.len() as int, 0);
    assert(piece.subrange(0, key.len() as int) =~= key);
    assert(piece.subrange(key.len() as int + 1, piece.len() as int) =~= value);
}

/// A token passes as a bearer header or as the cookie of the Web UI, and in no other way.
pub proof fn law_tokens_come_in_two_ways(entries: Seq<(Seq<char>, Seq<Seq<u8>>)>, token: Seq<char>)
    ensures
        authorized(entries, token) <==> {
            ||| headers::value_text_opt(headers::first_value(entries, "authorization"@)) == Some("Bearer "@ + token)
            ||| (headers::value_text_opt(headers::first_value(entries, "cookie"@)) matches Some(cookies) && cookie_of(
                cookies,
                "relay_core_token"@,
            ) == Some(token))
        },
        !headers::present(entries, "authorization"@) && !headers::present(entries, "cookie"@) ==> !authorized(
            entries,
            token,
        ),
{
}

/// A request without the token is answered 401, asked for a bearer token, and told why in JSON.
pub proof fn law_refusals_ask_for_a_token()
    ensures
        unauthorized().head.status == 401,
        headers::values(unauthorized().head.headers, "www-authenticate"@) == seq![
            vstd::utf8::encode_utf8("Bearer"@),
        ],
        headers::values(unauthorized().head.headers, "content-type"@) == seq![
            vstd::utf8::encode_utf8("application/json"@),
        ],
        unauthorized().body == vstd::utf8::encode_utf8("{\"error\":\"missing_or_invalid_bearer_token\"}"@),
{
    reveal_strlit("www-authenticate");
    reveal_strlit("content-type");
    assert("www-authenticate"@.len() != "content-type"@.len());
    let first = headers::with_inserted(
        Seq::empty(),
        "www-authenticate"@,
        vstd::utf8::encode_utf8("Bearer"@),
    );
    headers::law_insert_replaces(
        Seq::empty(),
        "www-authenticate"@,
        vstd::utf8::encode_utf8("Bearer"@),
        "www-authenticate"@,
    );
    headers::law_insert_replaces(
        first,
        "content-type"@,
        vstd::utf8::encode_utf8("application/json"@),
        "www-authenticate"@,
    );
    headers::law_insert_replaces(
        first,
        "content-type"@,
        vstd::utf8::encode_utf8("application/json"@),
        "content-type"@,
    );
}

} // verus!
