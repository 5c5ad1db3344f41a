//! URLs, request targets, cookies, clocks and identifiers: what the proxy has from other crates.
use vstd::prelude::*;

use crate::addr::IpAddress;
use crate::flow;
use crate::flow::{CookieView, TargetUrl, UrlView};
use crate::headers;
use crate::text;

verus! {

/// What `url::Url::parse` makes of a text: the URL's own text, scheme, host and port, or what is
/// wrong with it.
pub uninterp spec fn url_of(s: Seq<char>) -> Result<UrlView, Seq<char>>;

/// The query of the URL a text spells, as `Url::query_pairs` decodes it.
pub uninterp spec fn query_of(s: Seq<char>) -> Seq<(Seq<char>, Seq<char>)>;

/// The text of a URL once `Url::set_ip_host` has given it an address for its host; none where
/// the text is no URL or its host cannot be set.
pub uninterp spec fn url_with_ip(href: Seq<char>, ip: IpAddress) -> Option<Seq<char>>;

/// The text of a URL once `Url::set_port` has given it a port; none where the text is no URL or
/// its port cannot be set.
pub uninterp spec fn url_with_port(href: Seq<char>, port: u16) -> Option<Seq<char>>;

/// The text of a URL once `Url::set_scheme` has given it a scheme; none where the text is no URL
/// or its scheme cannot be set.
pub uninterp spec fn url_with_scheme(href: Seq<char>, scheme: Seq<char>) -> Option<Seq<char>>;

/// What parsing a URL gave.
pub open spec fn url_result(u: Result<TargetUrl, String>) -> Result<UrlView, Seq<char>> {
    match u {
        Ok(x) => Ok(x@),
        Err(e) => Err(e@),
    }
}

/// `url::Url::parse`, and of the parsed URL its text, `scheme`, `host_str` and
/// `port_or_known_default`; or the text of the error.
#[verifier::external_body]
pub(crate) fn parse_url(s: &str) -> (r: Result<TargetUrl, String>)
    ensures
        url_result(r) == url_of(s@),
{
    url::Url::parse(s).map_err(|e| e.to_string()).map(|u| TargetUrl {
        href: u.as_str().to_string(),
        scheme: u.scheme().to_string(),
        host: u.host_str().map(|h| h.to_string()),
        port: u.port_or_known_default(),
    })
}

/// `Url::query_pairs` of the URL a text spells: the names and values of its query, decoded.
#[verifier::external_body]
pub(crate) fn parse_query(s: &str) -> (r: Vec<(String, String)>)
    requires
        url_of(s@) is Ok,
    ensures
        flow::pairs(r@) == query_of(s@),
{
    url::Url::parse(s).unwrap().query_pairs().into_owned().collect()
}

/// `Url::set_ip_host` on the URL a text spells.
#[verifier::external_body]
pub(crate) fn set_ip_host(href: &str, ip: IpAddress) -> (r: Option<String>)
    ensures
        text::text_opt(r) == url_with_ip(href@, ip),
{
    let mut u = url::Url::parse(href).ok()?;
    match ip {
        IpAddress::V4(n) => u.set_ip_host(n.to_be_bytes().into()).ok()?,
        IpAddress::V6(n) => u.set_ip_host(n.to_be_bytes().into()).ok()?,
    }
    Some(u.to_string())
}

/// `Url::set_port` on the URL a text spells.
#[verifier::external_body]
pub(crate) fn set_port(href: &str, port: u16) -> (r: Option<String>)
    ensures
        text::text_opt(r) == url_with_port(href@, port),
{
    let mut u = url::Url::parse(href).ok()?;
    u.set_port(Some(port)).ok()?;
    Some(u.to_string())
}

/// `Url::set_scheme` on the URL a text spells.
#[verifier::external_body]
pub(crate) fn set_scheme(href: &str, scheme: &str) -> (r: Option<String>)
    ensures
        text::text_opt(r) == url_with_scheme(href@, scheme@),
{
    let mut u = url::Url::parse(href).ok()?;
    u.set_scheme(scheme).ok()?;
    Some(u.to_string())
}

/// A request target and the parts that routing reads.
#[derive(Clone, Debug)]
pub struct TargetUri {
    pub text: String,
    pub scheme: Option<String>,
    pub authority: Option<String>,
    pub host: Option<String>,
    pub port: Option<u16>,
    pub path_and_query: Option<String>,
}

/// What a request target holds.
#[verifier::ext_equal]
pub struct UriView {
    pub text: Seq<char>,
    pub scheme: Option<Seq<char>>,
    pub authority: Option<Seq<char>>,
    pub host: Option<Seq<char>>,
    pub port: Option<u16>,
    pub path_and_query: Option<Seq<char>>,
}

impl View for TargetUri {
    type V = UriView;

    open spec fn view(&self) -> UriView {
        UriView {
            text: self.text@,
            scheme: text::text_opt(self.scheme),
            authority: text::text_opt(self.authority),
            host: text::text_opt(self.host),
            port: self.port,
            path_and_query: text::text_opt(self.path_and_query),
        }
    }
}

/// What `hyper::Uri` makes of a text: the target and its parts, or what is wrong with it.
pub uninterp spec fn uri_of(s: Seq<char>) -> Result<UriView, Seq<char>>;

/// What parsing a request target gave.
pub open spec fn uri_result(r: Result<TargetUri, String>) -> Result<UriView, Seq<char>> {
    match r {
        Ok(u) => Ok(u@),
        Err(e) => Err(e@),
    }
}

/// `hyper::Uri::from_str`, and of the parsed target its text, `scheme_str`, `authority`, `host`,
/// `port_u16` and `path_and_query`; or the text of the error.
#[verifier::external_body]
pub(crate) fn parse_uri(s: &str) -> (r: Result<TargetUri, String>)
    ensures
        uri_result(r) == uri_of(s@),
{
    let u = s.parse::<hyper::Uri>().map_err(|e| e.to_string())?;
    Ok(TargetUri {
        text: u.to_string(),
        scheme: u.scheme_str().map(|x| x.to_string()),
        authority: u.authority().map(|x| x.to_string()),
        host: u.host().map(|x| x.to_string()),
        port: u.port_u16(),
        path_and_query: u.path_and_query().map(|x| x.to_string()),
    })
}

/// Whether a text is a request method: some characters that may also stand in a header name.
pub open spec fn valid_method(s: Seq<char>) -> bool {
    s.len() > 0 && forall|i: int| 0 <= i < s.len() ==> headers::name_char(#[trigger] s[i])
}

/// `hyper::Method::from_bytes` accepts exactly the valid methods.
#[verifier::external_body]
pub(crate) fn is_method(s: &str) -> (r: bool)
    ensures
        r == valid_method(s@),
{
    hyper::Method::from_bytes(s.as_bytes()).is_ok()
}

/// Whether a number is a status code.
pub open spec fn valid_status(code: u16) -> bool {
    100 <= code <= 999
}

/// How `hyper::StatusCode` writes a status: the number and its reason.
pub uninterp spec fn status_line(code: u16) -> Seq<char>;

/// `StatusCode::to_string`.
#[verifier::external_body]
pub(crate) fn status_text(code: u16) -> (r: String)
    requires
        valid_status(code),
    ensures
        r@ == status_line(code),
{
    hyper::StatusCode::from_u16(code).unwrap().to_string()
}

/// The reason a status code stands for, as `StatusCode::canonical_reason` has it.
pub uninterp spec fn reason_of(code: u16) -> Option<Seq<char>>;

/// `StatusCode::canonical_reason`.
#[verifier::external_body]
pub(crate) fn status_reason(code: u16) -> (r: Option<String>)
    requires
        valid_status(code),
    ensures
        text::text_opt(r) == reason_of(code),
{
    hyper::StatusCode::from_u16(code).unwrap().canonical_reason().map(|s| s.to_string())
}

/// What `cookie::Cookie::split_parse` reads from the value of a `Cookie` field: each cookie's
/// name and value, or nothing for one that cannot be read.
pub uninterp spec fn cookies_in(s: Seq<char>) -> Seq<Option<(Seq<char>, Seq<char>)>>;

/// The cookies of a list, each with its name and value or not readable.
pub open spec fn read_cookies(list: Seq<Option<(String, String)>>) -> Seq<Option<(Seq<char>, Seq<char>)>> {
    list.map_values(
        |c: Option<(String, String)>|
            match c {
                Some(p) => Some((p.0@, p.1@)),
                None => None,
            },
    )
}

/// `cookie::Cookie::split_parse`.
#[verifier::external_body]
pub(crate) fn split_cookies(s: &str) -> (r: Vec<Option<(String, String)>>)
    ensures
        read_cookies(r@) == cookies_in(s@),
{
    cookie::Cookie::split_parse(s).map(|c| c.ok().map(|c| (c.name().to_string(), c.value().to_string()))).collect()
}

/// What `cookie::Cookie::parse` reads from the value of a `Set-Cookie` field.
pub uninterp spec fn cookie_of(s: Seq<char>) -> Option<CookieView>;

/// What an optional cookie holds.
pub open spec fn cookie_opt(c: Option<flow::Cookie>) -> Option<CookieView> {
    match c {
        Some(x) => Some(x@),
        None => None,
    }
}

/// `cookie::Cookie::parse`; the expiry is written as its `Debug` has it.
#[verifier::external_body]
pub(crate) fn parse_cookie(s: &str) -> (r: Option<flow::Cookie>)
    ensures
        cookie_opt(r) == cookie_of(s@),
{
    cookie::Cookie::parse(s).ok().map(|c| flow::Cookie {
        name: c.name().to_string(),
        value: c.value().to_string(),
        path: c.path().map(|s| s.to_string()),
        domain: c.domain().map(|s| s.to_string()),
        expires: c.expires().map(|e| format!("{:?}", e)),
        http_only: c.http_only(),
        secure: c.secure(),
    })
}

/// `uuid::Uuid::new_v4` draws a random identifier; nothing is promised of which.
#[verifier::external_body]
pub(crate) fn new_id() -> u128 {
    uuid::Uuid::new_v4().as_u128()
}

/// `chrono::Utc::now` reads the clock; nothing is promised of what it shows.
#[verifier::external_body]
pub(crate) fn now() -> flow::Timestamp {
    let t = chrono::Utc::now();
    flow::Timestamp { secs: t.timestamp(), nanos: t.timestamp_subsec_nanos() }
}

/// Sixteen to the power of `n`.
pub open spec fn sixteen_to(n: nat) -> nat
    decreases n,
{
    if n == 0 {
        1
    } else {
        16 * sixteen_to((n - 1) as nat)
    }
}

/// A number below sixteen as a hexadecimal digit in small letters.
pub open spec fn hex_digit(n: nat) -> char {
    if n < 10 {
        (n + 48) as char
    } else {
        (n + 87) as char
    }
}

/// The hexadecimal digits of an identifier from the `from`th up to the `to`th of its 32.
pub open spec fn id_digits(id: u128, from: nat, to: nat) -> Seq<char> {
    Seq::new((to - from) as nat, |i: int| hex_digit(id as nat / sixteen_to((31 - from - i) as nat) % 16))
}

/// How an identifier is written: 32 hexadecimal digits in groups of 8, 4, 4, 4 and 12.
pub open spec fn id_text(id: u128) -> Seq<char> {
    id_digits(id, 0, 8) + "-"@ + id_digits(id, 8, 12) + "-"@ + id_digits(id, 12, 16) + "-"@ + id_digits(id, 16, 20) + "-"@
        + id_digits(id, 20, 32)
}

/// `Uuid::to_string` writes an identifier in the hyphenated form, in small letters.
#[verifier::external_body]
pub(crate) fn write_id(id: u128) -> (r: String)
    ensures
        r@ == id_text(id),
{
    uuid::Uuid::from_u128(id).to_string()
}

} // verus!
