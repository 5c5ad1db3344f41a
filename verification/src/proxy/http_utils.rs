//! From requests and responses to the record of an exchange, and back.
use vstd::prelude::*;
use vstd::string::*;

use crate::addr;
use crate::addr::SocketAddress;
use crate::capture::loop_detection;
use crate::capture::loop_detection::LoopDetector;
use crate::flow;
use crate::flow::{
    BodyData, BodyView, Cookie, CookieView, Flow, FlowView, HttpLayer, HttpRequest, HttpResponse,
    Layer, LayerView, NetworkInfo, NetworkView, RequestView, ResponseTiming, ResponseView,
    TargetUrl, TextMap, Timestamp, TransportProtocol, UrlView, WebSocketLayer,
};
use crate::headers;
use crate::intercept;
use crate::metrics;
use crate::metrics::Metrics;
use crate::policy::ProxyPolicy;
use crate::proxy::body_codec;
use crate::text;
use crate::urls;
use crate::urls::{TargetUri, UriView};

verus! {

/// A version of HTTP.
#[derive(Clone, Copy, Debug, PartialEq, Eq, Structural)]
pub enum HttpVersion {
    Http09,
    Http10,
    Http11,
    Http2,
    Http3,
}

/// How a version is written.
pub open spec fn version_text(v: HttpVersion) -> Seq<char> {
    match v {
        HttpVersion::Http09 => "HTTP/0.9"@,
        HttpVersion::Http10 => "HTTP/1.0"@,
        HttpVersion::Http11 => "HTTP/1.1"@,
        HttpVersion::Http2 => "HTTP/2.0"@,
        HttpVersion::Http3 => "HTTP/3.0"@,
    }
}

/// The version a text names; HTTP/1.1 where it names none.
pub open spec fn version_of(s: Seq<char>) -> HttpVersion {
    let name = text::upper(text::trimmed(s));
    if name == "HTTP/0.9"@ {
        HttpVersion::Http09
    } else if name == "HTTP/1.0"@ {
        HttpVersion::Http10
    } else if name == "HTTP/1.1"@ {
        HttpVersion::Http11
    } else if name == "HTTP/2"@ || name == "HTTP/2.0"@ {
        HttpVersion::Http2
    } else if name == "HTTP/3"@ || name == "HTTP/3.0"@ {
        HttpVersion::Http3
    } else {
        HttpVersion::Http11
    }
}

impl HttpVersion {
    /// Write a version.
    pub fn write(self) -> (r: String)
        ensures
            r@ == version_text(self),
            self is Http09 ==> r@ == "HTTP/0.9"@,
            self is Http10 ==> r@ == "HTTP/1.0"@,
            self is Http11 ==> r@ == "HTTP/1.1"@,
            self is Http2 ==> r@ == "HTTP/2.0"@,
            self is Http3 ==> r@ == "HTTP/3.0"@,
    {
        match self {
            HttpVersion::Http09 => text::copy("HTTP/0.9"),
            HttpVersion::Http10 => text::copy("HTTP/1.0"),
            HttpVersion::Http11 => text::copy("HTTP/1.1"),
            HttpVersion::Http2 => text::copy("HTTP/2.0"),
            HttpVersion::Http3 => text::copy("HTTP/3.0"),
        }
    }
}

/// The version a record names, whatever the case of its letters; HTTP/1.1 where it names none.
pub fn parse_http_version(version: &str) -> (r: HttpVersion)
    ensures
        r == version_of(version@),
        r is Http09 <==> text::upper(text::trimmed(version@)) == "HTTP/0.9"@,
        r is Http10 <==> text::upper(text::trimmed(version@)) == "HTTP/1.0"@,
        r is Http2 <==> text::upper(text::trimmed(version@)) == "HTTP/2"@ || text::upper(text::trimmed(version@))
            == "HTTP/2.0"@,
        r is Http3 <==> text::upper(text::trimmed(version@)) == "HTTP/3"@ || text::upper(text::trimmed(version@))
            == "HTTP/3.0"@,
{
    proof {
        law_versions_are_told_by_their_text(version@);
    }
    let trimmed = text::trim(version);
    let name = text::to_ascii_upper(trimmed.as_str());
    let name = name.as_str();
    if text::same_text(name, "HTTP/0.9") {
        HttpVersion::Http09
    } else if text::same_text(name, "HTTP/1.0") {
        HttpVersion::Http10
    } else if text::same_text(name, "HTTP/1.1") {
        HttpVersion::Http11
    } else if text::same_text(name, "HTTP/2") || text::same_text(name, "HTTP/2.0") {
        HttpVersion::Http2
    } else if text::same_text(name, "HTTP/3") || text::same_text(name, "HTTP/3.0") {
        HttpVersion::Http3
    } else {
        HttpVersion::Http11
    }
}

/// A version that was written into a record is read back from it.
pub proof fn law_versions_survive_the_record(v: HttpVersion)
    ensures
        version_of(version_text(v)) == v,
{
    reveal_strlit("HTTP/0.9");
    reveal_strlit("HTTP/1.0");
    reveal_strlit("HTTP/1.1");
    reveal_strlit("HTTP/2");
    reveal_strlit("HTTP/2.0");
    reveal_strlit("HTTP/3");
    reveal_strlit("HTTP/3.0");
    let name = version_text(v);
    assert(!text::is_white(name[0]));
    assert(!text::is_white(name.last()));
    assert(text::trim_start(name) == name);
    assert(text::trim_end(name) == name);
    assert(text::upper(name) =~= name);
    assert("HTTP/2"@.len() == 6 && "HTTP/3"@.len() == 6 && name.len() == 8);
    assert("HTTP/0.9"@[5] == '0');
    assert("HTTP/1.0"@[5] == '1' && "HTTP/1.0"@[7] == '0');
    assert("HTTP/1.1"@[5] == '1' && "HTTP/1.1"@[7] == '1');
    assert("HTTP/2.0"@[5] == '2');
    assert("HTTP/3.0"@[5] == '3');
}

/// The texts of a list of string slices.
pub open spec fn strs(list: Seq<&str>) -> Seq<Seq<char>> {
    list.map_values(|s: &str| s@)
}

/// The fields of a list whose name, in small letters, is not among the given ones.
pub open spec fn without(list: Seq<(Seq<char>, Seq<char>)>, names: Seq<Seq<char>>) -> Seq<(Seq<char>, Seq<char>)>
    decreases list.len(),
{
    if list.len() == 0 {
        Seq::empty()
    } else {
        let rest = without(list.drop_last(), names);
        if names.contains(text::lower(list.last().0)) {
            rest
        } else {
            rest.push(list.last())
        }
    }
}

fn is_among(name: &str, names: &Vec<&str>) -> (r: bool)
    requires
        forall|i: int| 0 <= i < names@.len() ==> text::lower((#[trigger] names@[i])@) == names@[i]@,
    ensures
        r == strs(names@).contains(text::lower(name@)),
{
    let mut i: usize = 0;
    while i < names.len()
        invariant
            i <= names@.len(),
            forall|j: int| 0 <= j < names@.len() ==> text::lower((#[trigger] names@[j])@) == names@[j]@,
            forall|j: int| 0 <= j < i ==> strs(names@)[j] != text::lower(name@),
        decreases names.len() - i,
    {
        if text::same_ignoring_case(name, names[i]) {
            assert(strs(names@)[i as int] == text::lower(name@));
            return true;
        }
        assert(strs(names@)[i as int] == names@[i as int]@);
        i = i + 1;
    }
    false
}

fn without_fields(list: &[(String, String)], names: &Vec<&str>) -> (r: Vec<(String, String)>)
    requires
        forall|i: int| 0 <= i < names@.len() ==> text::lower((#[trigger] names@[i])@) == names@[i]@,
    ensures
        flow::pairs(r@) == without(flow::pairs(list@), strs(names@)),
        r@.len() <= list@.len(),
{
    let mut out: Vec<(String, String)> = Vec::new();
    let mut i: usize = 0;
    while i < list.len()
        invariant
            i <= list@.len(),
            out@.len() <= i,
            forall|j: int| 0 <= j < names@.len() ==> text::lower((#[trigger] names@[j])@) == names@[j]@,
            flow::pairs(out@) == without(flow::pairs(list@).subrange(0, i as int), strs(names@)),
        decreases list.len() - i,
    {
        let ghost prefix = flow::pairs(list@).subrange(0, i + 1);
        let ghost before = out@;
        proof {
            assert(prefix.drop_last() =~= flow::pairs(list@).subrange(0, i as int));
            assert(prefix.last() == (list@[i as int].0@, list@[i as int].1@));
        }
        if !is_among(list[i].0.as_str(), names) {
            out.push((text::copy(list[i].0.as_str()), text::copy(list[i].1.as_str())));
            assert(flow::pairs(out@) =~= flow::pairs(before).push(prefix.last()));
        }
        i = i + 1;
    }
    assert(flow::pairs(list@).subrange(0, i as int) =~= flow::pairs(list@));
    out
}

/// The fields that are about one connection only.
pub open spec fn hop_names() -> Seq<Seq<char>> {
    seq![
        "connection"@,
        "keep-alive"@,
        "proxy-authenticate"@,
        "proxy-authorization"@,
        "te"@,
        "trailers"@,
        "transfer-encoding"@,
        "upgrade"@,
    ]
}

/// The fields that say how long a body is and how it is encoded.
pub open spec fn framing_names() -> Seq<Seq<char>> {
    seq!["content-length"@, "transfer-encoding"@, "content-encoding"@]
}

proof fn lemma_names_are_lower()
    ensures
        text::lower("connection"@) == "connection"@,
        text::lower("keep-alive"@) == "keep-alive"@,
        text::lower("proxy-authenticate"@) == "proxy-authenticate"@,
        text::lower("proxy-authorization"@) == "proxy-authorization"@,
        text::lower("te"@) == "te"@,
        text::lower("trailers"@) == "trailers"@,
        text::lower("transfer-encoding"@) == "transfer-encoding"@,
        text::lower("upgrade"@) == "upgrade"@,
        text::lower("content-length"@) == "content-length"@,
        text::lower("content-encoding"@) == "content-encoding"@,
        text::lower("cookie"@) == "cookie"@,
        text::lower("Cookie"@) == "cookie"@,
        text::lower("set-cookie"@) == "set-cookie"@,
        text::lower("Host"@) == "host"@,
        text::lower("Content-Length"@) == "content-length"@,
{
    reveal_strlit("connection");
    reveal_strlit("keep-alive");
    reveal_strlit("proxy-authenticate");
    reveal_strlit("proxy-authorization");
    reveal_strlit("te");
    reveal_strlit("trailers");
    reveal_strlit("transfer-encoding");
    reveal_strlit("upgrade");
    reveal_strlit("content-length");
    reveal_strlit("content-encoding");
    reveal_strlit("cookie");
    reveal_strlit("Cookie");
    reveal_strlit("set-cookie");
    reveal_strlit("Host");
    reveal_strlit("host");
    reveal_strlit("Content-Length");
    assert(text::lower("connection"@) =~= "connection"@);
    assert(text::lower("keep-alive"@) =~= "keep-alive"@);
    assert(text::lower("proxy-authenticate"@) =~= "proxy-authenticate"@);
    assert(text::lower("proxy-authorization"@) =~= "proxy-authorization"@);
    assert(text::lower("te"@) =~= "te"@);
    assert(text::lower("trailers"@) =~= "trailers"@);
    assert(text::lower("transfer-encoding"@) =~= "transfer-encoding"@);
    assert(text::lower("upgrade"@) =~= "upgrade"@);
    assert(text::lower("content-length"@) =~= "content-length"@);
    assert(text::lower("content-encoding"@) =~= "content-encoding"@);
    assert(text::lower("cookie"@) =~= "cookie"@);
    assert(text::lower("Cookie"@) =~= "cookie"@);
    assert(text::lower("set-cookie"@) =~= "set-cookie"@);
    assert(text::lower("Host"@) =~= "host"@);
    assert(text::lower("Content-Length"@) =~= "content-length"@);
}

fn hop_list() -> (r: Vec<&'static str>)
    ensures
        strs(r@) == hop_names(),
        forall|i: int| 0 <= i < r@.len() ==> text::lower((#[trigger] r@[i])@) == r@[i]@,
{
    let r = vec![
        "connection",
        "keep-alive",
        "proxy-authenticate",
        "proxy-authorization",
        "te",
        "trailers",
        "transfer-encoding",
        "upgrade",
    ];
    proof {
        lemma_names_are_lower();
        assert(strs(r@) =~= hop_names());
    }
    r
}

/// Whether a field is about one connection only and must not be passed on.
pub fn is_hop_by_hop(name: &str) -> (r: bool)
    ensures
        r == hop_names().contains(text::lower(name@)),
        r == ({
            let n = text::lower(name@);
            ||| n == "connection"@
            ||| n == "keep-alive"@
            ||| n == "proxy-authenticate"@
            ||| n == "proxy-authorization"@
            ||| n == "te"@
            ||| n == "trailers"@
            ||| n == "transfer-encoding"@
            ||| n == "upgrade"@
        }),
{
    proof {
        law_hop_by_hop_fields_are_these(text::lower(name@));
    }
    is_among(name, &hop_list())
}

/// The fields that concern one connection only are these eight and no others.
pub proof fn law_hop_by_hop_fields_are_these(n: Seq<char>)
    ensures
        hop_names().contains(n) <==> {
            ||| n == "connection"@
            ||| n == "keep-alive"@
            ||| n == "proxy-authenticate"@
            ||| n == "proxy-authorization"@
            ||| n == "te"@
            ||| n == "trailers"@
            ||| n == "transfer-encoding"@
            ||| n == "upgrade"@
        },
{
    let names = hop_names();
    assert(names[0] == "connection"@ && names[1] == "keep-alive"@ && names[2] == "proxy-authenticate"@ && names[3]
        == "proxy-authorization"@ && names[4] == "te"@ && names[5] == "trailers"@ && names[6] == "transfer-encoding"@
        && names[7] == "upgrade"@);
}

/// The values of the cookie fields of a list, in order, but for empty ones.
pub open spec fn cookie_values(list: Seq<(Seq<char>, Seq<char>)>) -> Seq<Seq<char>>
    decreases list.len(),
{
    if list.len() == 0 {
        Seq::empty()
    } else {
        let rest = cookie_values(list.drop_last());
        if text::lower(list.last().0) == "cookie"@ && list.last().1.len() > 0 {
            rest.push(list.last().1)
        } else {
            rest
        }
    }
}

/// Where the first cookie field of a list stands, or the number of fields.
pub open spec fn first_cookie(list: Seq<(Seq<char>, Seq<char>)>) -> int
    decreases list.len(),
{
    if list.len() == 0 || text::lower(list[0].0) == "cookie"@ {
        0
    } else {
        1 + first_cookie(list.subrange(1, list.len() as int))
    }
}

/// A list with its cookie fields made one, where the first of them stood; with none at all where
/// they were all empty.
pub open spec fn coalesced(list: Seq<(Seq<char>, Seq<char>)>) -> Seq<(Seq<char>, Seq<char>)> {
    let values = cookie_values(list);
    let at = first_cookie(list);
    if values.len() == 0 {
        without(list, seq!["cookie"@])
    } else {
        list.subrange(0, at).push(("Cookie"@, text::joined(values, "; "@))) + without(
            list.subrange(at, list.len() as int),
            seq!["cookie"@],
        )
    }
}

proof fn lemma_first_cookie(list: Seq<(Seq<char>, Seq<char>)>, at: int)
    requires
        0 <= at <= list.len(),
        forall|j: int| 0 <= j < at ==> text::lower((#[trigger] list[j]).0) != "cookie"@,
        at < list.len() ==> text::lower(list[at].0) == "cookie"@,
    ensures
        first_cookie(list) == at,
    decreases list.len(),
{
    if at > 0 {
        let rest = list.subrange(1, list.len() as int);
        assert(text::lower(list[0].0) != "cookie"@);
        assert forall|j: int| 0 <= j < at - 1 implies text::lower((#[trigger] rest[j]).0) != "cookie"@ by {
            assert(rest[j] == list[j + 1]);
        }
        lemma_first_cookie(rest, at - 1);
    }
}

/// Make the cookie fields of a list one, in the order they arrived.
///
/// HTTP/2 may send each cookie as a field of its own, and an upstream that reads only the first
/// then loses the session. `Set-Cookie` is another field and stays as it is.
pub fn coalesce_cookie_headers(headers: &[(String, String)]) -> (r: Vec<(String, String)>)
    ensures
        flow::pairs(r@) == coalesced(flow::pairs(headers@)),
        r@.len() <= headers@.len(),
{
    let ghost all = flow::pairs(headers@);
    let mut values: Vec<String> = Vec::new();
    let mut at: usize = headers.len();
    let mut i: usize = 0;
    proof {
        lemma_names_are_lower();
    }
    while i < headers.len()
        invariant
            i <= headers@.len(),
            all == flow::pairs(headers@),
            text::lower("cookie"@) == "cookie"@,
            text::texts(values@) == cookie_values(all.subrange(0, i as int)),
            at == headers@.len() || at < i,
            forall|j: int| 0 <= j < i && j < at ==> text::lower((#[trigger] all[j]).0) != "cookie"@,
            at < headers@.len() ==> text::lower(all[at as int].0) == "cookie"@,
            at == headers@.len() ==> values@.len() == 0,
        decreases headers.len() - i,
    {
        let ghost prefix = all.subrange(0, i + 1);
        let ghost before = values@;
        proof {
            assert(prefix.drop_last() =~= all.subrange(0, i as int));
            assert(prefix.last() == (headers@[i as int].0@, headers@[i as int].1@));
        }
        if text::same_ignoring_case(headers[i].0.as_str(), "cookie") {
            if at == headers.len() {
                at = i;
            }
            if headers[i].1.as_str().unicode_len() > 0 {
                values.push(text::copy(headers[i].1.as_str()));
                assert(text::texts(values@) =~= text::texts(before).push(prefix.last().1));
            }
        }
        i = i + 1;
    }
    proof {
        assert(all.subrange(0, i as int) =~= all);
        lemma_first_cookie(all, at as int);
        assert(text::texts(values@).len() == values@.len());
    }
    let only_cookie = vec!["cookie"];
    assert(strs(only_cookie@) =~= seq!["cookie"@]);
    if values.len() == 0 {
        return without_fields(headers, &only_cookie);
    }
    let mut out: Vec<(String, String)> = Vec::new();
    let mut k: usize = 0;
    while k < at
        invariant
            k <= at < headers@.len(),
            all == flow::pairs(headers@),
            out@.len() == k,
            flow::pairs(out@) == all.subrange(0, k as int),
        decreases at - k,
    {
        let ghost before = out@;
        out.push((text::copy(headers[k].0.as_str()), text::copy(headers[k].1.as_str())));
        assert(flow::pairs(out@) =~= flow::pairs(before).push(all[k as int]));
        assert(all.subrange(0, k + 1) =~= all.subrange(0, k as int).push(all[k as int]));
        k = k + 1;
    }
    let ghost before = out@;
    out.push((text::copy("Cookie"), text::join(&values, "; ")));
    let ghost field = ("Cookie"@, text::joined(text::texts(values@), "; "@));
    assert(flow::pairs(out@) =~= flow::pairs(before).push(field));
    let rest = vstd::slice::slice_subrange(headers, at, headers.len());
    let mut tail = without_fields(rest, &only_cookie);
    let ghost kept = out@;
    let ghost tail_view = tail@;
    proof {
        assert(flow::pairs(rest@) =~= all.subrange(at as int, all.len() as int));
        assert(flow::pairs(rest@)[0] == all[at as int]);
        assert(seq!["cookie"@][0] == "cookie"@);
        lemma_without_first(flow::pairs(rest@), seq!["cookie"@]);
    }
    out.append(&mut tail);
    assert(flow::pairs(out@) =~= flow::pairs(kept) + flow::pairs(tail_view));
    out
}

proof fn lemma_without_first(list: Seq<(Seq<char>, Seq<char>)>, names: Seq<Seq<char>>)
    requires
        list.len() > 0,
        names.contains(text::lower(list[0].0)),
    ensures
        without(list, names).len() < list.len(),
    decreases list.len(),
{
    if list.len() > 1 {
        lemma_without_first(list.drop_last(), names);
    } else {
        assert(without(list.drop_last(), names).len() == 0);
    }
}

proof fn lemma_without_concat(a: Seq<(Seq<char>, Seq<char>)>, b: Seq<(Seq<char>, Seq<char>)>, names: Seq<Seq<char>>)
    ensures
        without(a + b, names) == without(a, names) + without(b, names),
    decreases b.len(),
{
    if b.len() == 0 {
        assert(a + b =~= a);
        assert(without(a, names) + without(b, names) =~= without(a, names));
    } else {
        assert((a + b).drop_last() =~= a + b.drop_last());
        lemma_without_concat(a, b.drop_last(), names);
        assert(without(a + b, names) =~= without(a, names) + without(b, names));
    }
}

proof fn lemma_without_idempotent(a: Seq<(Seq<char>, Seq<char>)>, names: Seq<Seq<char>>)
    ensures
        without(without(a, names), names) == without(a, names),
        forall|i: int| 0 <= i < without(a, names).len() ==> !names.contains(text::lower((#[trigger] without(a, names)[i]).0)),
    decreases a.len(),
{
    if a.len() > 0 {
        lemma_without_idempotent(a.drop_last(), names);
        let rest = without(a.drop_last(), names);
        if !names.contains(text::lower(a.last().0)) {
            assert(rest.push(a.last()).drop_last() =~= rest);
        }
    }
}

/// Making the cookie fields one loses no other field and no order among them, and leaves at most
/// one cookie field.
pub proof fn law_coalescing_keeps_other_fields(list: Seq<(Seq<char>, Seq<char>)>)
    ensures
        without(coalesced(list), seq!["cookie"@]) == without(list, seq!["cookie"@]),
        forall|i: int, j: int|
            0 <= i < j < coalesced(list).len() && text::lower((#[trigger] coalesced(list)[i]).0) == "cookie"@
                ==> text::lower((#[trigger] coalesced(list)[j]).0) != "cookie"@,
{
    let names = seq!["cookie"@];
    lemma_names_are_lower();
    assert(names[0] == "cookie"@);
    lemma_without_idempotent(list, names);
    lemma_cookie_position(list);
    let at = first_cookie(list);
    if cookie_values(list).len() > 0 {
        let head = list.subrange(0, at);
        let tail = list.subrange(at, list.len() as int);
        let field = ("Cookie"@, text::joined(cookie_values(list), "; "@));
        assert(names.contains(text::lower(field.0)));
        assert(head + tail =~= list);
        lemma_without_concat(head, tail, names);
        lemma_without_concat(head.push(field), without(tail, names), names);
        lemma_without_idempotent(tail, names);
        assert(head.push(field).drop_last() =~= head);
        assert forall|i: int, j: int|
            0 <= i < j < coalesced(list).len() && text::lower((#[trigger] coalesced(list)[i]).0)
                == "cookie"@ implies text::lower((#[trigger] coalesced(list)[j]).0) != "cookie"@ by {
            if i < at {
                assert(coalesced(list)[i] == list[i]);
                assert(false);
            }
            let t = without(tail, names);
            assert(coalesced(list)[j] == t[j - at - 1]);
            assert(!names.contains(text::lower(t[j - at - 1].0)));
        }
    } else {
        assert forall|i: int, j: int|
            0 <= i < j < coalesced(list).len() && text::lower((#[trigger] coalesced(list)[i]).0)
                == "cookie"@ implies text::lower((#[trigger] coalesced(list)[j]).0) != "cookie"@ by {
            assert(!names.contains(text::lower(coalesced(list)[i].0)));
        }
    }
}

proof fn lemma_cookie_position(list: Seq<(Seq<char>, Seq<char>)>)
    ensures
        0 <= first_cookie(list) <= list.len(),
        forall|j: int| 0 <= j < first_cookie(list) ==> text::lower((#[trigger] list[j]).0) != "cookie"@,
        cookie_values(list).len() > 0 ==> first_cookie(list) < list.len(),
    decreases list.len(),
{
    if list.len() > 0 {
        if text::lower(list[0].0) != "cookie"@ {
            let rest = list.subrange(1, list.len() as int);
            lemma_cookie_position(rest);
            assert forall|j: int| 0 <= j < first_cookie(list) implies text::lower((#[trigger] list[j]).0) != "cookie"@ by {
                if j > 0 {
                    assert(rest[j - 1] == list[j]);
                }
            }
            if first_cookie(list) == list.len() {
                lemma_no_cookie_values(list);
            }
        }
    }
}

proof fn lemma_no_cookie_values(list: Seq<(Seq<char>, Seq<char>)>)
    requires
        forall|j: int| 0 <= j < list.len() ==> text::lower((#[trigger] list[j]).0) != "cookie"@,
    ensures
        cookie_values(list).len() == 0,
    decreases list.len(),
{
    if list.len() > 0 {
        let rest = list.drop_last();
        assert forall|j: int| 0 <= j < rest.len() implies text::lower((#[trigger] rest[j]).0) != "cookie"@ by {
            assert(rest[j] == list[j]);
        }
        lemma_no_cookie_values(rest);
        assert(text::lower(list[list.len() - 1].0) != "cookie"@);
    }
}

/// The fields of a message whose body was replaced by plain bytes of a known length.
pub open spec fn reframed(list: Seq<(Seq<char>, Seq<char>)>, body_len: nat) -> Seq<(Seq<char>, Seq<char>)> {
    without(list, framing_names()).push(("Content-Length"@, text::decimal(body_len)))
}

fn reframe(headers: &[(String, String)], body_len: usize) -> (r: Vec<(String, String)>)
    ensures
        flow::pairs(r@) == reframed(flow::pairs(headers@), body_len as nat),
        r@.len() <= headers@.len() + 1,
{
    let names = vec!["content-length", "transfer-encoding", "content-encoding"];
    proof {
        lemma_names_are_lower();
        assert(strs(names@) =~= framing_names());
    }
    let mut out = without_fields(headers, &names);
    let ghost before = out@;
    out.push((text::copy("Content-Length"), text::decimal_text(body_len as u64)));
    assert(flow::pairs(out@) =~= flow::pairs(before).push(("Content-Length"@, text::decimal(body_len as nat))));
    out
}

/// The fields of a request whose body was replaced: what described the old body is gone, and the
/// length is that of the new one.
pub fn reframe_request_headers_for_replaced_body(headers: &[(String, String)], body_len: usize) -> (r: Vec<
    (String, String),
>)
    ensures
        flow::pairs(r@) == reframed(flow::pairs(headers@), body_len as nat),
        r@.len() <= headers@.len() + 1,
{
    reframe(headers, body_len)
}

/// The fields of a response whose body was replaced: what described the old body is gone, and the
/// length is that of the new one.
pub fn reframe_response_headers_for_replaced_body(headers: &[(String, String)], body_len: usize) -> (r: Vec<
    (String, String),
>)
    ensures
        flow::pairs(r@) == reframed(flow::pairs(headers@), body_len as nat),
        r@.len() <= headers@.len() + 1,
{
    reframe(headers, body_len)
}

/// A reframed message announces the new length and nothing else about its body.
pub proof fn law_reframing_describes_the_new_body(list: Seq<(Seq<char>, Seq<char>)>, body_len: nat, i: int)
    requires
        0 <= i < reframed(list, body_len).len(),
        framing_names().contains(text::lower(reframed(list, body_len)[i].0)),
    ensures
        i == reframed(list, body_len).len() - 1,
        reframed(list, body_len)[i] == ("Content-Length"@, text::decimal(body_len)),
{
    lemma_without_idempotent(list, framing_names());
    if i < reframed(list, body_len).len() - 1 {
        let kept = without(list, framing_names());
        assert(reframed(list, body_len)[i] == kept[i]);
        assert(!framing_names().contains(text::lower(kept[i].0)));
    }
}

/// The head of a request as it came off the wire.
#[derive(Debug)]
pub struct RequestHead {
    pub method: String,
    pub uri: String,
    pub version: HttpVersion,
    pub headers: hyper::HeaderMap,
}

/// What a request says of itself.
#[derive(Clone, Debug)]
pub struct RequestMeta {
    pub method: String,
    pub url_str: String,
    pub version: String,
    pub headers: Vec<(String, String)>,
    pub query: Vec<(String, String)>,
    pub cookies: Vec<Cookie>,
}

/// What the meta of a request holds.
#[verifier::ext_equal]
pub struct MetaView {
    pub method: Seq<char>,
    pub url_str: Seq<char>,
    pub version: Seq<char>,
    pub headers: Seq<(Seq<char>, Seq<char>)>,
    pub query: Seq<(Seq<char>, Seq<char>)>,
    pub cookies: Seq<CookieView>,
}

impl View for RequestMeta {
    type V = MetaView;

    open spec fn view(&self) -> MetaView {
        MetaView {
            method: self.method@,
            url_str: self.url_str@,
            version: self.version@,
            headers: flow::pairs(self.headers@),
            query: flow::pairs(self.query@),
            cookies: flow::cookies(self.cookies@),
        }
    }
}

/// A URL for a request that named only a path: the scheme of the connection, the host and the path.
pub open spec fn joined_url(is_mitm: bool, host: Seq<char>, uri: Seq<char>) -> Seq<char> {
    (if is_mitm {
        "https"@
    } else {
        "http"@
    }) + "://"@ + host + uri
}

/// A URL for a request that named only a path.
pub fn absolute_url(is_mitm: bool, host: &str, uri: &str) -> (r: String)
    ensures
        r@ == joined_url(is_mitm, host@, uri@),
        is_mitm ==> r@ == "https"@ + "://"@ + host@ + uri@,
        !is_mitm ==> r@ == "http"@ + "://"@ + host@ + uri@,
{
    if is_mitm {
        text::concat4("https", "://", host, uri)
    } else {
        text::concat4("http", "://", host, uri)
    }
}

/// The URL of a request: what it named where that is a URL, or else what its host and it make
/// together where that is one.
pub open spec fn request_url(uri: Seq<char>, host: Option<Seq<char>>, is_mitm: bool) -> Seq<char> {
    if urls::url_of(uri) is Ok {
        uri
    } else {
        match host {
            Some(h) => if urls::url_of(joined_url(is_mitm, h, uri)) is Ok {
                joined_url(is_mitm, h, uri)
            } else {
                uri
            },
            None => uri,
        }
    }
}

/// A cookie of which a request tells only the name and the value.
pub open spec fn plain_cookie(name: Seq<char>, value: Seq<char>) -> CookieView {
    CookieView { name, value, path: None, domain: None, expires: None, http_only: None, secure: None }
}

/// The readable cookies of a list.
pub open spec fn readable(list: Seq<Option<(Seq<char>, Seq<char>)>>) -> Seq<CookieView>
    decreases list.len(),
{
    if list.len() == 0 {
        Seq::empty()
    } else {
        let rest = readable(list.drop_last());
        match list.last() {
            Some(p) => rest.push(plain_cookie(p.0, p.1)),
            None => rest,
        }
    }
}

/// The cookies of every cookie field, in order.
pub open spec fn request_cookies(values: Seq<Seq<u8>>) -> Seq<CookieView>
    decreases values.len(),
{
    if values.len() == 0 {
        Seq::empty()
    } else {
        let rest = request_cookies(values.drop_last());
        match headers::value_text(values.last()) {
            Some(t) => rest + readable(urls::cookies_in(t)),
            None => rest,
        }
    }
}

/// What a request says of itself.
pub open spec fn meta_of(
    method: Seq<char>,
    uri: Seq<char>,
    version: HttpVersion,
    entries: Seq<(Seq<char>, Seq<Seq<u8>>)>,
    is_mitm: bool,
) -> MetaView {
    let url_str = request_url(uri, headers::value_text_opt(headers::first_value(entries, "host"@)), is_mitm);
    MetaView {
        method,
        url_str,
        version: version_text(version),
        headers: headers::listed(entries),
        query: if urls::url_of(url_str) is Ok {
            urls::query_of(url_str)
        } else {
            Seq::empty()
        },
        cookies: request_cookies(headers::values(entries, "cookie"@)),
    }
}

/// Add the readable cookies of a parsed cookie field.
pub fn add_readable(cookies: &mut Vec<Cookie>, parsed: &Vec<Option<(String, String)>>)
    ensures
        flow::cookies(final(cookies)@) == flow::cookies(old(cookies)@) + readable(urls::read_cookies(parsed@)),
{
    let ghost start = flow::cookies(cookies@);
    let ghost all = urls::read_cookies(parsed@);
    let mut i: usize = 0;
    assert(start + readable(all.subrange(0, 0)) =~= start);
    while i < parsed.len()
        invariant
            i <= parsed@.len(),
            all == urls::read_cookies(parsed@),
            flow::cookies(cookies@) == start + readable(all.subrange(0, i as int)),
        decreases parsed.len() - i,
    {
        let ghost prefix = all.subrange(0, i + 1);
        let ghost before = flow::cookies(cookies@);
        proof {
            assert(prefix.drop_last() =~= all.subrange(0, i as int));
            assert(prefix.last() == all[i as int]);
        }
        match &parsed[i] {
            Some(p) => {
                cookies.push(
                    Cookie {
                        name: text::copy(p.0.as_str()),
                        value: text::copy(p.1.as_str()),
                        path: None,
                        domain: None,
                        expires: None,
                        http_only: None,
                        secure: None,
                    },
                );
                assert(flow::cookies(cookies@) =~= before.push(plain_cookie(p.0@, p.1@)));
                assert(start + readable(all.subrange(0, i as int)).push(plain_cookie(p.0@, p.1@)) =~= before.push(
                    plain_cookie(p.0@, p.1@),
                ));
            },
            None => {},
        }
        i = i + 1;
    }
    assert(all.subrange(0, i as int) =~= all);
}

/// Read what a request says of itself.
pub fn parse_request_meta(req: &RequestHead, is_mitm: bool) -> (r: RequestMeta)
    ensures
        r@ == meta_of(req.method@, req.uri@, req.version, headers::header_entries(req.headers), is_mitm),
        r.method@ == req.method@,
        version_of(r.version@) == req.version,
        flow::pairs(r.headers@) == headers::listed(headers::header_entries(req.headers)),
        urls::url_of(req.uri@) is Ok ==> r.url_str@ == req.uri@,
        urls::url_of(req.uri@) is Err ==> r.url_str@ == (match headers::value_text_opt(
            headers::first_value(headers::header_entries(req.headers), "host"@),
        ) {
            Some(host) => {
                let whole = (if is_mitm {
                    "https"@
                } else {
                    "http"@
                }) + "://"@ + host + req.uri@;
                if urls::url_of(whole) is Ok {
                    whole
                } else {
                    req.uri@
                }
            },
            None => req.uri@,
        }),
        urls::url_of(r.url_str@) is Ok ==> flow::pairs(r.query@) == urls::query_of(r.url_str@),
        urls::url_of(r.url_str@) is Err ==> r.query@.len() == 0,
{
    proof {
        lemma_names_are_lower();
        law_versions_survive_the_record(req.version);
    }
    let ghost entries = headers::header_entries(req.headers);
    let mut url_str = text::copy(req.uri.as_str());
    if urls::parse_url(req.uri.as_str()).is_err() {
        match headers::get_text(&req.headers, "Host") {
            Some(host) => {
                let joined = absolute_url(is_mitm, host.as_str(), req.uri.as_str());
                if urls::parse_url(joined.as_str()).is_ok() {
                    url_str = joined;
                }
            },
            None => {},
        }
    }
    let query = if urls::parse_url(url_str.as_str()).is_ok() {
        urls::parse_query(url_str.as_str())
    } else {
        let none: Vec<(String, String)> = Vec::new();
        assert(flow::pairs(none@) =~= Seq::empty());
        none
    };
    let fields = headers::get_all(&req.headers, "cookie");
    let ghost values = fields@.map_values(|v: Vec<u8>| v@);
    let mut cookies: Vec<Cookie> = Vec::new();
    let mut i: usize = 0;
    assert(flow::cookies(cookies@) =~= request_cookies(values.subrange(0, 0)));
    while i < fields.len()
        invariant
            i <= fields@.len(),
            values == fields@.map_values(|v: Vec<u8>| v@),
            flow::cookies(cookies@) == request_cookies(values.subrange(0, i as int)),
        decreases fields.len() - i,
    {
        let ghost prefix = values.subrange(0, i + 1);
        proof {
            assert(prefix.drop_last() =~= values.subrange(0, i as int));
            assert(prefix.last() == fields@[i as int]@);
        }
        match headers::to_text(fields[i].as_slice()) {
            Some(t) => {
                let parsed = urls::split_cookies(t.as_str());
                add_readable(&mut cookies, &parsed);
            },
            None => {},
        }
        i = i + 1;
    }
    assert(values.subrange(0, i as int) =~= values);
    RequestMeta {
        method: text::copy(req.method.as_str()),
        url_str,
        version: req.version.write(),
        headers: headers::list(&req.headers),
        query,
        cookies,
    }
}

/// The URL that stands for one that could not be read.
pub open spec fn unknown_url() -> UrlView {
    UrlView { href: "http://unknown/"@, scheme: "http"@, host: Some("unknown"@), port: Some(80) }
}

/// The URL a record shows for a text.
pub open spec fn recorded_url(s: Seq<char>) -> UrlView {
    match urls::url_of(s) {
        Ok(u) => u,
        Err(_) => unknown_url(),
    }
}

/// The URL a record shows for a text.
pub fn url_for_record(s: &str) -> (r: TargetUrl)
    ensures
        r@ == recorded_url(s@),
        urls::url_of(s@) matches Ok(u) ==> r@ == u,
        urls::url_of(s@) is Err ==> r.href@ == "http://unknown/"@,
{
    match urls::parse_url(s) {
        Ok(u) => u,
        Err(_) => TargetUrl {
            href: text::copy("http://unknown/"),
            scheme: text::copy("http"),
            host: Some(text::copy("unknown")),
            port: Some(80),
        },
    }
}

/// What a request is aimed at: host and port where both are known, the host alone otherwise.
pub open spec fn target_of(url: UrlView) -> Option<Seq<char>> {
    match url.host {
        None => None,
        Some(host) => match url.port {
            Some(port) => Some(host + ":"@ + text::decimal(port as nat)),
            None => Some(host),
        },
    }
}

/// What a request is aimed at.
pub fn target_host(url: &TargetUrl) -> (r: Option<String>)
    ensures
        text::text_opt(r) == target_of(url@),
        r is None <==> url.host is None,
        r matches Some(t) ==> t@ == (match url.port {
            Some(port) => url.host->0@ + ":"@ + text::decimal(port as nat),
            None => url.host->0@,
        }),
{
    match &url.host {
        None => None,
        Some(host) => match url.port {
            Some(port) => {
                let port_text = text::decimal_text(port as u64);
                Some(text::concat3(host.as_str(), ":", port_text.as_str()))
            },
            None => Some(text::copy(host.as_str())),
        },
    }
}

/// A response of which nothing is known yet.
pub open spec fn empty_response() -> ResponseView {
    ResponseView {
        status: 0,
        status_text: ""@,
        version: ""@,
        headers: Seq::empty(),
        cookies: Seq::empty(),
        body: None,
        trailers: Seq::empty(),
        timing: flow::no_timing(),
    }
}

fn no_response() -> (r: HttpResponse)
    ensures
        r@ == empty_response(),
{
    let r = HttpResponse {
        status: 0,
        status_text: text::copy(""),
        version: text::copy(""),
        headers: Vec::new(),
        cookies: Vec::new(),
        body: None,
        trailers: Vec::new(),
        timing: ResponseTiming::none(),
    };
    assert(r@ =~= empty_response());
    r
}

/// The record an exchange starts with.
///
/// The peer's address is not known yet and is recorded as all zeros; what the request was aimed
/// at is recorded beside it.
pub open spec fn initial(
    meta: MetaView,
    url: UrlView,
    body: Option<BodyView>,
    client: SocketAddress,
    is_mitm: bool,
    is_websocket: bool,
    id: u128,
    now: Timestamp,
) -> FlowView {
    let request = RequestView {
        method: meta.method,
        url,
        version: meta.version,
        headers: meta.headers,
        cookies: meta.cookies,
        query: meta.query,
        body,
    };
    let kind = if is_websocket {
        seq!["websocket"@]
    } else {
        seq!["proxy"@]
    };
    FlowView {
        id,
        start_time: now,
        end_time: None,
        close_reason: None,
        network: NetworkView {
            client_ip: addr::ip_text(client.ip),
            client_port: client.port,
            server_ip: "0.0.0.0"@,
            server_port: 0,
            server_host: target_of(url),
            protocol: TransportProtocol::TCP,
            tls: is_mitm,
            tls_version: None,
            sni: None,
        },
        layer: if is_websocket {
            LayerView::WebSocket {
                handshake_request: request,
                handshake_response: empty_response(),
                messages: Seq::empty(),
                closed: false,
            }
        } else {
            LayerView::Http { request, response: None, error: None }
        },
        tags: if is_mitm {
            kind.push("mitm"@)
        } else {
            kind
        },
        meta: Map::empty(),
        resilience_trace: None,
        rule_variables: Map::empty(),
        matched_rules: Seq::empty(),
    }
}

/// The record an exchange starts with, under a given identifier and time.
pub fn initial_flow(
    meta: RequestMeta,
    url: TargetUrl,
    req_body: Option<BodyData>,
    client_addr: SocketAddress,
    is_mitm: bool,
    is_websocket: bool,
    id: u128,
    now: Timestamp,
) -> (r: Flow)
    ensures
        r@ == initial(meta@, url@, flow::body_opt(req_body), client_addr, is_mitm, is_websocket, id, now),
        r.id == id,
        r.start_time == now,
        r.end_time is None,
        r.network.client_ip@ == addr::ip_text(client_addr.ip),
        r.network.client_port == client_addr.port,
        r.network.tls == is_mitm,
        is_websocket ==> (r@.layer matches LayerView::WebSocket {
            handshake_request,
            handshake_response,
            messages,
            closed,
        } && handshake_request.method == meta@.method && handshake_request.url == url@ && handshake_request.version
            == meta@.version && handshake_request.headers == meta@.headers && handshake_request.cookies == meta@.cookies
            && handshake_request.query == meta@.query && handshake_request.body == flow::body_opt(req_body)
            && handshake_response.status == 0 && messages.len() == 0 && !closed),
        !is_websocket ==> (r@.layer matches LayerView::Http { request, response, error } && request.method == meta@.method
            && request.url == url@ && request.version == meta@.version && request.headers == meta@.headers
            && request.cookies == meta@.cookies && request.query == meta@.query && request.body == flow::body_opt(
            req_body,
        ) && response is None && error is None),
{
    let ghost expected = initial(meta@, url@, flow::body_opt(req_body), client_addr, is_mitm, is_websocket, id, now);
    let network = NetworkInfo {
        client_ip: addr::write_ip(client_addr.ip),
        client_port: client_addr.port,
        server_ip: text::copy("0.0.0.0"),
        server_port: 0,
        server_host: target_host(&url),
        protocol: TransportProtocol::TCP,
        tls: is_mitm,
        tls_version: None,
        sni: None,
    };
    let request = HttpRequest {
        method: meta.method,
        url,
        version: meta.version,
        headers: meta.headers,
        cookies: meta.cookies,
        query: meta.query,
        body: req_body,
    };
    let mut tags: Vec<String> = Vec::new();
    let layer = if is_websocket {
        tags.push(text::copy("websocket"));
        Layer::WebSocket(
            WebSocketLayer {
                handshake_request: request,
                handshake_response: no_response(),
                messages: Vec::new(),
                closed: false,
            },
        )
    } else {
        tags.push(text::copy("proxy"));
        Layer::Http(HttpLayer { request, response: None, error: None })
    };
    if is_mitm {
        tags.push(text::copy("mitm"));
    }
    let r = Flow {
        id,
        start_time: now,
        end_time: None,
        close_reason: None,
        network,
        layer,
        tags,
        meta: TextMap::new(),
        resilience_trace: None,
        rule_variables: TextMap::new(),
        matched_rules: Vec::new(),
    };
    proof {
        assert(r@.tags =~= expected.tags);
        assert(r@.matched_rules =~= expected.matched_rules);
        assert(r@.layer =~= expected.layer);
        assert(r@ =~= expected);
    }
    r
}

/// The record an exchange starts with.
pub fn create_initial_flow(
    meta: RequestMeta,
    req_body: Option<BodyData>,
    client_addr: SocketAddress,
    is_mitm: bool,
    is_websocket: bool,
) -> (r: Flow)
    ensures
        r@ == initial(
            meta@,
            recorded_url(meta@.url_str),
            flow::body_opt(req_body),
            client_addr,
            is_mitm,
            is_websocket,
            r@.id,
            r@.start_time,
        ),
        r.network.client_ip@ == addr::ip_text(client_addr.ip),
        r.network.client_port == client_addr.port,
        r.network.tls == is_mitm,
        is_websocket ==> (r@.layer matches LayerView::WebSocket { handshake_request, .. } && handshake_request.method
            == meta@.method && handshake_request.version == meta@.version && handshake_request.headers == meta@.headers
            && handshake_request.cookies == meta@.cookies && handshake_request.query == meta@.query
            && handshake_request.body == flow::body_opt(req_body) && (urls::url_of(meta@.url_str) matches Ok(u)
            ==> handshake_request.url == u)),
        !is_websocket ==> (r@.layer matches LayerView::Http { request, response, error } && request.method == meta@.method
            && request.version == meta@.version && request.headers == meta@.headers && request.cookies == meta@.cookies
            && request.query == meta@.query && request.body == flow::body_opt(req_body) && (urls::url_of(
            meta@.url_str,
        ) matches Ok(u) ==> request.url == u) && response is None && error is None),
{
    let id: u128 = urls::new_id();
    let now = urls::now();
    let url = url_for_record(meta.url_str.as_str());
    initial_flow(meta, url, req_body, client_addr, is_mitm, is_websocket, id, now)
}

/// The head of a response.
#[derive(Debug)]
pub struct ResponseHead {
    pub status: u16,
    pub version: HttpVersion,
    pub headers: hyper::HeaderMap,
}

/// What the head of a response holds.
#[verifier::ext_equal]
pub struct HeadView {
    pub status: u16,
    pub version: HttpVersion,
    pub headers: Seq<(Seq<char>, Seq<Seq<u8>>)>,
}

impl View for ResponseHead {
    type V = HeadView;

    open spec fn view(&self) -> HeadView {
        HeadView { status: self.status, version: self.version, headers: headers::header_entries(self.headers) }
    }
}

/// A response that the proxy answers with itself.
#[derive(Debug)]
pub struct WireResponse {
    pub head: ResponseHead,
    pub body: Vec<u8>,
}

/// What a response holds.
#[verifier::ext_equal]
pub struct WireView {
    pub head: HeadView,
    pub body: Seq<u8>,
}

impl View for WireResponse {
    type V = WireView;

    open spec fn view(&self) -> WireView {
        WireView { head: self.head@, body: self.body@ }
    }
}

/// A response without header fields.
pub open spec fn bare_response(status: u16, body: Seq<u8>) -> WireView {
    WireView { head: HeadView { status, version: HttpVersion::Http11, headers: Seq::empty() }, body }
}

/// A response that reports something in words.
pub open spec fn error_view(status: u16, message: Seq<char>) -> WireView {
    bare_response(status, vstd::utf8::encode_utf8(message))
}

/// Answer with a status and a message.
pub fn create_error_response(status: u16, message: &str) -> (r: WireResponse)
    ensures
        r@ == error_view(status, message@),
        r.head.status == status,
        r.body@ == vstd::utf8::encode_utf8(message@),
        headers::header_entries(r.head.headers).len() == 0,
{
    WireResponse {
        head: ResponseHead { status, version: HttpVersion::Http11, headers: headers::new_headers() },
        body: vstd::slice::slice_to_vec(message.as_bytes()),
    }
}

/// The bytes of an optional recorded body.
pub open spec fn bytes_of(body: Option<BodyView>) -> Seq<u8> {
    match body {
        Some(b) => body_codec::recorded_bytes(b.encoding, b.content),
        None => Seq::empty(),
    }
}

/// The bytes of an optional recorded body.
pub fn body_data_to_bytes(body: &Option<BodyData>) -> (r: Vec<u8>)
    ensures
        r@ == bytes_of(flow::body_opt(*body)),
        body is None ==> r@.len() == 0,
        body matches Some(b) ==> r@ == body_codec::recorded_bytes(b.encoding@, b.content@),
{
    match body {
        Some(b) => body_codec::bytes_of_record(b.encoding.as_str(), b.content.as_str()),
        None => Vec::new(),
    }
}

/// The bytes of a request body that was replaced in the record.
pub fn build_request_body_from_flow(body_data: &BodyData) -> (r: Vec<u8>)
    ensures
        r@ == bytes_of(Some(body_data@)),
        r@ == body_codec::recorded_bytes(body_data.encoding@, body_data.content@),
{
    body_codec::bytes_of_record(body_data.encoding.as_str(), body_data.content.as_str())
}

/// The bytes of a response body that was replaced in the record.
pub fn build_response_body_from_flow(body_data: &BodyData) -> (r: Vec<u8>)
    ensures
        r@ == bytes_of(Some(body_data@)),
        r@ == body_codec::recorded_bytes(body_data.encoding@, body_data.content@),
{
    body_codec::bytes_of_record(body_data.encoding.as_str(), body_data.content.as_str())
}

/// The recorded request body of an HTTP exchange.
pub open spec fn request_body(f: FlowView) -> Option<BodyView> {
    match f.layer {
        LayerView::Http { request, .. } => request.body,
        _ => None,
    }
}

/// The recorded response of an HTTP exchange.
pub open spec fn response_of(f: FlowView) -> Option<ResponseView> {
    match f.layer {
        LayerView::Http { response, .. } => response,
        _ => None,
    }
}

/// The recorded response body of an HTTP exchange.
pub open spec fn response_body(f: FlowView) -> Option<BodyView> {
    match response_of(f) {
        Some(r) => r.body,
        None => None,
    }
}

/// How many bytes the recorded request body stands for.
pub fn request_body_from_flow_len(f: &Flow) -> (r: Option<usize>)
    ensures
        match r {
            Some(n) => request_body(f@) is Some && n == bytes_of(request_body(f@)).len(),
            None => request_body(f@) is None,
        },
{
    match &f.layer {
        Layer::Http(http) => match &http.request.body {
            Some(b) => Some(build_request_body_from_flow(b).len()),
            None => None,
        },
        _ => None,
    }
}

/// How many bytes the recorded response body stands for.
pub fn response_body_from_flow_len(f: &Flow) -> (r: Option<usize>)
    ensures
        match r {
            Some(n) => response_body(f@) is Some && n == bytes_of(response_body(f@)).len(),
            None => response_body(f@) is None,
        },
{
    match &f.layer {
        Layer::Http(http) => match &http.response {
            Some(response) => match &response.body {
                Some(b) => Some(build_response_body_from_flow(b).len()),
                None => None,
            },
            None => None,
        },
        _ => None,
    }
}

/// The fields that say how long a body that is still streaming will be.
pub open spec fn length_names() -> Seq<Seq<char>> {
    seq!["content-length"@, "transfer-encoding"@]
}

/// The last length fields among some fields.
pub open spec fn length_fields(fields: Seq<(Seq<char>, Seq<u8>)>) -> Seq<(Seq<char>, Seq<Seq<u8>>)>
    decreases fields.len(),
{
    if fields.len() == 0 {
        Seq::empty()
    } else {
        let rest = length_fields(fields.drop_last());
        if length_names().contains(fields.last().0) {
            headers::with_inserted(rest, fields.last().0, fields.last().1)
        } else {
            rest
        }
    }
}

/// The head the client gets: the record decides the status and the fields, the upstream's body
/// keeps the length fields it came with, and the version is the one the client speaks.
pub open spec fn client_head(f: FlowView, upstream: HeadView) -> HeadView {
    let version = match f.layer {
        LayerView::Http { request, .. } => version_of(request.version),
        _ => upstream.version,
    };
    match response_of(f) {
        None => HeadView { version, ..upstream },
        Some(response) => HeadView {
            status: if urls::valid_status(response.status) {
                response.status
            } else {
                upstream.status
            },
            version,
            headers: headers::all_inserted(
                length_fields(headers::flat(upstream.headers)),
                without(response.headers, length_names()),
            ),
        },
    }
}

fn is_valid_status(code: u16) -> (r: bool)
    ensures
        r == urls::valid_status(code),
{
    100 <= code && code <= 999
}

fn copy_length_fields(upstream: &hyper::HeaderMap) -> (r: hyper::HeaderMap)
    ensures
        headers::header_entries(r) == length_fields(headers::flat(headers::header_entries(*upstream))),
        headers::header_entries(r).len() <= 2,
{
    let mut out = headers::new_headers();
    let all = headers::fields(upstream);
    let ghost seen = all@.map_values(|f: (String, Vec<u8>)| (f.0@, f.1@));
    let mut i: usize = 0;
    proof {
        lemma_names_are_lower();
    }
    while i < all.len()
        invariant
            i <= all@.len(),
            seen == all@.map_values(|f: (String, Vec<u8>)| (f.0@, f.1@)),
            forall|j: int|
                0 <= j < all@.len() ==> headers::valid_name((#[trigger] all@[j]).0@) && text::lower(all@[j].0@)
                    == all@[j].0@ && headers::valid_value(all@[j].1@),
            headers::header_entries(out) == length_fields(seen.subrange(0, i as int)),
            forall|j: int|
                0 <= j < headers::header_entries(out).len() ==> length_names().contains(
                    (#[trigger] headers::header_entries(out)[j]).0,
                ),
            forall|j: int, k: int|
                0 <= j < k < headers::header_entries(out).len() ==> (#[trigger] headers::header_entries(out)[j]).0
                    != (#[trigger] headers::header_entries(out)[k]).0,
            headers::header_entries(out).len() <= 2,
        decreases all.len() - i,
    {
        let ghost prefix = seen.subrange(0, i + 1);
        proof {
            assert(prefix.drop_last() =~= seen.subrange(0, i as int));
            assert(prefix.last() == (all@[i as int].0@, all@[i as int].1@));
        }
        let ghost before = headers::header_entries(out);
        let name = all[i].0.as_str();
        proof {
            headers::lemma_position(before, name@);
            assert(length_names()[0] == "content-length"@ && length_names()[1] == "transfer-encoding"@);
        }
        if text::same_text(name, "content-length") || text::same_text(name, "transfer-encoding") {
            assert(length_names().contains(name@));
            headers::insert(&mut out, name, all[i].1.as_slice());
            proof {
                if !headers::present(before, name@) && before.len() == 2 {
                    assert(length_names().contains(before[0].0));
                    assert(length_names().contains(before[1].0));
                    assert(before[0].0 != before[1].0);
                    assert(before[0].0 != name@ && before[1].0 != name@);
                    assert(false);
                }
            }
        } else {
            assert(!length_names().contains(name@));
        }
        i = i + 1;
    }
    assert(seen.subrange(0, i as int) =~= seen);
    out
}

fn length_list() -> (r: Vec<&'static str>)
    ensures
        strs(r@) == length_names(),
        forall|i: int| 0 <= i < r@.len() ==> text::lower((#[trigger] r@[i])@) == r@[i]@,
{
    let r = vec!["content-length", "transfer-encoding"];
    proof {
        lemma_names_are_lower();
        assert(strs(r@) =~= length_names());
    }
    r
}

/// Build the head the client gets from the record, so that what was changed in the record reaches
/// the client.
pub fn build_client_response_head(f: &Flow, upstream: &ResponseHead) -> (r: ResponseHead)
    requires
        response_of(f@) matches Some(response) ==> response.headers.len() + 2 <= headers::FIELD_CAPACITY,
    ensures
        r@ == client_head(f@, upstream@),
        f@.layer is Http ==> r.version == version_of(f@.layer->request.version),
        response_of(f@) matches Some(response) ==> r.status == (if 100 <= response.status <= 999 {
            response.status
        } else {
            upstream.status
        }),
        response_of(f@) is None ==> r.status == upstream.status && r@.headers == upstream@.headers,
{
    let version = match &f.layer {
        Layer::Http(http) => parse_http_version(http.request.version.as_str()),
        _ => upstream.version,
    };
    match &f.layer {
        Layer::Http(http) => match &http.response {
            Some(response) => {
                let status = if is_valid_status(response.status) {
                    response.status
                } else {
                    upstream.status
                };
                let mut fields = copy_length_fields(&upstream.headers);
                let kept = without_fields(response.headers.as_slice(), &length_list());
                headers::insert_list(&mut fields, kept.as_slice());
                ResponseHead { status, version, headers: fields }
            },
            None => ResponseHead { status: upstream.status, version, headers: headers::copy(&upstream.headers) },
        },
        _ => ResponseHead { status: upstream.status, version, headers: headers::copy(&upstream.headers) },
    }
}

/// The fields that never go out with a body of the proxy's own.
pub open spec fn transport_names() -> Seq<Seq<char>> {
    seq!["content-length"@, "transfer-encoding"@, "connection"@]
}

/// The fields that go out with a recorded response: none that describe the transport, and
/// `Content-Encoding` only with a body that is still what it was.
pub open spec fn local_fields(response: ResponseView) -> Seq<(Seq<char>, Seq<char>)> {
    let kept = without(response.headers, transport_names());
    if response.body is Some && response.body->0.encoding != "base64"@ {
        kept
    } else {
        without(kept, seq!["content-encoding"@])
    }
}

/// A status that can be sent: the recorded one, or 200.
pub open spec fn sent_status(code: u16) -> u16 {
    if urls::valid_status(code) {
        code
    } else {
        200
    }
}

/// The response that a recorded one is sent as.
pub open spec fn local_response(response: ResponseView) -> WireView {
    WireView {
        head: HeadView {
            status: sent_status(response.status),
            version: HttpVersion::Http11,
            headers: headers::all_appended(Seq::empty(), local_fields(response)),
        },
        body: bytes_of(response.body),
    }
}

fn transport_list() -> (r: Vec<&'static str>)
    ensures
        strs(r@) == transport_names(),
        forall|i: int| 0 <= i < r@.len() ==> text::lower((#[trigger] r@[i])@) == r@[i]@,
{
    let r = vec!["content-length", "transfer-encoding", "connection"];
    proof {
        lemma_names_are_lower();
        assert(strs(r@) =~= transport_names());
    }
    r
}

/// Build the response a recorded one is sent as. It fails only where the header map is full, which
/// it is not below `FIELD_CAPACITY` fields.
pub fn build_response_from_flow_response(response: &HttpResponse) -> (r: Result<WireResponse, String>)
    ensures
        match r {
            Ok(w) => w@ == local_response(response@) && w.body@ == bytes_of(flow::body_opt(response.body)) && (100
                <= response.status <= 999 ==> w.head.status == response.status),
            Err(e) => e@ == "Failed to build response: max size reached"@ && response@.headers.len()
                > headers::FIELD_CAPACITY,
        },
{
    let status: u16 = if is_valid_status(response.status) {
        response.status
    } else {
        200
    };
    let body = body_data_to_bytes(&response.body);
    let keep_content_encoding = match &response.body {
        Some(b) => !text::same_text(b.encoding.as_str(), "base64"),
        None => false,
    };
    let mut kept = without_fields(response.headers.as_slice(), &transport_list());
    if !keep_content_encoding {
        let only_encoding = vec!["content-encoding"];
        proof {
            lemma_names_are_lower();
            assert(strs(only_encoding@) =~= seq!["content-encoding"@]);
        }
        kept = without_fields(kept.as_slice(), &only_encoding);
    }
    let mut fields = headers::new_headers();
    if !headers::append_list(&mut fields, kept.as_slice()) {
        return Err(text::copy("Failed to build response: max size reached"));
    }
    Ok(WireResponse { head: ResponseHead { status, version: HttpVersion::Http11, headers: fields }, body })
}

/// What a mocked response is sent as.
pub open spec fn mocked(response: ResponseView, sent: WireView) -> bool {
    ||| sent == local_response(response)
    ||| sent == error_view(500, "Failed to build mock response"@) && response.headers.len() > headers::FIELD_CAPACITY
}

/// Answer with a mocked response.
pub fn mock_to_response(mock: HttpResponse) -> (r: WireResponse)
    ensures
        mocked(mock@, r@),
        mock.headers@.len() <= headers::FIELD_CAPACITY ==> r.body@ == bytes_of(flow::body_opt(mock.body)) && (100
            <= mock.status <= 999 ==> r.head.status == mock.status),
{
    match build_response_from_flow_response(&mock) {
        Ok(response) => response,
        Err(_) => create_error_response(500, "Failed to build mock response"),
    }
}

/// The cookies that the `Set-Cookie` fields among some fields set.
pub open spec fn set_cookies(fields: Seq<(Seq<char>, Seq<u8>)>) -> Seq<CookieView>
    decreases fields.len(),
{
    if fields.len() == 0 {
        Seq::empty()
    } else {
        let rest = set_cookies(fields.drop_last());
        if fields.last().0 == "set-cookie"@ {
            match headers::value_text(fields.last().1) {
                Some(t) => match urls::cookie_of(t) {
                    Some(c) => rest.push(c),
                    None => rest,
                },
                None => rest,
            }
        } else {
            rest
        }
    }
}

/// What is recorded of the head of a response.
pub open spec fn recorded_response(
    status: u16,
    version: HttpVersion,
    entries: Seq<(Seq<char>, Seq<Seq<u8>>)>,
) -> ResponseView {
    ResponseView {
        status,
        status_text: urls::status_line(status),
        version: version_text(version),
        headers: headers::listed(entries),
        cookies: set_cookies(headers::flat(entries)),
        body: None,
        trailers: Seq::empty(),
        timing: flow::no_timing(),
    }
}

fn read_set_cookies(m: &hyper::HeaderMap) -> (r: Vec<Cookie>)
    ensures
        flow::cookies(r@) == set_cookies(headers::flat(headers::header_entries(*m))),
{
    let all = headers::fields(m);
    let ghost seen = all@.map_values(|f: (String, Vec<u8>)| (f.0@, f.1@));
    let mut out: Vec<Cookie> = Vec::new();
    let mut i: usize = 0;
    assert(flow::cookies(out@) =~= set_cookies(seen.subrange(0, 0)));
    while i < all.len()
        invariant
            i <= all@.len(),
            seen == all@.map_values(|f: (String, Vec<u8>)| (f.0@, f.1@)),
            flow::cookies(out@) == set_cookies(seen.subrange(0, i as int)),
        decreases all.len() - i,
    {
        let ghost prefix = seen.subrange(0, i + 1);
        let ghost before = out@;
        proof {
            assert(prefix.drop_last() =~= seen.subrange(0, i as int));
            assert(prefix.last() == (all@[i as int].0@, all@[i as int].1@));
        }
        if text::same_text(all[i].0.as_str(), "set-cookie") {
            match headers::to_text(all[i].1.as_slice()) {
                Some(t) => {
                    match urls::parse_cookie(t.as_str()) {
                        Some(c) => {
                            let ghost view = c@;
                            out.push(c);
                            assert(flow::cookies(out@) =~= flow::cookies(before).push(view));
                        },
                        None => {},
                    }
                },
                None => {},
            }
        }
        i = i + 1;
    }
    assert(seen.subrange(0, i as int) =~= seen);
    out
}

fn set_response(f: &mut Flow, recorded: HttpResponse)
    ensures
        final(f)@ == (FlowView { layer: intercept::with_response(old(f)@.layer, recorded@), ..old(f)@ }),
{
    match &mut f.layer {
        Layer::Http(http) => {
            http.response = Some(recorded);
        },
        Layer::WebSocket(ws) => {
            ws.handshake_response = recorded;
        },
        _ => {},
    }
}

/// Record the head of a response.
pub fn update_flow_with_response_headers(f: &mut Flow, status: u16, version: HttpVersion, fields: &hyper::HeaderMap)
    requires
        urls::valid_status(status),
    ensures
        final(f)@ == (FlowView {
            layer: intercept::with_response(
                old(f)@.layer,
                recorded_response(status, version, headers::header_entries(*fields)),
            ),
            ..old(f)@
        }),
        old(f)@.layer is Http ==> (final(f)@.layer matches LayerView::Http { request, response: Some(p), error }
            && request == old(f)@.layer->request && error == old(f)@.layer->error && p.status == status && version_of(
            p.version,
        ) == version && p.headers == headers::listed(headers::header_entries(*fields)) && p.status_text
            == urls::status_line(status) && p.body is None),
        old(f)@.layer is WebSocket ==> (final(f)@.layer matches LayerView::WebSocket {
            handshake_request,
            handshake_response,
            messages,
            closed,
        } && handshake_request == old(f)@.layer->handshake_request && messages == old(f)@.layer->messages && closed
            == old(f)@.layer->closed && handshake_response.status == status && version_of(handshake_response.version)
            == version && handshake_response.headers == headers::listed(headers::header_entries(*fields))),
{
    proof {
        law_versions_survive_the_record(version);
    }
    let recorded = HttpResponse {
        status,
        status_text: urls::status_text(status),
        version: version.write(),
        headers: headers::list(fields),
        cookies: read_set_cookies(fields),
        body: None,
        trailers: Vec::new(),
        timing: ResponseTiming::none(),
    };
    assert(recorded@ =~= recorded_response(status, version, headers::header_entries(*fields)));
    set_response(f, recorded);
}

/// The fields of the response a layer holds.
pub open spec fn response_headers(layer: LayerView) -> Seq<(Seq<char>, Seq<char>)> {
    match layer {
        LayerView::Http { response: Some(r), .. } => r.headers,
        LayerView::WebSocket { handshake_response, .. } => handshake_response.headers,
        _ => Seq::empty(),
    }
}

/// A layer once the body of its response has been recorded; unchanged where it has no response.
pub open spec fn with_response_body(layer: LayerView, body: BodyView) -> LayerView {
    match layer {
        LayerView::Http { request, response: Some(r), error } => LayerView::Http {
            request,
            response: Some(ResponseView { body: Some(body), ..r }),
            error,
        },
        LayerView::WebSocket { handshake_request, handshake_response, messages, closed } => LayerView::WebSocket {
            handshake_request,
            handshake_response: ResponseView { body: Some(body), ..handshake_response },
            messages,
            closed,
        },
        other => other,
    }
}

/// Record the body of a response. What is sent from the record are the bytes that were recorded.
pub fn update_flow_with_response_body(f: &mut Flow, body_bytes: &[u8])
    ensures
        final(f)@ == (FlowView {
            layer: with_response_body(
                old(f)@.layer,
                BodyView {
                    encoding: body_codec::shown(body_bytes@, response_headers(old(f)@.layer)).0,
                    content: body_codec::shown(body_bytes@, response_headers(old(f)@.layer)).1,
                    size: body_bytes@.len() as u64,
                    grpc: None,
                },
            ),
            ..old(f)@
        }),
        response_of(old(f)@) is Some ==> bytes_of(response_body(final(f)@)) == body_bytes@,
        response_of(old(f)@) is Some ==> response_of(final(f)@) is Some && response_of(final(f)@)->0.status
            == response_of(old(f)@)->0.status && response_of(final(f)@)->0.headers == response_of(old(f)@)->0.headers
            && response_body(final(f)@) is Some && response_body(final(f)@)->0.size == body_bytes@.len() as u64,
        old(f)@.layer is Http ==> final(f)@.layer is Http && final(f)@.layer->request == old(f)@.layer->request,
{
    let none: Vec<(String, String)> = Vec::new();
    assert(flow::pairs(none@) =~= Seq::empty());
    let (encoding, content) = match &f.layer {
        Layer::Http(http) => match &http.response {
            Some(r) => body_codec::process_body(body_bytes, r.headers.as_slice()),
            None => body_codec::process_body(body_bytes, none.as_slice()),
        },
        Layer::WebSocket(ws) => body_codec::process_body(body_bytes, ws.handshake_response.headers.as_slice()),
        _ => body_codec::process_body(body_bytes, none.as_slice()),
    };
    let body = BodyData { encoding, content, size: body_bytes.len() as u64, grpc: None };
    match &mut f.layer {
        Layer::Http(http) => {
            match &mut http.response {
                Some(response) => {
                    response.body = Some(body);
                },
                None => {},
            }
        },
        Layer::WebSocket(ws) => {
            ws.handshake_response.body = Some(body);
        },
        _ => {},
    }
}

/// Record a whole response: its head, then its body.
pub fn update_flow_with_response(
    f: &mut Flow,
    status: u16,
    version: HttpVersion,
    fields: &hyper::HeaderMap,
    body_bytes: &[u8],
)
    requires
        urls::valid_status(status),
    ensures
        ({
            let layer = intercept::with_response(
                old(f)@.layer,
                recorded_response(status, version, headers::header_entries(*fields)),
            );
            let shown = body_codec::shown(body_bytes@, response_headers(layer));
            final(f)@ == (FlowView {
                layer: with_response_body(
                    layer,
                    BodyView { encoding: shown.0, content: shown.1, size: body_bytes@.len() as u64, grpc: None },
                ),
                ..old(f)@
            })
        }),
        old(f)@.layer is Http ==> bytes_of(response_body(final(f)@)) == body_bytes@,
        old(f)@.layer is Http ==> (final(f)@.layer matches LayerView::Http { request, response: Some(p), error }
            && request == old(f)@.layer->request && p.status == status && version_of(p.version) == version && p.headers
            == headers::listed(headers::header_entries(*fields)) && p.body is Some),
{
    update_flow_with_response_headers(f, status, version, fields);
    update_flow_with_response_body(f, body_bytes);
}

/// What building a client's response from the record leads to.
pub open spec fn client_response(
    f: FlowView,
    default_version: HttpVersion,
    strict_mode: bool,
    r: Result<WireView, Seq<char>>,
) -> bool {
    match f.layer {
        LayerView::Http { response: Some(response), .. } => {
            let kept = without(response.headers, transport_names());
            if strict_mode && !urls::valid_status(response.status) {
                r == Err::<WireView, Seq<char>>("Invalid status code: "@ + text::decimal(response.status as nat))
            } else if strict_mode && first_unsendable(kept) is Some {
                let bad = first_unsendable(kept)->0;
                r == Err::<WireView, Seq<char>>("Invalid header: "@ + bad.0 + ": "@ + bad.1)
            } else {
                ||| r == Ok::<WireView, Seq<char>>(
                    WireView {
                        head: HeadView {
                            status: sent_status(response.status),
                            version: default_version,
                            headers: headers::all_appended(Seq::empty(), kept),
                        },
                        body: bytes_of(response.body),
                    },
                )
                ||| r == Err::<WireView, Seq<char>>("Failed to build response: max size reached"@) && kept.len()
                    > headers::FIELD_CAPACITY
            }
        },
        LayerView::Http { response: None, .. } => r == Err::<WireView, Seq<char>>("No response in flow"@),
        _ => r == Err::<WireView, Seq<char>>("Not HTTP layer"@),
    }
}

/// The first field of a list that cannot be sent.
pub open spec fn first_unsendable(list: Seq<(Seq<char>, Seq<char>)>) -> Option<(Seq<char>, Seq<char>)>
    decreases list.len(),
{
    if list.len() == 0 {
        None
    } else if !headers::sendable(list[0]) {
        Some(list[0])
    } else {
        first_unsendable(list.subrange(1, list.len() as int))
    }
}

/// What building a client's response gave.
pub open spec fn built(r: Result<WireResponse, String>) -> Result<WireView, Seq<char>> {
    match r {
        Ok(w) => Ok(w@),
        Err(e) => Err(e@),
    }
}

fn find_unsendable(list: &Vec<(String, String)>) -> (r: Option<usize>)
    ensures
        match r {
            Some(i) => i < list@.len() && first_unsendable(flow::pairs(list@)) == Some(
                flow::pairs(list@)[i as int],
            ),
            None => first_unsendable(flow::pairs(list@)) is None,
        },
{
    let ghost all = flow::pairs(list@);
    let mut i: usize = 0;
    assert(all.subrange(0, all.len() as int) =~= all);
    while i < list.len()
        invariant
            i <= list@.len(),
            all == flow::pairs(list@),
            first_unsendable(all.subrange(i as int, all.len() as int)) == first_unsendable(all),
        decreases list.len() - i,
    {
        let ghost rest = all.subrange(i as int, all.len() as int);
        assert(rest[0] == (list@[i as int].0@, list@[i as int].1@));
        assert(rest.subrange(1, rest.len() as int) =~= all.subrange(i + 1, all.len() as int));
        if !headers::is_sendable(list[i].0.as_str(), list[i].1.as_str()) {
            return Some(i);
        }
        i = i + 1;
    }
    assert(all.subrange(i as int, all.len() as int).len() == 0);
    None
}

/// Build the response a client gets wholly from the record. In strict mode a status or a field
/// that cannot be sent is an error; otherwise the status becomes 200 and the field is left out.
pub fn build_client_response_from_flow(
    f: &Flow,
    default_version: HttpVersion,
    strict_mode: bool,
    counters: &mut Metrics,
) -> (r: Result<WireResponse, String>)
    ensures
        client_response(f@, default_version, strict_mode, built(r)),
        r matches Ok(w) ==> response_of(f@) is Some && w.head.version == default_version && w.body@ == bytes_of(
            response_body(f@),
        ) && (100 <= response_of(f@)->0.status <= 999 ==> w.head.status == response_of(f@)->0.status),
        strict_mode && response_of(f@) is Some && !(100 <= response_of(f@)->0.status <= 999) ==> r is Err,
        *final(counters) == (if strict_mode && (response_of(f@) matches Some(response) && !urls::valid_status(
            response.status,
        )) {
            Metrics { invalid_status: old(counters).invalid_status.wrapping_add(1), ..*old(counters) }
        } else {
            *old(counters)
        }),
{
    match &f.layer {
        Layer::Http(http) => match &http.response {
            Some(response) => {
                let status: u16 = if is_valid_status(response.status) {
                    response.status
                } else {
                    if strict_mode {
                        metrics::inc_proxy_invalid_status(counters);
                        let code = text::decimal_text(response.status as u64);
                        return Err(text::concat2("Invalid status code: ", code.as_str()));
                    }
                    200
                };
                let kept = without_fields(response.headers.as_slice(), &transport_list());
                if strict_mode {
                    match find_unsendable(&kept) {
                        Some(i) => {
                            return Err(
                                text::concat4("Invalid header: ", kept[i].0.as_str(), ": ", kept[i].1.as_str()),
                            );
                        },
                        None => {},
                    }
                }
                let mut fields = headers::new_headers();
                if !headers::append_list(&mut fields, kept.as_slice()) {
                    return Err(text::copy("Failed to build response: max size reached"));
                }
                let body = body_data_to_bytes(&response.body);
                Ok(WireResponse { head: ResponseHead { status, version: default_version, headers: fields }, body })
            },
            None => Err(text::copy("No response in flow")),
        },
        _ => Err(text::copy("Not HTTP layer")),
    }
}

/// The head of a request that goes to the upstream. Without a version it is sent in whatever
/// version the connection speaks.
#[derive(Debug)]
pub struct ForwardRequest {
    pub method: String,
    pub uri: TargetUri,
    pub version: Option<HttpVersion>,
    pub headers: hyper::HeaderMap,
}

/// What a forwarded request holds.
#[verifier::ext_equal]
pub struct ForwardView {
    pub method: Seq<char>,
    pub uri: UriView,
    pub version: Option<HttpVersion>,
    pub headers: Seq<(Seq<char>, Seq<Seq<u8>>)>,
}

impl View for ForwardRequest {
    type V = ForwardView;

    open spec fn view(&self) -> ForwardView {
        ForwardView {
            method: self.method@,
            uri: self.uri@,
            version: self.version,
            headers: headers::header_entries(self.headers),
        }
    }
}

/// The version a request is forwarded in: the client's, where that is HTTP/1.x. What an HTTP/2
/// client speaks says nothing about the upstream's connection.
pub open spec fn forward_version(version: Seq<char>) -> Option<HttpVersion> {
    let ingress = version_of(version);
    if ingress is Http10 || ingress is Http11 {
        Some(ingress)
    } else {
        None
    }
}

/// A URL with its host and port replaced by an address, as far as it lets them be replaced.
pub open spec fn url_at(href: Seq<char>, to: SocketAddress) -> Seq<char> {
    match urls::url_with_ip(href, to.ip) {
        Some(h) => match urls::url_with_port(h, to.port) {
            Some(p) => p,
            None => h,
        },
        None => href,
    }
}

/// The URL that a transparently routed request is sent to: the address the connection was made to,
/// and `https` where the client speaks TLS.
pub open spec fn routed_url(url: UrlView, to: SocketAddress, tls: bool) -> Seq<char> {
    let at = url_at(url.href, to);
    if tls && url.scheme == "http"@ {
        match urls::url_with_scheme(at, "https"@) {
            Some(s) => s,
            None => at,
        }
    } else {
        at
    }
}

/// Replace host and port of a URL by an address, as far as it lets them be replaced.
pub fn rewrite_url_at(href: &str, to: SocketAddress) -> (r: String)
    ensures
        r@ == url_at(href@, to),
        urls::url_with_ip(href@, to.ip) is None ==> r@ == href@,
        urls::url_with_ip(href@, to.ip) matches Some(h) ==> (urls::url_with_port(h, to.port) matches Some(p) ==> r@ == p),
{
    match urls::set_ip_host(href, to.ip) {
        Some(h) => match urls::set_port(h.as_str(), to.port) {
            Some(p) => p,
            None => h,
        },
        None => text::copy(href),
    }
}

/// Where a request goes, and what of the policy sends it there.
pub open spec fn route_of(policy: ProxyPolicy, target: Option<SocketAddress>) -> Option<SocketAddress> {
    if policy.transparent_enabled {
        target
    } else {
        None
    }
}

/// A record once its exchange has been routed to the address the connection was made to.
pub open spec fn routed(f: FlowView, to: SocketAddress) -> FlowView {
    FlowView {
        tags: f.tags.push("transparent"@),
        network: NetworkView { server_ip: addr::ip_text(to.ip), server_port: to.port, ..f.network },
        ..f
    }
}

/// Record that an exchange is routed to the address the connection was made to.
pub fn mark_routed(f: &mut Flow, to: SocketAddress)
    ensures
        final(f)@ == routed(old(f)@, to),
        final(f)@.tags == old(f)@.tags.push("transparent"@),
        final(f)@.network.server_ip == addr::ip_text(to.ip),
        final(f)@.network.server_port == to.port,
        final(f)@.network.client_ip == old(f)@.network.client_ip,
        final(f)@.network.client_port == old(f)@.network.client_port,
        final(f)@.layer == old(f)@.layer,
{
    f.tag("transparent");
    f.network.server_ip = addr::write_ip(to.ip);
    f.network.server_port = to.port;
}

/// The fields a request is forwarded with.
pub open spec fn forwarded_fields(request: RequestView, body_replaced: bool) -> Seq<(Seq<char>, Seq<char>)> {
    let own = if body_replaced {
        reframed(request.headers, bytes_of(request.body).len())
    } else {
        request.headers
    };
    without(coalesced(own), hop_names())
}

/// What forwarding the request of a record leads to: the record afterwards, and the request to
/// send or the answer that ends the exchange.
pub open spec fn forwarded(
    f: FlowView,
    target: Option<SocketAddress>,
    policy: ProxyPolicy,
    listen: Seq<SocketAddress>,
    known: Seq<addr::IpAddress>,
    body_replaced: bool,
    after: FlowView,
    r: Result<ForwardView, WireView>,
) -> bool {
    match f.layer {
        LayerView::Http { request, response, error } => {
            let route = route_of(policy, target);
            if route is Some && loop_detection::loops(listen, known, route->0) {
                &&& after == (FlowView {
                    layer: LayerView::Http { request, response, error: Some("Loop Detected"@) },
                    ..routed(f, route->0)
                })
                &&& r == Err::<ForwardView, WireView>(error_view(508, "Loop Detected"@))
            } else {
                let url = match route {
                    Some(to) => routed_url(request.url, to, f.network.tls),
                    None => request.url.href,
                };
                &&& after == match route {
                    Some(to) => routed(f, to),
                    None => f,
                }
                &&& forward_outcome(request, url, body_replaced, r)
            }
        },
        _ => after == f && r == Err::<ForwardView, WireView>(error_view(500, "Invalid Flow Layer State"@)),
    }
}

/// What building the forwarded request for a URL leads to.
pub open spec fn forward_outcome(
    request: RequestView,
    url: Seq<char>,
    body_replaced: bool,
    r: Result<ForwardView, WireView>,
) -> bool {
    let fields = forwarded_fields(request, body_replaced);
    if !urls::valid_method(request.method) {
        r == Err::<ForwardView, WireView>(error_view(500, "Failed to build forward request: invalid HTTP method"@))
    } else {
        match urls::uri_of(url) {
            Err(e) => r == Err::<ForwardView, WireView>(error_view(500, "Failed to build forward request: "@ + e)),
            Ok(uri) => {
                ||| r == Ok::<ForwardView, WireView>(
                    ForwardView {
                        method: request.method,
                        uri,
                        version: forward_version(request.version),
                        headers: headers::all_appended(Seq::empty(), fields),
                    },
                )
                ||| r == Err::<ForwardView, WireView>(
                    error_view(500, "Failed to build forward request: max size reached"@),
                ) && fields.len() > headers::FIELD_CAPACITY
            },
        }
    }
}

/// What forwarding gave.
pub open spec fn forward_result(r: Result<ForwardRequest, WireResponse>) -> Result<ForwardView, WireView> {
    match r {
        Ok(x) => Ok(x@),
        Err(x) => Err(x@),
    }
}

fn forward_list(request: &HttpRequest, body_replaced: bool) -> (r: Vec<(String, String)>)
    ensures
        flow::pairs(r@) == forwarded_fields(request@, body_replaced),
{
    let merged = if body_replaced {
        let len: usize = body_data_to_bytes(&request.body).len();
        let own = reframe_request_headers_for_replaced_body(request.headers.as_slice(), len);
        coalesce_cookie_headers(own.as_slice())
    } else {
        coalesce_cookie_headers(request.headers.as_slice())
    };
    without_fields(merged.as_slice(), &hop_list())
}

fn build_forward(request: &HttpRequest, url: &str, body_replaced: bool) -> (r: Result<ForwardRequest, WireResponse>)
    ensures
        forward_outcome(request@, url@, body_replaced, forward_result(r)),
{
    if !urls::is_method(request.method.as_str()) {
        return Err(create_error_response(500, "Failed to build forward request: invalid HTTP method"));
    }
    let uri = match urls::parse_uri(url) {
        Ok(u) => u,
        Err(e) => {
            let message = text::concat2("Failed to build forward request: ", e.as_str());
            return Err(create_error_response(500, message.as_str()));
        },
    };
    let ingress = parse_http_version(request.version.as_str());
    let version = if ingress == HttpVersion::Http10 || ingress == HttpVersion::Http11 {
        Some(ingress)
    } else {
        None
    };
    let list = forward_list(request, body_replaced);
    let mut fields = headers::new_headers();
    if !headers::append_list(&mut fields, list.as_slice()) {
        return Err(create_error_response(500, "Failed to build forward request: max size reached"));
    }
    Ok(ForwardRequest { method: text::copy(request.method.as_str()), uri, version, headers: fields })
}

/// Build the request that goes to the upstream from the record.
///
/// Where connections are routed transparently the record is marked, a connection back to the proxy
/// itself is refused, and the URL is that of the address the connection was made to. With a
/// replaced body the fields describe the new bytes.
pub fn build_forward_request(
    f: &mut Flow,
    target_addr: Option<SocketAddress>,
    policy: &ProxyPolicy,
    loop_detector: &LoopDetector,
    body_replaced: bool,
) -> (r: Result<ForwardRequest, WireResponse>)
    ensures
        forwarded(
            old(f)@,
            target_addr,
            *policy,
            loop_detector.listening(),
            loop_detector.known_local(),
            body_replaced,
            final(f)@,
            forward_result(r),
        ),
        r matches Ok(q) ==> old(f)@.layer is Http && final(f)@.layer == old(f)@.layer,
        r matches Ok(q) ==> q.method@ == old(f)@.layer->request.method,
        r matches Ok(q) ==> (policy.transparent_enabled && target_addr is Some) || urls::uri_of(
            old(f)@.layer->request.url.href,
        ) == Ok::<UriView, Seq<char>>(q@.uri),
        r matches Ok(q) ==> ({
            let client = version_of(old(f)@.layer->request.version);
            if client is Http10 || client is Http11 {
                q.version == Some(client)
            } else {
                q.version is None
            }
        }),
        r matches Ok(q) ==> (policy.transparent_enabled && target_addr is Some ==> final(f)@.network.server_ip
            == addr::ip_text(target_addr->0.ip) && final(f)@.network.server_port == target_addr->0.port),
        r matches Ok(q) ==> (!(policy.transparent_enabled && target_addr is Some) ==> final(f)@ == old(f)@),
        old(f)@.layer !is Http ==> r is Err,
        r matches Err(answer) ==> answer.head.status == 500 || answer.head.status == 508,
{
    match &f.layer {
        Layer::Http(_) => {},
        _ => {
            return Err(create_error_response(500, "Invalid Flow Layer State"));
        },
    }
    let mut url: Option<String> = None;
    if policy.transparent_enabled {
        match target_addr {
            Some(to) => {
                mark_routed(f, to);
                if loop_detector.would_loop(to) {
                    match &mut f.layer {
                        Layer::Http(http) => {
                            http.error = Some(text::copy("Loop Detected"));
                        },
                        _ => {},
                    }
                    return Err(create_error_response(508, "Loop Detected"));
                }
                match &f.layer {
                    Layer::Http(http) => {
                        let mut at = rewrite_url_at(http.request.url.href.as_str(), to);
                        if f.network.tls && text::same_text(http.request.url.scheme.as_str(), "http") {
                            match urls::set_scheme(at.as_str(), "https") {
                                Some(secured) => {
                                    at = secured;
                                },
                                None => {},
                            }
                        }
                        url = Some(at);
                    },
                    _ => {},
                }
            },
            None => {},
        }
    }
    match &f.layer {
        Layer::Http(http) => match &url {
            Some(u) => build_forward(&http.request, u.as_str(), body_replaced),
            None => build_forward(&http.request, http.request.url.href.as_str(), body_replaced),
        },
        _ => Err(create_error_response(500, "Invalid Flow Layer State")),
    }
}

/// No request is forwarded to the proxy itself: a route that loops is answered with 508.
pub proof fn law_loops_are_refused(
    f: FlowView,
    to: SocketAddress,
    policy: ProxyPolicy,
    listen: Seq<SocketAddress>,
    known: Seq<addr::IpAddress>,
    body_replaced: bool,
    after: FlowView,
    r: Result<ForwardView, WireView>,
)
    requires
        f.layer is Http,
        policy.transparent_enabled,
        loop_detection::loops(listen, known, to),
        forwarded(f, Some(to), policy, listen, known, body_replaced, after, r),
    ensures
        r is Err,
        r->Err_0.head.status == 508,
{
}

proof fn lemma_all_appended_names(
    entries: Seq<(Seq<char>, Seq<Seq<u8>>)>,
    list: Seq<(Seq<char>, Seq<char>)>,
    name: Seq<char>,
)
    requires
        !headers::present(entries, name),
        forall|i: int| 0 <= i < list.len() ==> text::lower((#[trigger] list[i]).0) != name,
    ensures
        !headers::present(headers::all_appended(entries, list), name),
    decreases list.len(),
{
    if list.len() > 0 {
        let rest = list.drop_last();
        assert forall|i: int| 0 <= i < rest.len() implies text::lower((#[trigger] rest[i]).0) != name by {
            assert(rest[i] == list[i]);
        }
        lemma_all_appended_names(entries, rest, name);
        let before = headers::all_appended(entries, rest);
        let last = list[list.len() - 1];
        assert(text::lower(last.0) != name);
        if headers::sendable(last) {
            let after = headers::with_appended(before, text::lower(last.0), vstd::utf8::encode_utf8(last.1));
            headers::lemma_position(before, name);
            headers::lemma_position(before, text::lower(last.0));
            headers::lemma_position(after, name);
            if headers::present(after, name) {
                let p = headers::position(after, name);
                assert(after[p].0 == name);
                if headers::present(before, text::lower(last.0)) {
                    assert(before[p].0 == name || p == headers::position(before, text::lower(last.0)));
                    assert(before[p].0 == name);
                } else if p < before.len() {
                    assert(before[p].0 == name);
                }
                assert(false);
            }
        }
    }
}

/// Nothing that is about the client's connection alone reaches the upstream.
pub proof fn law_hop_by_hop_fields_stay(request: RequestView, body_replaced: bool, name: Seq<char>)
    requires
        hop_names().contains(name),
    ensures
        !headers::present(headers::all_appended(Seq::empty(), forwarded_fields(request, body_replaced)), name),
{
    let own = if body_replaced {
        reframed(request.headers, bytes_of(request.body).len())
    } else {
        request.headers
    };
    lemma_without_idempotent(coalesced(own), hop_names());
    let list = forwarded_fields(request, body_replaced);
    assert forall|i: int| 0 <= i < list.len() implies text::lower((#[trigger] list[i]).0) != name by {
        assert(!hop_names().contains(text::lower(list[i].0)));
    }
    lemma_all_appended_names(Seq::empty(), list, name);
}

proof fn lemma_listed_without(list: Seq<(Seq<char>, Seq<char>)>, names: Seq<Seq<char>>, name: Seq<char>)
    requires
        !names.contains(name),
    ensures
        headers::listed_values(without(list, names), name) == headers::listed_values(list, name),
    decreases list.len(),
{
    if list.len() > 0 {
        lemma_listed_without(list.drop_last(), names, name);
        let rest = without(list.drop_last(), names);
        assert(rest.push(list.last()).drop_last() =~= rest);
    }
}

proof fn lemma_listed_concat(a: Seq<(Seq<char>, Seq<char>)>, b: Seq<(Seq<char>, Seq<char>)>, name: Seq<char>)
    ensures
        headers::listed_values(a + b, name) == headers::listed_values(a, name) + headers::listed_values(b, name),
    decreases b.len(),
{
    if b.len() == 0 {
        assert(a + b =~= a);
        assert(headers::listed_values(a, name) + headers::listed_values(b, name) =~= headers::listed_values(a, name));
    } else {
        assert((a + b).drop_last() =~= a + b.drop_last());
        lemma_listed_concat(a, b.drop_last(), name);
        assert(headers::listed_values(a + b, name) =~= headers::listed_values(a, name) + headers::listed_values(
            b,
            name,
        ));
    }
}

proof fn lemma_nothing_listed(list: Seq<(Seq<char>, Seq<char>)>, name: Seq<char>)
    requires
        forall|i: int| 0 <= i < list.len() ==> text::lower((#[trigger] list[i]).0) != name,
    ensures
        headers::listed_values(list, name) == Seq::<Seq<u8>>::empty(),
    decreases list.len(),
{
    if list.len() > 0 {
        let rest = list.drop_last();
        assert forall|i: int| 0 <= i < rest.len() implies text::lower((#[trigger] rest[i]).0) != name by {
            assert(rest[i] == list[i]);
        }
        lemma_nothing_listed(rest, name);
        assert(text::lower(list[list.len() - 1].0) != name);
    }
}

proof fn lemma_cookies_without(list: Seq<(Seq<char>, Seq<char>)>, names: Seq<Seq<char>>)
    requires
        !names.contains("cookie"@),
    ensures
        cookie_values(without(list, names)) == cookie_values(list),
    decreases list.len(),
{
    if list.len() > 0 {
        lemma_cookies_without(list.drop_last(), names);
        let rest = without(list.drop_last(), names);
        assert(rest.push(list.last()).drop_last() =~= rest);
    }
}

/// The cookie fields an upstream gets for a request with such cookie values: one that holds them
/// all, unless there are none or they cannot be sent.
pub open spec fn sent_cookies(values: Seq<Seq<char>>) -> Seq<Seq<u8>> {
    let all = text::joined(values, "; "@);
    if values.len() > 0 && headers::sendable(("Cookie"@, all)) {
        seq![vstd::utf8::encode_utf8(all)]
    } else {
        Seq::empty()
    }
}

/// The upstream sees one `Cookie` field, with every cookie of the request in its order, however
/// many fields they came in.
pub proof fn law_one_cookie_field_is_forwarded(request: RequestView, body_replaced: bool)
    ensures
        headers::values(
            headers::all_appended(Seq::empty(), forwarded_fields(request, body_replaced)),
            "cookie"@,
        ) == sent_cookies(cookie_values(request.headers)),
{
    let name = "cookie"@;
    let own = if body_replaced {
        reframed(request.headers, bytes_of(request.body).len())
    } else {
        request.headers
    };
    lemma_names_are_lower();
    reveal_strlit("cookie");
    reveal_strlit("content-length");
    reveal_strlit("transfer-encoding");
    reveal_strlit("content-encoding");
    reveal_strlit("connection");
    reveal_strlit("keep-alive");
    reveal_strlit("proxy-authenticate");
    reveal_strlit("proxy-authorization");
    reveal_strlit("te");
    reveal_strlit("trailers");
    reveal_strlit("upgrade");
    assert(!framing_names().contains(name)) by {
        let f = framing_names();
        assert(f[0].len() == 14 && f[1].len() == 17 && f[2].len() == 16);
        assert(name.len() == 6);
    }
    assert(!hop_names().contains(name)) by {
        let f = hop_names();
        assert(f[0].len() == 10 && f[1].len() == 10 && f[2].len() == 18 && f[3].len() == 19 && f[4].len() == 2
            && f[5].len() == 8 && f[6].len() == 17 && f[7].len() == 7);
        assert(name.len() == 6);
    }
    assert(cookie_values(own) == cookie_values(request.headers)) by {
        if body_replaced {
            lemma_cookies_without(request.headers, framing_names());
            let kept = without(request.headers, framing_names());
            assert(own.drop_last() =~= kept);
            assert(own.last().0 == "Content-Length"@);
            assert("content-length"@.len() != name.len());
        }
    }
    let list = coalesced(own);
    let names = seq![name];
    assert(names[0] == name);
    lemma_listed_without(list, hop_names(), name);
    lemma_cookie_position(own);
    let at = first_cookie(own);
    if cookie_values(own).len() == 0 {
        lemma_without_idempotent(own, names);
        assert forall|i: int| 0 <= i < list.len() implies text::lower((#[trigger] list[i]).0) != name by {
            assert(!names.contains(text::lower(list[i].0)));
        }
        lemma_nothing_listed(list, name);
    } else {
        let head = own.subrange(0, at);
        let tail = without(own.subrange(at, own.len() as int), names);
        let field = ("Cookie"@, text::joined(cookie_values(own), "; "@));
        lemma_without_idempotent(own.subrange(at, own.len() as int), names);
        assert forall|i: int| 0 <= i < tail.len() implies text::lower((#[trigger] tail[i]).0) != name by {
            assert(!names.contains(text::lower(tail[i].0)));
        }
        assert forall|i: int| 0 <= i < head.len() implies text::lower((#[trigger] head[i]).0) != name by {
            assert(head[i] == own[i]);
        }
        lemma_nothing_listed(tail, name);
        lemma_nothing_listed(head, name);
        lemma_listed_concat(head.push(field), tail, name);
        assert(head.push(field).drop_last() =~= head);
        assert(headers::listed_values(list, name) =~= sent_cookies(cookie_values(own)));
    }
    headers::law_fields_keep_their_values(Seq::empty(), forwarded_fields(request, body_replaced), name);
    headers::lemma_position(Seq::empty(), name);
    assert(headers::values(Seq::empty(), name) =~= Seq::empty());
    assert(Seq::<Seq<u8>>::empty() + headers::listed_values(list, name) =~= headers::listed_values(list, name));
}

proof fn lemma_forwarded_values(request: RequestView, body_replaced: bool, name: Seq<char>)
    requires
        !hop_names().contains(name),
        name != "cookie"@,
    ensures
        headers::values(
            headers::all_appended(Seq::empty(), forwarded_fields(request, body_replaced)),
            name,
        ) == headers::listed_values(
            if body_replaced {
                reframed(request.headers, bytes_of(request.body).len())
            } else {
                request.headers
            },
            name,
        ),
{
    let own = if body_replaced {
        reframed(request.headers, bytes_of(request.body).len())
    } else {
        request.headers
    };
    let cookie = seq!["cookie"@];
    assert(!cookie.contains(name));
    law_coalescing_keeps_other_fields(own);
    lemma_listed_without(coalesced(own), cookie, name);
    lemma_listed_without(own, cookie, name);
    lemma_listed_without(coalesced(own), hop_names(), name);
    headers::law_fields_keep_their_values(Seq::empty(), forwarded_fields(request, body_replaced), name);
    headers::lemma_position(Seq::empty(), name);
    let listed = headers::listed_values(own, name);
    assert(headers::values(Seq::empty(), name) =~= Seq::empty());
    assert(Seq::<Seq<u8>>::empty() + listed =~= listed);
}

/// What the record says of a field reaches the upstream: its values, in their order. The exceptions
/// are cookies, which are put together, what is about the client's connection alone, and, with a
/// replaced body, what described the old one.
pub proof fn law_recorded_fields_reach_the_upstream(request: RequestView, body_replaced: bool, name: Seq<char>)
    requires
        !hop_names().contains(name),
        name != "cookie"@,
        body_replaced ==> !framing_names().contains(name),
    ensures
        headers::values(
            headers::all_appended(Seq::empty(), forwarded_fields(request, body_replaced)),
            name,
        ) == headers::listed_values(request.headers, name),
{
    lemma_forwarded_values(request, body_replaced, name);
    if body_replaced {
        let kept = without(request.headers, framing_names());
        let own = reframed(request.headers, bytes_of(request.body).len());
        lemma_names_are_lower();
        assert(framing_names()[0] == "content-length"@);
        assert(own.drop_last() =~= kept);
        lemma_listed_without(request.headers, framing_names(), name);
    }
}

/// A replaced body is announced to the upstream with its own length, and with no other.
pub proof fn law_replaced_bodies_are_forwarded_with_their_length(request: RequestView)
    ensures
        headers::values(
            headers::all_appended(Seq::empty(), forwarded_fields(request, true)),
            "content-length"@,
        ) == seq![vstd::utf8::encode_utf8(text::decimal(bytes_of(request.body).len()))],
{
    let name = "content-length"@;
    let digits = text::decimal(bytes_of(request.body).len());
    lemma_names_are_lower();
    reveal_strlit("cookie");
    reveal_strlit("content-length");
    reveal_strlit("Content-Length");
    reveal_strlit("connection");
    reveal_strlit("keep-alive");
    reveal_strlit("proxy-authenticate");
    reveal_strlit("proxy-authorization");
    reveal_strlit("te");
    reveal_strlit("trailers");
    reveal_strlit("transfer-encoding");
    reveal_strlit("upgrade");
    assert(!hop_names().contains(name)) by {
        let f = hop_names();
        assert(f[0].len() == 10 && f[1].len() == 10 && f[2].len() == 18 && f[3].len() == 19 && f[4].len() == 2
            && f[5].len() == 8 && f[6].len() == 17 && f[7].len() == 7);
        assert(name.len() == 14);
    }
    assert("cookie"@.len() == 6);
    lemma_forwarded_values(request, true, name);
    let kept = without(request.headers, framing_names());
    let own = reframed(request.headers, bytes_of(request.body).len());
    lemma_without_idempotent(request.headers, framing_names());
    assert(framing_names()[0] == name);
    assert forall|i: int| 0 <= i < kept.len() implies text::lower((#[trigger] kept[i]).0) != name by {
        assert(!framing_names().contains(text::lower(kept[i].0)));
    }
    lemma_nothing_listed(kept, name);
    assert(own.drop_last() =~= kept);
    assert(headers::sendable(("Content-Length"@, digits))) by {
        text::lemma_decimal_spells(bytes_of(request.body).len());
        assert(vstd::utf8::is_ascii_chars(digits)) by {
            assert forall|i: int| 0 <= i < digits.len() implies (#[trigger] digits[i] as u32) < 128 by {
                assert(text::is_digit(digits[i]));
            }
        }
        vstd::utf8::is_ascii_chars_encode_utf8(digits);
        let bytes = vstd::utf8::encode_utf8(digits);
        assert forall|i: int| 0 <= i < bytes.len() implies headers::value_byte(#[trigger] bytes[i]) by {
            assert(text::is_digit(digits[i]));
        }
    }
    assert(headers::listed_values(own, name) =~= seq![vstd::utf8::encode_utf8(digits)]);
}

/// The request of a record.
pub open spec fn request_in(f: FlowView) -> Option<RequestView> {
    match f.layer {
        LayerView::Http { request, .. } => Some(request),
        LayerView::WebSocket { handshake_request, .. } => Some(handshake_request),
        _ => None,
    }
}

/// A new record shows the request as it came: its method, its version, all its fields in their
/// order, its cookies, its query and its body, and where it came from. No answer and no upstream are
/// known yet.
pub proof fn law_new_records_show_the_request(
    method: Seq<char>,
    uri: Seq<char>,
    version: HttpVersion,
    entries: Seq<(Seq<char>, Seq<Seq<u8>>)>,
    body: Option<BodyView>,
    client: SocketAddress,
    is_mitm: bool,
    is_websocket: bool,
    id: u128,
    now: Timestamp,
)
    ensures
        ({
            let meta = meta_of(method, uri, version, entries, is_mitm);
            let f = initial(meta, recorded_url(meta.url_str), body, client, is_mitm, is_websocket, id, now);
            &&& request_in(f) is Some
            &&& f.layer is WebSocket == is_websocket
            &&& request_in(f)->0.method == method
            &&& version_of(request_in(f)->0.version) == version
            &&& request_in(f)->0.headers == headers::listed(entries)
            &&& request_in(f)->0.body == body
            &&& request_in(f)->0.cookies == request_cookies(headers::values(entries, "cookie"@))
            &&& urls::url_of(uri) matches Ok(u) ==> request_in(f)->0.url == u && request_in(f)->0.query
                == urls::query_of(uri)
            &&& f.network.client_ip == addr::ip_text(client.ip)
            &&& f.network.client_port == client.port
            &&& f.network.tls == is_mitm
            &&& f.id == id
            &&& f.start_time == now
            &&& f.end_time is None
            &&& f.network.server_ip == "0.0.0.0"@
            &&& f.network.server_port == 0
            &&& f.tags == (if is_mitm {
                seq![if is_websocket { "websocket"@ } else { "proxy"@ }, "mitm"@]
            } else {
                seq![if is_websocket { "websocket"@ } else { "proxy"@ }]
            })
            &&& !is_websocket ==> f.layer->Http_response is None && f.layer->Http_error is None
            &&& is_websocket ==> ({
                let answer = f.layer->handshake_response;
                answer.status == 0 && answer.status_text.len() == 0 && answer.version.len() == 0 && answer.headers.len()
                    == 0 && answer.body is None && f.layer->messages.len() == 0 && !f.layer->closed
            })
        }),
{
    reveal_strlit("");
    law_versions_survive_the_record(version);
}

/// Each cookie field of a request adds its cookies behind those of the fields before it.
pub proof fn law_cookies_of_every_field_are_read(a: Seq<Seq<u8>>, b: Seq<Seq<u8>>)
    ensures
        request_cookies(a + b) == request_cookies(a) + request_cookies(b),
    decreases b.len(),
{
    if b.len() == 0 {
        assert(a + b =~= a);
        assert(request_cookies(a) + request_cookies(b) =~= request_cookies(a));
    } else {
        assert((a + b).drop_last() =~= a + b.drop_last());
        law_cookies_of_every_field_are_read(a, b.drop_last());
        assert(request_cookies(a + b) =~= request_cookies(a) + request_cookies(b));
    }
}

/// A cookie that can be read is recorded with its name and its value, in its place.
pub proof fn law_readable_cookies_are_recorded(list: Seq<Option<(Seq<char>, Seq<char>)>>, i: int)
    requires
        0 <= i < list.len(),
        forall|j: int| 0 <= j < list.len() ==> (#[trigger] list[j]) is Some,
    ensures
        readable(list).len() == list.len(),
        readable(list)[i].name == (list[i]->0).0,
        readable(list)[i].value == (list[i]->0).1,
    decreases list.len(),
{
    let rest = list.drop_last();
    assert(list[list.len() - 1] is Some);
    assert forall|j: int| 0 <= j < rest.len() implies (#[trigger] rest[j]) is Some by {
        assert(rest[j] == list[j]);
    }
    if rest.len() == 0 {
        assert(readable(rest).len() == 0);
    } else {
        law_readable_cookies_are_recorded(
            rest,
            if i < rest.len() {
                i
            } else {
                0
            },
        );
    }
}

/// A cookie field that is text gives the cookies it spells.
pub proof fn law_cookie_fields_give_their_cookies(value: Seq<u8>)
    requires
        headers::value_text(value) is Some,
    ensures
        request_cookies(seq![value]) == readable(urls::cookies_in(headers::value_text(value)->0)),
{
    let all = seq![value];
    assert(all.drop_last() =~= Seq::empty());
    assert(request_cookies(all.drop_last()) =~= Seq::empty());
    let own = readable(urls::cookies_in(headers::value_text(value)->0));
    assert(Seq::<CookieView>::empty() + own =~= own);
}

/// The request that is forwarded is the recorded one: with its method, its version where that is
/// HTTP/1.x, its URL unless the connection is routed to an address, and under every name the values
/// of the record.
pub proof fn law_the_recorded_request_is_forwarded(
    f: FlowView,
    target: Option<SocketAddress>,
    policy: ProxyPolicy,
    listen: Seq<SocketAddress>,
    known: Seq<addr::IpAddress>,
    body_replaced: bool,
    after: FlowView,
    r: Result<ForwardView, WireView>,
    name: Seq<char>,
)
    requires
        forwarded(f, target, policy, listen, known, body_replaced, after, r),
        r is Ok,
    ensures
        f.layer is Http,
        after.layer == f.layer,
        r->Ok_0.method == f.layer->request.method,
        !policy.transparent_enabled || target is None ==> urls::uri_of(f.layer->request.url.href) == Ok::<
            UriView,
            Seq<char>,
        >(r->Ok_0.uri),
        r->Ok_0.version matches Some(v) ==> v == version_of(f.layer->request.version),
        r->Ok_0.version is None <==> !(version_of(f.layer->request.version) is Http10 || version_of(
            f.layer->request.version,
        ) is Http11),
        name == "connection"@ || name == "keep-alive"@ || name == "proxy-authenticate"@ || name
            == "proxy-authorization"@ || name == "te"@ || name == "trailers"@ || name == "transfer-encoding"@ || name
            == "upgrade"@ ==> headers::values(r->Ok_0.headers, name).len() == 0,
        name != "connection"@ && name != "keep-alive"@ && name != "proxy-authenticate"@ && name
            != "proxy-authorization"@ && name != "te"@ && name != "trailers"@ && name != "transfer-encoding"@ && name
            != "upgrade"@ && name != "cookie"@ && (body_replaced ==> name != "content-length"@ && name
            != "content-encoding"@) ==> headers::values(r->Ok_0.headers, name) == headers::listed_values(
            f.layer->request.headers,
            name,
        ),
        name == "cookie"@ ==> headers::values(r->Ok_0.headers, name) == sent_cookies(
            cookie_values(f.layer->request.headers),
        ),
        body_replaced && name == "content-length"@ ==> headers::values(r->Ok_0.headers, name) == seq![
            vstd::utf8::encode_utf8(text::decimal(bytes_of(f.layer->request.body).len())),
        ],
        body_replaced && name == "content-encoding"@ ==> headers::values(r->Ok_0.headers, name).len() == 0,
{
    let request = f.layer->request;
    reveal_strlit("cookie");
    reveal_strlit("content-length");
    reveal_strlit("content-encoding");
    reveal_strlit("connection");
    reveal_strlit("keep-alive");
    reveal_strlit("proxy-authenticate");
    reveal_strlit("proxy-authorization");
    reveal_strlit("te");
    reveal_strlit("trailers");
    reveal_strlit("transfer-encoding");
    reveal_strlit("upgrade");
    assert("cookie"@.len() == 6 && "content-encoding"@.len() == 16 && "content-length"@.len() == 14 && "connection"@.len()
        == 10 && "keep-alive"@.len() == 10 && "proxy-authenticate"@.len() == 18 && "proxy-authorization"@.len() == 19
        && "te"@.len() == 2 && "trailers"@.len() == 8 && "transfer-encoding"@.len() == 17 && "upgrade"@.len() == 7);
    law_hop_by_hop_fields_are_these(name);
    law_one_cookie_field_is_forwarded(request, body_replaced);
    if hop_names().contains(name) {
        law_hop_by_hop_fields_stay(request, body_replaced, name);
    } else if name == "content-length"@ && body_replaced {
        law_replaced_bodies_are_forwarded_with_their_length(request);
    } else if name == "content-encoding"@ && body_replaced {
        lemma_names_are_lower();
        lemma_forwarded_values(request, true, name);
        let own = reframed(request.headers, bytes_of(request.body).len());
        assert(framing_names()[2] == name);
        assert forall|i: int| 0 <= i < own.len() implies text::lower((#[trigger] own[i]).0) != name by {
            if text::lower(own[i].0) == name {
                law_reframing_describes_the_new_body(request.headers, bytes_of(request.body).len(), i);
                assert(false);
            }
        }
        lemma_nothing_listed(own, name);
    } else if name != "cookie"@ {
        assert(framing_names()[1] == "transfer-encoding"@);
        assert(hop_names()[6] == "transfer-encoding"@);
        law_recorded_fields_reach_the_upstream(request, body_replaced, name);
    }
}

proof fn lemma_without_len(list: Seq<(Seq<char>, Seq<char>)>, names: Seq<Seq<char>>)
    ensures
        without(list, names).len() <= list.len(),
    decreases list.len(),
{
    if list.len() > 0 {
        lemma_without_len(list.drop_last(), names);
    }
}

/// A record with a valid method and a URL that can be a target is forwarded, unless its route leads
/// back to the proxy or its fields are very many.
pub proof fn law_forwardable_records_are_forwarded(
    f: FlowView,
    policy: ProxyPolicy,
    listen: Seq<SocketAddress>,
    known: Seq<addr::IpAddress>,
    body_replaced: bool,
    after: FlowView,
    r: Result<ForwardView, WireView>,
)
    requires
        forwarded(f, None, policy, listen, known, body_replaced, after, r),
        f.layer is Http,
        urls::valid_method(f.layer->request.method),
        urls::uri_of(f.layer->request.url.href) is Ok,
        f.layer->request.headers.len() < headers::FIELD_CAPACITY,
    ensures
        r is Ok,
        after == f,
{
    let request = f.layer->request;
    let own = if body_replaced {
        reframed(request.headers, bytes_of(request.body).len())
    } else {
        request.headers
    };
    lemma_without_len(request.headers, framing_names());
    lemma_cookie_position(own);
    let at = first_cookie(own);
    let cookie = seq!["cookie"@];
    let tail = own.subrange(at, own.len() as int);
    lemma_without_len(own, cookie);
    lemma_without_len(tail, cookie);
    if cookie_values(own).len() > 0 {
        lemma_first_cookie_is_one(own);
        assert(tail[0] == own[at]);
        assert(cookie[0] == "cookie"@);
        lemma_without_first(tail, cookie);
    }
    lemma_without_len(coalesced(own), hop_names());
}

proof fn lemma_first_cookie_is_one(list: Seq<(Seq<char>, Seq<char>)>)
    ensures
        first_cookie(list) < list.len() ==> text::lower(list[first_cookie(list)].0) == "cookie"@,
    decreases list.len(),
{
    lemma_cookie_position(list);
    if list.len() > 0 && text::lower(list[0].0) != "cookie"@ {
        let rest = list.subrange(1, list.len() as int);
        lemma_first_cookie_is_one(rest);
        lemma_cookie_position(rest);
        if first_cookie(list) < list.len() {
            assert(list[first_cookie(list)] == rest[first_cookie(rest)]);
        }
    }
}

/// A recorded response that is sent by the proxy itself, as a mock is, keeps its status, its bytes
/// and under every name its values, but for what describes the transport.
pub proof fn law_recorded_responses_are_sent(response: ResponseView, name: Seq<char>)
    ensures
        ({
            let w = local_response(response);
            &&& 100 <= response.status <= 999 ==> w.head.status == response.status
            &&& !(100 <= response.status <= 999) ==> w.head.status == 200
            &&& w.body == bytes_of(response.body)
            &&& name == "content-length"@ || name == "transfer-encoding"@ || name == "connection"@ ==> headers::values(
                w.head.headers,
                name,
            ).len() == 0
            &&& name != "content-length"@ && name != "transfer-encoding"@ && name != "connection"@ && name
                != "content-encoding"@ ==> headers::values(w.head.headers, name) == headers::listed_values(
                response.headers,
                name,
            )
        }),
{
    let w = local_response(response);
    let kept = without(response.headers, transport_names());
    let list = local_fields(response);
    let encoding = seq!["content-encoding"@];
    let names = transport_names();
    assert(names[0] == "content-length"@ && names[1] == "transfer-encoding"@ && names[2] == "connection"@);
    headers::law_fields_keep_their_values(Seq::empty(), list, name);
    headers::lemma_position(Seq::empty(), name);
    assert(headers::values(Seq::empty(), name) =~= Seq::empty());
    assert(Seq::<Seq<u8>>::empty() + headers::listed_values(list, name) =~= headers::listed_values(list, name));
    if names.contains(name) {
        lemma_without_idempotent(response.headers, names);
        lemma_without_idempotent(kept, encoding);
        assert forall|i: int| 0 <= i < kept.len() implies text::lower((#[trigger] kept[i]).0) != name by {
            assert(!names.contains(text::lower(kept[i].0)));
        }
        lemma_nothing_listed(kept, name);
        if !encoding.contains(name) {
            lemma_listed_without(kept, encoding, name);
        } else {
            assert forall|i: int| 0 <= i < list.len() implies text::lower((#[trigger] list[i]).0) != name by {
                if list == without(kept, encoding) {
                    assert(!encoding.contains(text::lower(list[i].0)));
                }
            }
            lemma_nothing_listed(list, name);
        }
    } else if name != "content-encoding"@ {
        assert(!encoding.contains(name));
        lemma_listed_without(response.headers, names, name);
        lemma_listed_without(kept, encoding, name);
    }
}

/// What is mocked is sent, unless its fields are very many.
pub proof fn law_mocks_are_sent_as_they_are(response: ResponseView, sent: WireView)
    requires
        mocked(response, sent),
        response.headers.len() <= headers::FIELD_CAPACITY,
    ensures
        sent.body == bytes_of(response.body),
        100 <= response.status <= 999 ==> sent.head.status == response.status,
        sent == local_response(response),
{
    law_recorded_responses_are_sent(response, "x"@);
}

/// The response a client gets wholly from the record has the record's status, its bytes and under
/// every name its values, but for what describes the transport.
pub proof fn law_client_responses_are_the_recorded_ones(
    f: FlowView,
    version: HttpVersion,
    strict_mode: bool,
    r: Result<WireView, Seq<char>>,
    name: Seq<char>,
)
    requires
        client_response(f, version, strict_mode, r),
        r is Ok,
    ensures
        response_of(f) is Some,
        r->Ok_0.head.version == version,
        r->Ok_0.body == bytes_of(response_of(f)->0.body),
        100 <= response_of(f)->0.status <= 999 ==> r->Ok_0.head.status == response_of(f)->0.status,
        !(100 <= response_of(f)->0.status <= 999) ==> !strict_mode && r->Ok_0.head.status == 200,
        name == "content-length"@ || name == "transfer-encoding"@ || name == "connection"@ ==> headers::values(
            r->Ok_0.head.headers,
            name,
        ).len() == 0,
        name != "content-length"@ && name != "transfer-encoding"@ && name != "connection"@ ==> headers::values(
            r->Ok_0.head.headers,
            name,
        ) == headers::listed_values(response_of(f)->0.headers, name),
{
    let response = response_of(f)->0;
    let names = transport_names();
    let kept = without(response.headers, names);
    assert(names[0] == "content-length"@ && names[1] == "transfer-encoding"@ && names[2] == "connection"@);
    headers::law_fields_keep_their_values(Seq::empty(), kept, name);
    headers::lemma_position(Seq::empty(), name);
    assert(headers::values(Seq::empty(), name) =~= Seq::empty());
    assert(Seq::<Seq<u8>>::empty() + headers::listed_values(kept, name) =~= headers::listed_values(kept, name));
    if names.contains(name) {
        lemma_without_idempotent(response.headers, names);
        assert forall|i: int| 0 <= i < kept.len() implies text::lower((#[trigger] kept[i]).0) != name by {
            assert(!names.contains(text::lower(kept[i].0)));
        }
        lemma_nothing_listed(kept, name);
    } else {
        lemma_listed_without(response.headers, names, name);
    }
}

/// What is recorded of a response's head are its status, its version and all its fields.
pub proof fn law_recorded_heads_show_the_response(
    layer: LayerView,
    status: u16,
    version: HttpVersion,
    entries: Seq<(Seq<char>, Seq<Seq<u8>>)>,
)
    requires
        layer is Http,
    ensures
        ({
            let after = intercept::with_response(layer, recorded_response(status, version, entries));
            &&& after is Http
            &&& after->request == layer->request
            &&& after->error == layer->error
            &&& after->response matches Some(p) && p.status == status && version_of(p.version) == version && p.headers
                == headers::listed(entries) && p.body is None && p.status_text == urls::status_line(status) && p.cookies
                == set_cookies(headers::flat(entries)) && p.trailers.len() == 0
        }),
{
    law_versions_survive_the_record(version);
}

/// Every `Set-Cookie` field that is text and can be read adds its cookie to the record, and no other
/// field does.
pub proof fn law_set_cookies_are_recorded(fields: Seq<(Seq<char>, Seq<u8>)>, name: Seq<char>, value: Seq<u8>)
    ensures
        set_cookies(fields.push((name, value))) == (if name == "set-cookie"@ && headers::value_text(value) is Some
            && urls::cookie_of(headers::value_text(value)->0) is Some {
            set_cookies(fields).push(urls::cookie_of(headers::value_text(value)->0)->0)
        } else {
            set_cookies(fields)
        }),
{
    assert(fields.push((name, value)).drop_last() =~= fields);
}

/// The cookie fields of two lists one after the other give the values of the one and then those of
/// the other.
pub proof fn law_cookie_values_come_in_order(a: Seq<(Seq<char>, Seq<char>)>, b: Seq<(Seq<char>, Seq<char>)>)
    ensures
        cookie_values(a + b) == cookie_values(a) + cookie_values(b),
    decreases b.len(),
{
    if b.len() == 0 {
        assert(a + b =~= a);
        assert(cookie_values(a) + cookie_values(b) =~= cookie_values(a));
    } else {
        assert((a + b).drop_last() =~= a + b.drop_last());
        law_cookie_values_come_in_order(a, b.drop_last());
        assert(cookie_values(a + b) =~= cookie_values(a) + cookie_values(b));
    }
}

/// A cookie field gives its value unless that is empty; no other field gives one.
pub proof fn law_a_cookie_field_gives_its_value(name: Seq<char>, value: Seq<char>)
    ensures
        text::lower(name) == "cookie"@ && value.len() > 0 ==> cookie_values(seq![(name, value)]) == seq![value],
        text::lower(name) != "cookie"@ || value.len() == 0 ==> cookie_values(seq![(name, value)]).len() == 0,
{
    let one = seq![(name, value)];
    assert(one.drop_last() =~= Seq::empty());
    assert(cookie_values(one.drop_last()) =~= Seq::empty());
    assert(Seq::<Seq<char>>::empty().push(value) =~= seq![value]);
}

/// However many fields the cookies came in, one `Cookie` field holds them all, with `; ` between
/// them.
pub proof fn law_split_cookies_are_put_together(list: Seq<(Seq<char>, Seq<char>)>)
    requires
        cookie_values(list).len() > 0,
    ensures
        coalesced(list).contains(("Cookie"@, text::joined(cookie_values(list), "; "@))),
{
    lemma_cookie_position(list);
    assert(coalesced(list)[first_cookie(list)] == ("Cookie"@, text::joined(cookie_values(list), "; "@)));
}

/// A request whose connection was made to an address is sent to that address and port, and over TLS
/// where the client speaks it.
pub proof fn law_routed_requests_go_to_their_address(
    f: FlowView,
    to: SocketAddress,
    policy: ProxyPolicy,
    listen: Seq<SocketAddress>,
    known: Seq<addr::IpAddress>,
    body_replaced: bool,
    after: FlowView,
    r: Result<ForwardView, WireView>,
)
    requires
        policy.transparent_enabled,
        forwarded(f, Some(to), policy, listen, known, body_replaced, after, r),
        r is Ok,
    ensures
        f.layer is Http,
        !loop_detection::loops(listen, known, to),
        after.network.server_ip == addr::ip_text(to.ip),
        after.network.server_port == to.port,
        after.network.client_ip == f.network.client_ip,
        after.network.client_port == f.network.client_port,
        after.tags == f.tags.push("transparent"@),
        ({
            let url = f.layer->request.url;
            urls::url_with_ip(url.href, to.ip) matches Some(h) ==> (urls::url_with_port(h, to.port) matches Some(p) ==> {
                &&& !f.network.tls || url.scheme != "http"@ ==> urls::uri_of(p) == Ok::<UriView, Seq<char>>(r->Ok_0.uri)
                &&& f.network.tls && url.scheme == "http"@ ==> (urls::url_with_scheme(p, "https"@) matches Some(s)
                    ==> urls::uri_of(s) == Ok::<UriView, Seq<char>>(r->Ok_0.uri))
            })
        }),
{
}

/// The fields of a message whose body was replaced are its own, but for those that described the
/// old body.
pub proof fn law_reframing_keeps_other_fields(list: Seq<(Seq<char>, Seq<char>)>, body_len: nat, name: Seq<char>)
    requires
        name != "content-length"@,
        name != "transfer-encoding"@,
        name != "content-encoding"@,
    ensures
        headers::listed_values(reframed(list, body_len), name) == headers::listed_values(list, name),
{
    let kept = without(list, framing_names());
    lemma_names_are_lower();
    lemma_listed_without(list, framing_names(), name);
    assert(reframed(list, body_len).drop_last() =~= kept);
}

/// A version is told by its text, whatever the case of its letters and the white space around it;
/// what is none of them is taken for HTTP/1.1.
pub proof fn law_versions_are_told_by_their_text(s: Seq<char>)
    ensures
        version_of(s) is Http09 <==> text::upper(text::trimmed(s)) == "HTTP/0.9"@,
        version_of(s) is Http10 <==> text::upper(text::trimmed(s)) == "HTTP/1.0"@,
        version_of(s) is Http2 <==> text::upper(text::trimmed(s)) == "HTTP/2"@ || text::upper(text::trimmed(s))
            == "HTTP/2.0"@,
        version_of(s) is Http3 <==> text::upper(text::trimmed(s)) == "HTTP/3"@ || text::upper(text::trimmed(s))
            == "HTTP/3.0"@,
{
    reveal_strlit("HTTP/0.9");
    reveal_strlit("HTTP/1.0");
    reveal_strlit("HTTP/1.1");
    reveal_strlit("HTTP/2");
    reveal_strlit("HTTP/2.0");
    reveal_strlit("HTTP/3");
    reveal_strlit("HTTP/3.0");
    let s09 = "HTTP/0.9"@;
    let s10 = "HTTP/1.0"@;
    let s11 = "HTTP/1.1"@;
    let s2 = "HTTP/2"@;
    let s20 = "HTTP/2.0"@;
    let s3 = "HTTP/3"@;
    let s30 = "HTTP/3.0"@;
    assert(s09[5] == '0' && s10[5] == '1' && s11[5] == '1' && s10[7] == '0' && s11[7] == '1');
    assert(s2.len() == 6 && s3.len() == 6 && s2[5] == '2' && s3[5] == '3' && s20[5] == '2' && s30[5] == '3');
    assert(s09.len() == 8 && s10.len() == 8 && s11.len() == 8 && s20.len() == 8 && s30.len() == 8);
}

/// A target that is a path alone is recorded as the URL it makes with the `Host` of the request, in
/// the scheme of the connection.
pub proof fn law_paths_are_recorded_under_their_host(
    method: Seq<char>,
    uri: Seq<char>,
    version: HttpVersion,
    entries: Seq<(Seq<char>, Seq<Seq<u8>>)>,
    is_mitm: bool,
    host: Seq<char>,
)
    requires
        urls::url_of(uri) is Err,
        headers::value_text_opt(headers::first_value(entries, "host"@)) == Some(host),
    ensures
        ({
            let whole = (if is_mitm {
                "https"@
            } else {
                "http"@
            }) + "://"@ + host + uri;
            let meta = meta_of(method, uri, version, entries, is_mitm);
            urls::url_of(whole) matches Ok(u) ==> meta.url_str == whole && recorded_url(meta.url_str) == u && meta.query
                == urls::query_of(whole)
        }),
{
}

/// What cannot be answered to a client is told by its reason: a record without a response, one of
/// another kind, and, where the rules are strict, a status or a field that cannot be sent.
pub proof fn law_unanswerable_records_say_why(
    f: FlowView,
    default_version: HttpVersion,
    strict_mode: bool,
    r: Result<WireView, Seq<char>>,
)
    requires
        client_response(f, default_version, strict_mode, r),
    ensures
        f.layer !is Http ==> r == Err::<WireView, Seq<char>>("Not HTTP layer"@),
        f.layer is Http && f.layer->response is None ==> r == Err::<WireView, Seq<char>>("No response in flow"@),
        strict_mode && f.layer is Http && f.layer->response is Some && !(100 <= f.layer->response->0.status <= 999)
            ==> r == Err::<WireView, Seq<char>>(
            "Invalid status code: "@ + text::decimal(f.layer->response->0.status as nat),
        ),
        !strict_mode && f.layer is Http && f.layer->response is Some && f.layer->response->0.headers.len() == 0
            ==> r is Ok,
{
    if f.layer is Http && f.layer->response is Some && f.layer->response->0.headers.len() == 0 {
        assert(without(f.layer->response->0.headers, transport_names()).len() == 0);
    }
}

/// A request that cannot be forwarded is answered 500 with the reason.
pub proof fn law_unforwardable_requests_say_why(
    request: RequestView,
    url: Seq<char>,
    body_replaced: bool,
    r: Result<ForwardView, WireView>,
)
    requires
        forward_outcome(request, url, body_replaced, r),
    ensures
        !urls::valid_method(request.method) ==> r == Err::<ForwardView, WireView>(
            error_view(500, "Failed to build forward request: invalid HTTP method"@),
        ),
        urls::valid_method(request.method) ==> (urls::uri_of(url) matches Err(e) ==> r == Err::<ForwardView, WireView>(
            error_view(500, "Failed to build forward request: "@ + e),
        )),
        r matches Err(answer) ==> answer.head.status == 500,
{
}

/// A request whose URL cannot be read is recorded under a URL that says so.
pub proof fn law_unreadable_urls_are_recorded_as_unknown(s: Seq<char>)
    ensures
        urls::url_of(s) is Err ==> recorded_url(s).href == "http://unknown/"@ && recorded_url(s).host == Some(
            "unknown"@,
        ) && recorded_url(s).scheme == "http"@ && recorded_url(s).port == Some(80u16),
        urls::url_of(s) matches Ok(u) ==> recorded_url(s) == u,
{
}

} // verus!
