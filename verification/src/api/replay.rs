//! Sending a captured request again, through the proxy this process is running.
use vstd::prelude::*;
use vstd::string::*;

use crate::api::{Failure, FailureView};
use crate::flow;
use crate::flow::{BodyData, BodyView, Flow, Layer, LayerView};
use crate::headers;
use crate::proxy::body_codec;
use crate::text;
use crate::urls;

verus! {

/// The answer to one replayed request.
#[derive(Clone, Debug, PartialEq, Eq)]
pub struct ReplayResponse {
    pub status: u16,
    pub url: String,
    pub headers: Vec<(String, String)>,
    pub body: String,
}

/// Where the proxy is in its life.
#[derive(Clone, Copy, Debug, PartialEq, Eq, Structural)]
pub enum RuntimeLifecyclePhase {
    Created,
    Starting,
    Running,
    Stopping,
    Stopped,
    Failed,
}

/// What the proxy is doing.
#[derive(Clone, Debug)]
pub struct CoreStatusSnapshot {
    pub phase: RuntimeLifecyclePhase,
    pub running: bool,
    pub port: Option<u16>,
    pub uptime: Option<u64>,
    pub last_error: Option<String>,
}

/// Why a replay needs a running proxy.
pub open spec fn not_running_text() -> Seq<char> {
    "the proxy is not running, so a replay cannot be captured. Start it and retry."@
}

/// The port a proxy listens on, where it runs.
pub open spec fn listening_port(s: CoreStatusSnapshot) -> Option<u16> {
    if s.phase == RuntimeLifecyclePhase::Running {
        s.port
    } else {
        None
    }
}

/// The port of a proxy that is actually listening. Anything else cannot capture the replay.
pub fn require_running_proxy(snapshot: &CoreStatusSnapshot) -> (r: Result<u16, String>)
    ensures
        match r {
            Ok(port) => listening_port(*snapshot) == Some(port),
            Err(m) => listening_port(*snapshot) is None && m@ == not_running_text(),
        },
        r matches Ok(port) ==> snapshot.phase is Running && snapshot.port == Some(port),
        r is Err ==> snapshot.phase !is Running || snapshot.port is None,
{
    match (snapshot.phase, snapshot.port) {
        (RuntimeLifecyclePhase::Running, Some(port)) => Ok(port),
        _ => Err(text::copy("the proxy is not running, so a replay cannot be captured. Start it and retry.")),
    }
}

/// The proxy a replay goes through.
pub fn replay_proxy_url(port: u16) -> (r: String)
    ensures
        r@ == "http://127.0.0.1:"@ + text::decimal(port as nat),
{
    text::concat2("http://127.0.0.1:", text::decimal_text(port as u64).as_str())
}

/// The fields a replay sets itself: copying them would fight the new body and the proxy hop.
pub open spec fn own_fields() -> Seq<Seq<char>> {
    seq![
        "host"@,
        "connection"@,
        "proxy-connection"@,
        "keep-alive"@,
        "transfer-encoding"@,
        "te"@,
        "trailer"@,
        "upgrade"@,
        "content-length"@,
    ]
}

/// Whether a replay copies a field.
pub fn is_replay_header(name: &str) -> (r: bool)
    ensures
        r == !own_fields().contains(text::lower(name@)),
        r == ({
            let n = text::lower(name@);
            &&& n != "host"@
            &&& n != "connection"@
            &&& n != "proxy-connection"@
            &&& n != "keep-alive"@
            &&& n != "transfer-encoding"@
            &&& n != "te"@
            &&& n != "trailer"@
            &&& n != "upgrade"@
            &&& n != "content-length"@
        }),
{
    let lower = text::to_ascii_lower(name);
    let s = lower.as_str();
    let own = text::same_text(s, "host") || text::same_text(s, "connection") || text::same_text(s, "proxy-connection")
        || text::same_text(s, "keep-alive") || text::same_text(s, "transfer-encoding") || text::same_text(s, "te")
        || text::same_text(s, "trailer") || text::same_text(s, "upgrade") || text::same_text(s, "content-length");
    proof {
        let f = own_fields();
        assert(f[0] == "host"@ && f[1] == "connection"@ && f[2] == "proxy-connection"@ && f[3] == "keep-alive"@ && f[4]
            == "transfer-encoding"@ && f[5] == "te"@ && f[6] == "trailer"@ && f[7] == "upgrade"@ && f[8]
            == "content-length"@);
        if f.contains(s@) {
            let i = choose|i: int| 0 <= i < f.len() && f[i] == s@;
            assert(f[i] == s@);
        }
    }
    !own
}

/// What `base64::engine::general_purpose::STANDARD` decodes a text to, or what is wrong with it.
pub uninterp spec fn base64_decoded(s: Seq<char>) -> Result<Seq<u8>, Seq<char>>;

/// `base64::engine::general_purpose::STANDARD.decode` on the UTF-8 bytes of a text. It reads the
/// same alphabet and padding that `data_encoding::BASE64` writes, so what that encodes is decoded.
#[verifier::external_body]
pub(crate) fn decode_base64(s: &str) -> (r: Result<Vec<u8>, String>)
    ensures
        match r {
            Ok(v) => base64_decoded(s@) == Ok::<Seq<u8>, Seq<char>>(v@),
            Err(e) => base64_decoded(s@) == Err::<Seq<u8>, Seq<char>>(e@),
        },
        forall|bytes: Seq<u8>| s@ == #[trigger] body_codec::base64(bytes) ==> r is Ok && r->Ok_0@ == bytes,
{
    base64::Engine::decode(&base64::engine::general_purpose::STANDARD, s.as_bytes()).map_err(|e| e.to_string())
}

/// The bytes a replay sends for a recorded body, or why it cannot.
pub open spec fn replayed_bytes(encoding: Seq<char>, content: Seq<char>) -> Result<Seq<u8>, Seq<char>> {
    if text::lower(encoding) == "base64"@ {
        match base64_decoded(content) {
            Ok(bytes) => Ok(bytes),
            Err(e) => Err("replay body is not valid base64: "@ + e),
        }
    } else {
        Ok(vstd::utf8::encode_utf8(content))
    }
}

/// The bytes a replay sends for a recorded body. Whatever body was recorded is sent as it was.
pub fn body_bytes(body: &BodyData) -> (r: Result<Vec<u8>, String>)
    ensures
        match r {
            Ok(v) => replayed_bytes(body.encoding@, body.content@) == Ok::<Seq<u8>, Seq<char>>(v@),
            Err(e) => replayed_bytes(body.encoding@, body.content@) == Err::<Seq<u8>, Seq<char>>(e@),
        },
        forall|bytes: Seq<u8>, content_type: Seq<char>|
            (body.encoding@, body.content@) == #[trigger] body_codec::shown_as(bytes, content_type) ==> r is Ok
                && r->Ok_0@ == bytes,
        text::lower(body.encoding@) != "base64"@ ==> r is Ok && r->Ok_0@ == vstd::utf8::encode_utf8(body.content@),
        text::lower(body.encoding@) == "base64"@ ==> (r matches Ok(v) ==> base64_decoded(body.content@) == Ok::<
            Seq<u8>,
            Seq<char>,
        >(v@)),
{
    proof {
        reveal_strlit("base64");
        reveal_strlit("utf-8");
        assert(text::lower("base64"@) =~= "base64"@);
        assert(text::lower("utf-8"@).len() != "base64"@.len());
        assert forall|bytes: Seq<u8>| #[trigger] vstd::utf8::valid_utf8(bytes) implies vstd::utf8::encode_utf8(
            vstd::utf8::decode_utf8(bytes),
        ) == bytes by {
            vstd::utf8::decode_utf8_encode_utf8(bytes);
        }
    }
    if text::same_ignoring_case(body.encoding.as_str(), "base64") {
        match decode_base64(body.content.as_str()) {
            Ok(v) => Ok(v),
            Err(e) => Err(text::concat2("replay body is not valid base64: ", e.as_str())),
        }
    } else {
        Ok(vstd::slice::slice_to_vec(body.content.as_str().as_bytes()))
    }
}

/// A request that is sent again.
#[derive(Clone, Debug)]
pub struct ReplayRequest {
    pub method: String,
    pub url: String,
    pub headers: Vec<(String, String)>,
    pub body: Option<Vec<u8>>,
}

/// What a request that is sent again holds.
#[verifier::ext_equal]
pub struct ReplayView {
    pub method: Seq<char>,
    pub url: Seq<char>,
    pub headers: Seq<(Seq<char>, Seq<char>)>,
    pub body: Option<Seq<u8>>,
}

impl View for ReplayRequest {
    type V = ReplayView;

    open spec fn view(&self) -> ReplayView {
        ReplayView {
            method: self.method@,
            url: self.url@,
            headers: flow::pairs(self.headers@),
            body: match self.body {
                Some(b) => Some(b@),
                None => None,
            },
        }
    }
}

/// The fields of a capture that a replay copies.
pub open spec fn replayed_fields(list: Seq<(Seq<char>, Seq<char>)>) -> Seq<(Seq<char>, Seq<char>)>
    decreases list.len(),
{
    if list.len() == 0 {
        Seq::empty()
    } else {
        let rest = replayed_fields(list.drop_last());
        if own_fields().contains(text::lower(list.last().0)) {
            rest
        } else {
            rest.push(list.last())
        }
    }
}

/// The request that repeats a captured one, or why there is none.
pub open spec fn replay_of(
    method: Seq<char>,
    url: Seq<char>,
    headers: Seq<(Seq<char>, Seq<char>)>,
    body: Option<BodyView>,
) -> Result<ReplayView, Seq<char>> {
    if !urls::valid_method(method) {
        Err("Invalid method: invalid HTTP method"@)
    } else {
        match body {
            None => Ok(ReplayView { method, url, headers: replayed_fields(headers), body: None }),
            Some(b) => match replayed_bytes(b.encoding, b.content) {
                Ok(bytes) => Ok(ReplayView { method, url, headers: replayed_fields(headers), body: Some(bytes) }),
                Err(e) => Err(e),
            },
        }
    }
}

/// What building a replay gave.
pub open spec fn replay_result(r: Result<ReplayRequest, String>) -> Result<ReplayView, Seq<char>> {
    match r {
        Ok(q) => Ok(q@),
        Err(e) => Err(e@),
    }
}

/// The request that repeats a captured one.
pub fn captured_request(method: &str, url: &str, headers: &[(String, String)], body: Option<&BodyData>) -> (r: Result<
    ReplayRequest,
    String,
>)
    ensures
        replay_result(r) == replay_of(
            method@,
            url@,
            flow::pairs(headers@),
            match body {
                Some(b) => Some(b@),
                None => None,
            },
        ),
        !urls::valid_method(method@) ==> r is Err,
        urls::valid_method(method@) && body is None ==> r is Ok,
        r matches Ok(q) ==> q.method@ == method@ && q.url@ == url@ && (q.body is Some <==> body is Some),
        r matches Ok(q) ==> (body matches Some(b) ==> {
            &&& text::lower(b.encoding@) != "base64"@ ==> q.body->0@ == vstd::utf8::encode_utf8(b.content@)
            &&& forall|bytes: Seq<u8>, content_type: Seq<char>|
                (b.encoding@, b.content@) == #[trigger] body_codec::shown_as(bytes, content_type) ==> q.body->0@ == bytes
        }),
{
    if !urls::is_method(method) {
        return Err(text::copy("Invalid method: invalid HTTP method"));
    }
    let mut kept: Vec<(String, String)> = Vec::new();
    let ghost all = flow::pairs(headers@);
    let mut i: usize = 0;
    assert(flow::pairs(kept@) =~= replayed_fields(all.subrange(0, 0)));
    while i < headers.len()
        invariant
            i <= headers@.len(),
            all == flow::pairs(headers@),
            flow::pairs(kept@) == replayed_fields(all.subrange(0, i as int)),
        decreases headers.len() - i,
    {
        let ghost prefix = all.subrange(0, i + 1);
        proof {
            assert(prefix.drop_last() =~= all.subrange(0, i as int));
            assert(prefix.last() == (headers@[i as int].0@, headers@[i as int].1@));
        }
        if is_replay_header(headers[i].0.as_str()) {
            let ghost before = kept@;
            kept.push((text::copy(headers[i].0.as_str()), text::copy(headers[i].1.as_str())));
            assert(flow::pairs(kept@) =~= flow::pairs(before).push(prefix.last()));
        }
        i = i + 1;
    }
    assert(all.subrange(0, i as int) =~= all);
    let bytes = match body {
        None => None,
        Some(b) => match body_bytes(b) {
            Ok(v) => Some(v),
            Err(e) => {
                return Err(e);
            },
        },
    };
    Ok(ReplayRequest { method: text::copy(method), url: text::copy(url), headers: kept, body: bytes })
}

/// No replay carries a field that the replay client sets itself.
pub proof fn law_replays_set_their_own_framing(list: Seq<(Seq<char>, Seq<char>)>, i: int)
    requires
        0 <= i < replayed_fields(list).len(),
    ensures
        !own_fields().contains(text::lower(replayed_fields(list)[i].0)),
    decreases list.len(),
{
    let rest = replayed_fields(list.drop_last());
    if i < rest.len() {
        law_replays_set_their_own_framing(list.drop_last(), i);
    }
}

/// Whether the certificate of the proxy is added to what the replay client trusts.
pub fn trusts_proxy_ca(ca_pem: Option<&str>) -> (r: bool)
    ensures
        r == (ca_pem is Some && ca_pem->0@.len() > 0),
{
    match ca_pem {
        Some(pem) => text::chars_of(pem).len() > 0,
        None => false,
    }
}

/// The fields of an answer to a replay: a value that is no text reads as empty.
pub open spec fn answered_fields(fields: Seq<(Seq<char>, Seq<u8>)>) -> Seq<(Seq<char>, Seq<char>)> {
    fields.map_values(
        |f: (Seq<char>, Seq<u8>)|
            (
                f.0,
                match headers::value_text(f.1) {
                    Some(t) => t,
                    None => Seq::empty(),
                },
            ),
    )
}

/// The fields of an answer to a replay.
pub fn replay_answer_headers(m: &hyper::HeaderMap) -> (r: Vec<(String, String)>)
    ensures
        flow::pairs(r@) == answered_fields(headers::flat(headers::header_entries(*m))),
        r@.len() == headers::flat(headers::header_entries(*m)).len(),
        forall|i: int|
            0 <= i < r@.len() ==> (#[trigger] r@[i]).0@ == headers::flat(headers::header_entries(*m))[i].0 && (
            headers::value_text(headers::flat(headers::header_entries(*m))[i].1) matches Some(t) ==> r@[i].1@ == t),
{
    let all = headers::fields(m);
    let ghost seen = all@.map_values(|f: (String, Vec<u8>)| (f.0@, f.1@));
    let mut out: Vec<(String, String)> = Vec::new();
    let mut i: usize = 0;
    while i < all.len()
        invariant
            i <= all@.len(),
            seen == all@.map_values(|f: (String, Vec<u8>)| (f.0@, f.1@)),
            out@.len() == i,
            forall|j: int| 0 <= j < i ==> flow::pairs(out@)[j] == answered_fields(seen)[j],
        decreases all.len() - i,
    {
        let value = match headers::to_text(all[i].1.as_slice()) {
            Some(t) => t,
            None => String::new(),
        };
        let ghost before = out@;
        out.push((text::copy(all[i].0.as_str()), value));
        proof {
            assert(seen[i as int] == (all@[i as int].0@, all@[i as int].1@));
            assert(flow::pairs(out@)[i as int].1 =~= answered_fields(seen)[i as int].1);
            assert forall|j: int| 0 <= j < i + 1 implies flow::pairs(out@)[j] == answered_fields(seen)[j] by {
                if j < i {
                    assert(flow::pairs(out@)[j] == flow::pairs(before)[j]);
                }
            }
        }
        i = i + 1;
    }
    assert(flow::pairs(out@) =~= answered_fields(seen));
    assert forall|j: int| 0 <= j < out@.len() implies (#[trigger] out@[j]).0@ == seen[j].0 && (headers::value_text(
        seen[j].1,
    ) matches Some(t) ==> out@[j].1@ == t) by {
        assert(flow::pairs(out@)[j] == answered_fields(seen)[j]);
    }
    out
}

/// The status that reports a failed replay: what is wrong with the capture is the caller's, and
/// everything else the upstream's.
pub open spec fn failure_status(error: Seq<char>) -> u16 {
    if text::starts(error, "Invalid method"@) || text::has(error, "not valid base64"@) {
        400
    } else {
        502
    }
}

/// The status that reports a failed replay.
pub fn replay_failure_status(error: &str) -> (r: u16)
    ensures
        r == failure_status(error@),
        r == 400 <==> text::starts(error@, "Invalid method"@) || text::has(error@, "not valid base64"@),
        r == 400 || r == 502,
{
    if text::starts_with(error, "Invalid method") || text::contains(error, "not valid base64") {
        400
    } else {
        502
    }
}

/// A capture that cannot be repeated is reported as the caller's mistake.
pub proof fn law_unrepeatable_captures_are_bad_requests(
    method: Seq<char>,
    url: Seq<char>,
    headers: Seq<(Seq<char>, Seq<char>)>,
    body: Option<BodyView>,
)
    requires
        replay_of(method, url, headers, body) is Err,
    ensures
        failure_status(replay_of(method, url, headers, body)->Err_0) == 400,
{
    let e = replay_of(method, url, headers, body)->Err_0;
    reveal_strlit("Invalid method: invalid HTTP method");
    reveal_strlit("Invalid method");
    reveal_strlit("replay body is not valid base64: ");
    reveal_strlit("not valid base64");
    if !urls::valid_method(method) {
        assert(e.subrange(0, 14) =~= "Invalid method"@);
    } else {
        assert(e.subrange(15, 31) =~= "not valid base64"@);
        assert(text::stands_at(e, "not valid base64"@, 15));
    }
}

/// What a replay of a stored flow takes, or how it fails.
pub open spec fn plan_of(found: Option<flow::FlowView>, id: Seq<char>, snapshot: CoreStatusSnapshot) -> Result<
    (u16, ReplayView),
    FailureView,
> {
    match found {
        None => Err(FailureView { status: 404, message: "Flow "@ + id + " not found"@ }),
        Some(f) => match f.layer {
            LayerView::Http { request, .. } => match listening_port(snapshot) {
                None => Err(FailureView { status: 503, message: not_running_text() }),
                Some(port) => match replay_of(request.method, request.url.href, request.headers, request.body) {
                    Ok(q) => Ok((port, q)),
                    Err(e) => Err(FailureView { status: failure_status(e), message: e }),
                },
            },
            _ => Err(FailureView { status: 400, message: "Replay only supports HTTP flows"@ }),
        },
    }
}

/// What planning a replay gave.
pub open spec fn plan_result(r: Result<(u16, ReplayRequest), Failure>) -> Result<(u16, ReplayView), FailureView> {
    match r {
        Ok(p) => Ok((p.0, p.1@)),
        Err(e) => Err(e@),
    }
}

/// Plan the replay of a stored flow: the port of the proxy it goes through, and the request.
pub fn plan_replay(found: Option<&Flow>, id: &str, snapshot: &CoreStatusSnapshot) -> (r: Result<
    (u16, ReplayRequest),
    Failure,
>)
    ensures
        plan_result(r) == plan_of(
            match found {
                Some(f) => Some(f@),
                None => None,
            },
            id@,
            *snapshot,
        ),
        found is None ==> (r matches Err(e) && e.status == 404),
        found matches Some(f) ==> (f@.layer !is Http ==> (r matches Err(e) && e.status == 400)),
        r matches Ok(p) ==> found is Some && found->0@.layer is Http && snapshot.phase is Running && snapshot.port
            == Some(p.0),
        r matches Ok(p) ==> p.1.method@ == found->0@.layer->request.method && p.1.url@
            == found->0@.layer->request.url.href,
        r matches Ok(p) ==> (p.1.body is Some <==> found->0@.layer->request.body is Some),
        r matches Ok(p) ==> (found->0@.layer->request.body matches Some(b) ==> {
            &&& text::lower(b.encoding) != "base64"@ ==> p.1.body->0@ == vstd::utf8::encode_utf8(b.content)
            &&& forall|bytes: Seq<u8>, content_type: Seq<char>|
                (b.encoding, b.content) == #[trigger] body_codec::shown_as(bytes, content_type) ==> p.1.body->0@ == bytes
        }),
        found matches Some(f) ==> (f@.layer is Http && snapshot.phase is Running && snapshot.port is Some
            && urls::valid_method(f@.layer->request.method) && f@.layer->request.body is None ==> r is Ok),
        found matches Some(f) ==> (f@.layer is Http && !(snapshot.phase is Running && snapshot.port is Some) ==> (
        r matches Err(e) && e.status == 503)),
{
    let f = match found {
        Some(f) => f,
        None => {
            return Err(Failure { status: 404, message: text::concat3("Flow ", id, " not found") });
        },
    };
    match &f.layer {
        Layer::Http(http) => {
            let port = match require_running_proxy(snapshot) {
                Ok(p) => p,
                Err(message) => {
                    return Err(Failure { status: 503, message });
                },
            };
            let body = match &http.request.body {
                Some(b) => Some(b),
                None => None,
            };
            match captured_request(
                http.request.method.as_str(),
                http.request.url.href.as_str(),
                http.request.headers.as_slice(),
                body,
            ) {
                Ok(q) => Ok((port, q)),
                Err(message) => {
                    let status: u16 = replay_failure_status(message.as_str());
                    Err(Failure { status, message })
                },
            }
        },
        _ => Err(Failure { status: 400, message: text::copy("Replay only supports HTTP flows") }),
    }
}

/// The fields of two lists one after the other are repeated in that order.
pub proof fn law_repeated_fields_keep_their_order(a: Seq<(Seq<char>, Seq<char>)>, b: Seq<(Seq<char>, Seq<char>)>)
    ensures
        replayed_fields(a + b) == replayed_fields(a) + replayed_fields(b),
    decreases b.len(),
{
    if b.len() == 0 {
        assert(a + b =~= a);
        assert(replayed_fields(a) + replayed_fields(b) =~= replayed_fields(a));
    } else {
        assert((a + b).drop_last() =~= a + b.drop_last());
        law_repeated_fields_keep_their_order(a, b.drop_last());
        assert(replayed_fields(a + b) =~= replayed_fields(a) + replayed_fields(b));
    }
}

/// A replay copies every field but those about the connection and the length, which its client sets.
pub proof fn law_replays_copy_every_other_field(list: Seq<(Seq<char>, Seq<char>)>, i: int)
    requires
        0 <= i < list.len(),
        ({
            let n = text::lower(list[i].0);
            &&& n != "host"@
            &&& n != "connection"@
            &&& n != "proxy-connection"@
            &&& n != "keep-alive"@
            &&& n != "transfer-encoding"@
            &&& n != "te"@
            &&& n != "trailer"@
            &&& n != "upgrade"@
            &&& n != "content-length"@
        }),
    ensures
        replayed_fields(list).contains(list[i]),
    decreases list.len(),
{
    let rest = list.drop_last();
    if i < rest.len() {
        law_replays_copy_every_other_field(rest, i);
        let at = choose|k: int| 0 <= k < replayed_fields(rest).len() && replayed_fields(rest)[k] == list[i];
        assert(replayed_fields(list)[at] == list[i]);
    } else {
        let own = own_fields();
        assert(own[0] == "host"@ && own[1] == "connection"@ && own[2] == "proxy-connection"@ && own[3] == "keep-alive"@
            && own[4] == "transfer-encoding"@ && own[5] == "te"@ && own[6] == "trailer"@ && own[7] == "upgrade"@ && own[8]
            == "content-length"@);
        assert(replayed_fields(list)[replayed_fields(list).len() - 1] == list[i]);
    }
}

/// A replay repeats the captured request: its method, its URL, its fields but for those that its
/// client sets, and its body, which is there exactly where the capture has one. It goes through the
/// running proxy.
pub proof fn law_replays_repeat_the_capture(f: flow::FlowView, id: Seq<char>, snapshot: CoreStatusSnapshot)
    requires
        plan_of(Some(f), id, snapshot) is Ok,
    ensures
        ({
            let plan = plan_of(Some(f), id, snapshot)->Ok_0;
            let request = f.layer->request;
            &&& f.layer is Http
            &&& snapshot.phase is Running
            &&& snapshot.port == Some(plan.0)
            &&& plan.1.method == request.method
            &&& plan.1.url == request.url.href
            &&& plan.1.headers == replayed_fields(request.headers)
            &&& plan.1.body is Some <==> request.body is Some
            &&& request.body matches Some(b) ==> {
                &&& text::lower(b.encoding) != "base64"@ ==> plan.1.body == Some(vstd::utf8::encode_utf8(b.content))
                &&& text::lower(b.encoding) == "base64"@ ==> base64_decoded(b.content) == Ok::<Seq<u8>, Seq<char>>(
                    plan.1.body->0,
                )
            }
        }),
{
}

/// A stored HTTP flow with a valid method is replayed wherever the proxy runs, unless its body is
/// marked base64 and is not; what cannot be replayed is answered by kind.
pub proof fn law_captures_are_replayable(found: Option<flow::FlowView>, id: Seq<char>, snapshot: CoreStatusSnapshot)
    ensures
        found is None ==> plan_of(found, id, snapshot) is Err && plan_of(found, id, snapshot)->Err_0.status == 404,
        found matches Some(f) ==> {
            &&& f.layer !is Http ==> plan_of(found, id, snapshot) is Err && plan_of(found, id, snapshot)->Err_0.status == 400
            &&& f.layer is Http && !(snapshot.phase is Running && snapshot.port is Some) ==> plan_of(
                found,
                id,
                snapshot,
            ) is Err && plan_of(found, id, snapshot)->Err_0.status == 503
            &&& f.layer is Http && snapshot.phase is Running && snapshot.port is Some && urls::valid_method(
                f.layer->request.method,
            ) && (f.layer->request.body matches Some(b) ==> text::lower(b.encoding) != "base64"@ || base64_decoded(
                b.content,
            ) is Ok) ==> plan_of(found, id, snapshot) is Ok
        },
{
}

/// A replay that cannot be made says why: no such flow, a flow that is no HTTP exchange, or no proxy
/// to go through.
pub proof fn law_impossible_replays_say_why(found: Option<flow::FlowView>, id: Seq<char>, snapshot: CoreStatusSnapshot)
    ensures
        found is None ==> (plan_of(found, id, snapshot) matches Err(e) && e.status == 404 && e.message == "Flow "@ + id
            + " not found"@),
        found matches Some(f) ==> (f.layer !is Http ==> (plan_of(found, id, snapshot) matches Err(e) && e.status == 400
            && e.message == "Replay only supports HTTP flows"@)),
        found matches Some(f) ==> (f.layer is Http && listening_port(snapshot) is None ==> (plan_of(
            found,
            id,
            snapshot,
        ) matches Err(e) && e.status == 503)),
{
}

} // verus!
