//! Retaining a bounded part of a body while all of it passes, and recording it.
use vstd::prelude::*;

use crate::flow;
use crate::flow::{BodyData, BodyView, Direction, Flow, FlowView, Layer, LayerView, RequestView, ResponseView};
use crate::proxy::body_codec;
use crate::proxy::content_encoding;
use crate::proxy::content_encoding::DecodedBody;
use crate::text;

verus! {

/// What a budget let through of a body.
#[derive(Clone, Debug)]
pub struct BufferedBody {
    /// The bytes retained, no more than the budget.
    pub bytes: Vec<u8>,
    /// How many bytes there were.
    pub total_bytes: u64,
    /// Whether the budget was hit, so that `bytes` may be only the start of the body.
    pub truncated: bool,
}

/// What a buffered body holds.
#[verifier::ext_equal]
pub struct BufferedView {
    pub bytes: Seq<u8>,
    pub total_bytes: nat,
    pub truncated: bool,
}

impl View for BufferedBody {
    type V = BufferedView;

    open spec fn view(&self) -> BufferedView {
        BufferedView { bytes: self.bytes@, total_bytes: self.total_bytes as nat, truncated: self.truncated }
    }
}

impl BufferedBody {
    /// A body that fits.
    pub fn from_complete(bytes: Vec<u8>) -> (r: Self)
        ensures
            r@ == (BufferedView { bytes: bytes@, total_bytes: bytes@.len(), truncated: false }),
    {
        let total_bytes: u64 = bytes.len() as u64;
        BufferedBody { bytes, total_bytes, truncated: false }
    }
}

/// The first bytes of a body, no more than `limit`.
pub open spec fn prefix(seen: Seq<u8>, limit: nat) -> Seq<u8> {
    if seen.len() <= limit {
        seen
    } else {
        seen.subrange(0, limit as int)
    }
}

/// What a budget lets through of a body. Reaching the budget counts as hitting it.
pub open spec fn within(seen: Seq<u8>, limit: nat) -> BufferedView {
    BufferedView {
        bytes: prefix(seen, limit),
        total_bytes: seen.len(),
        truncated: seen.len() > 0 && seen.len() >= limit,
    }
}

/// Retains the first bytes of a body that streams past.
///
/// At most `limit` bytes are copied whatever the size of the body, nothing on the wire changes, and
/// hitting the limit is reported, so that a rule can refuse to judge a body by its start.
pub struct PrefixBuffer {
    retained: Vec<u8>,
    limit: usize,
    total_bytes: u64,
    truncated: bool,
    seen: Ghost<Seq<u8>>,
}

/// A buffer that retains at most `limit` bytes.
pub fn buffer_prefix(limit: usize) -> (r: PrefixBuffer)
    ensures
        r.wf(),
        r.seen() == Seq::<u8>::empty(),
        r.limit() == limit,
{
    let r = PrefixBuffer { retained: Vec::new(), limit, total_bytes: 0, truncated: false, seen: Ghost(Seq::empty()) };
    assert(prefix(Seq::<u8>::empty(), limit as nat) =~= r.retained@);
    r
}

impl PrefixBuffer {
    /// Every byte that has passed.
    pub closed spec fn seen(&self) -> Seq<u8> {
        self.seen@
    }

    /// How many bytes are retained at most.
    pub closed spec fn limit(&self) -> nat {
        self.limit as nat
    }

    /// What is retained is the start of what has passed.
    pub closed spec fn wf(&self) -> bool {
        within(self.seen@, self.limit as nat) == (BufferedView {
            bytes: self.retained@,
            total_bytes: self.total_bytes as nat,
            truncated: self.truncated,
        })
    }

    /// Let some bytes pass.
    pub fn observe(&mut self, data: &[u8])
        requires
            old(self).wf(),
            old(self).seen().len() + data@.len() <= u64::MAX,
        ensures
            final(self).wf(),
            final(self).seen() == old(self).seen() + data@,
            final(self).limit() == old(self).limit(),
    {
        let ghost before = self.seen@;
        let ghost all = before + data@;
        self.total_bytes = self.total_bytes + data.len() as u64;
        if self.retained.len() < self.limit {
            let room: usize = self.limit - self.retained.len();
            let take: usize = if room < data.len() {
                room
            } else {
                data.len()
            };
            let ghost kept = self.retained@;
            let part = vstd::slice::slice_subrange(data, 0, take);
            self.retained.extend_from_slice(part);
            assert(self.retained@ =~= kept + data@.subrange(0, take as int));
        }
        if data.len() > 0 && self.retained.len() >= self.limit {
            self.truncated = true;
        }
        self.seen = Ghost(all);
        proof {
            assert(self.retained@ =~= prefix(all, self.limit as nat));
        }
    }

    /// The bytes retained so far.
    pub fn retained(&self) -> (r: &Vec<u8>)
        requires
            self.wf(),
        ensures
            r@ == prefix(self.seen(), self.limit()),
    {
        &self.retained
    }

    /// Whether the limit was hit.
    pub fn truncated(&self) -> (r: bool)
        requires
            self.wf(),
        ensures
            r == within(self.seen(), self.limit()).truncated,
    {
        self.truncated
    }

    /// How many bytes have passed.
    pub fn observed_bytes(&self) -> (r: u64)
        requires
            self.wf(),
        ensures
            r == self.seen().len(),
    {
        self.total_bytes
    }

    /// What has been retained, to be recorded.
    pub fn snapshot(&self) -> (r: BufferedBody)
        requires
            self.wf(),
        ensures
            r@ == within(self.seen(), self.limit()),
    {
        BufferedBody {
            bytes: vstd::slice::slice_to_vec(self.retained.as_slice()),
            total_bytes: self.total_bytes,
            truncated: self.truncated,
        }
    }

    /// Take what has been retained.
    pub fn into_parts(self) -> (r: BufferedBody)
        requires
            self.wf(),
        ensures
            r@ == within(self.seen(), self.limit()),
    {
        BufferedBody { bytes: self.retained, total_bytes: self.total_bytes, truncated: self.truncated }
    }
}

/// A body that is reported as not truncated is retained whole.
pub proof fn law_untruncated_bodies_are_whole(seen: Seq<u8>, limit: nat)
    ensures
        !within(seen, limit).truncated ==> within(seen, limit).bytes == seen,
        within(seen, limit).bytes.len() <= limit,
        within(seen, limit).total_bytes == seen.len(),
{
}

/// The frames of a body one after the other.
pub open spec fn concat(frames: Seq<Seq<u8>>) -> Seq<u8>
    decreases frames.len(),
{
    if frames.len() == 0 {
        Seq::empty()
    } else {
        concat(frames.drop_last()) + frames.last()
    }
}

/// The contents of a list of frames.
pub open spec fn frames_of(frames: Seq<Vec<u8>>) -> Seq<Seq<u8>> {
    frames.map_values(|f: Vec<u8>| f@)
}

proof fn lemma_concat_grows(frames: Seq<Seq<u8>>, i: int)
    requires
        0 <= i <= frames.len(),
    ensures
        concat(frames.subrange(0, i)).len() <= concat(frames).len(),
    decreases frames.len() - i,
{
    if i < frames.len() {
        lemma_concat_grows(frames, i + 1);
        assert(frames.subrange(0, i + 1).drop_last() =~= frames.subrange(0, i));
    } else {
        assert(frames.subrange(0, i) =~= frames);
    }
}

/// Retain a body within a budget before it is forwarded: what was retained, and the body to
/// forward, which carries every byte.
pub fn buffer_body_within_budget(frames: &Vec<Vec<u8>>, budget: usize) -> (r: (BufferedBody, Vec<u8>))
    requires
        concat(frames_of(frames@)).len() <= u64::MAX,
    ensures
        r.0@ == within(concat(frames_of(frames@)), budget as nat),
        !r.0.truncated ==> r.0.bytes@ == r.1@,
        r.0.bytes@.len() <= budget,
        r.0.bytes@ == r.1@.subrange(0, r.0.bytes@.len() as int),
        r.0.total_bytes == r.1@.len(),
        r.1@ == concat(frames_of(frames@)),
{
    let ghost all = frames_of(frames@);
    let mut buffer = buffer_prefix(budget);
    let mut whole: Vec<u8> = Vec::new();
    let mut i: usize = 0;
    while i < frames.len()
        invariant
            i <= frames@.len(),
            all == frames_of(frames@),
            concat(all).len() <= u64::MAX,
            buffer.wf(),
            buffer.limit() == budget,
            buffer.seen() == concat(all.subrange(0, i as int)),
            whole@ == concat(all.subrange(0, i as int)),
        decreases frames.len() - i,
    {
        let ghost so_far = whole@;
        proof {
            lemma_concat_grows(all, i + 1);
            assert(all.subrange(0, i + 1).drop_last() =~= all.subrange(0, i as int));
            assert(all.subrange(0, i + 1).last() == frames@[i as int]@);
        }
        buffer.observe(frames[i].as_slice());
        whole.extend_from_slice(frames[i].as_slice());
        assert(whole@ =~= so_far + frames@[i as int]@);
        i = i + 1;
    }
    assert(all.subrange(0, i as int) =~= all);
    let kept = buffer.into_parts();
    assert(kept.bytes@ =~= whole@.subrange(0, kept.bytes@.len() as int));
    (kept, whole)
}

/// The key under which a record says that its body was decoded.
pub const DECODED_FOR_MATCHING_KEY: &'static str = "body_decoded_for_matching";

/// What is recorded of some bytes under the headers they came with.
pub open spec fn body_record(bytes: Seq<u8>, total: u64, headers: Seq<(Seq<char>, Seq<char>)>) -> BodyView {
    BodyView {
        encoding: body_codec::shown(bytes, headers).0,
        content: body_codec::shown(bytes, headers).1,
        size: total,
        grpc: None,
    }
}

/// A layer with a body recorded for one direction; only an HTTP exchange has a place for it, and a
/// response's only once there is a response.
pub open spec fn with_body(layer: LayerView, direction: Direction, body: BodyView) -> LayerView {
    match (layer, direction) {
        (LayerView::Http { request, response, error }, Direction::ClientToServer) => LayerView::Http {
            request: RequestView { body: Some(body), ..request },
            response,
            error,
        },
        (LayerView::Http { request, response: Some(r), error }, Direction::ServerToClient) => LayerView::Http {
            request,
            response: Some(ResponseView { body: Some(body), ..r }),
            error,
        },
        _ => layer,
    }
}

/// Record a body, with the size of the whole transfer even where only its start was retained.
pub fn record_body_on_flow(
    f: &mut Flow,
    direction: Direction,
    bytes: &[u8],
    total_bytes: u64,
    header_source: &[(String, String)],
)
    ensures
        final(f)@ == (FlowView {
            layer: with_body(
                old(f)@.layer,
                direction,
                body_record(bytes@, total_bytes, flow::pairs(header_source@)),
            ),
            ..old(f)@
        }),
        direction is ClientToServer && old(f)@.layer is Http ==> (final(f)@.layer matches LayerView::Http {
            request,
            response,
            error,
        } && response == old(f)@.layer->response && error == old(f)@.layer->error && request.method
            == old(f)@.layer->request.method && request.headers == old(f)@.layer->request.headers && (
        request.body matches Some(b) && b.size == total_bytes && body_codec::recorded_bytes(b.encoding, b.content)
            == bytes@)),
        direction is ServerToClient && old(f)@.layer is Http && old(f)@.layer->response is Some ==> (
        final(f)@.layer matches LayerView::Http { request, response: Some(p), error } && request
            == old(f)@.layer->request && error == old(f)@.layer->error && p.status == old(f)@.layer->response->0.status
            && p.headers == old(f)@.layer->response->0.headers && (p.body matches Some(b) && b.size == total_bytes
            && body_codec::recorded_bytes(b.encoding, b.content) == bytes@)),
{
    let (encoding, content) = body_codec::process_body(bytes, header_source);
    let body = BodyData { encoding, content, size: total_bytes, grpc: None };
    match &mut f.layer {
        Layer::Http(http) => {
            match direction {
                Direction::ClientToServer => {
                    http.request.body = Some(body);
                },
                Direction::ServerToClient => {
                    match &mut http.response {
                        Some(response) => {
                            response.body = Some(body);
                        },
                        None => {},
                    }
                },
            }
        },
        _ => {},
    }
}

/// The fields of a list but for those of one name.
pub open spec fn without_name(list: Seq<(Seq<char>, Seq<char>)>, name: Seq<char>) -> Seq<(Seq<char>, Seq<char>)>
    decreases list.len(),
{
    if list.len() == 0 {
        Seq::empty()
    } else {
        let rest = without_name(list.drop_last(), name);
        if text::lower(list.last().0) == text::lower(name) {
            rest
        } else {
            rest.push(list.last())
        }
    }
}

fn drop_name(list: &[(String, String)], name: &str) -> (r: Vec<(String, String)>)
    ensures
        flow::pairs(r@) == without_name(flow::pairs(list@), name@),
{
    let ghost all = flow::pairs(list@);
    let mut out: Vec<(String, String)> = Vec::new();
    let mut i: usize = 0;
    assert(flow::pairs(out@) =~= without_name(all.subrange(0, 0), name@));
    while i < list.len()
        invariant
            i <= list@.len(),
            all == flow::pairs(list@),
            flow::pairs(out@) == without_name(all.subrange(0, i as int), name@),
        decreases list.len() - i,
    {
        let ghost so_far = all.subrange(0, i + 1);
        let ghost before = out@;
        proof {
            assert(so_far.drop_last() =~= all.subrange(0, i as int));
            assert(so_far.last() == (list@[i as int].0@, list@[i as int].1@));
        }
        if !text::same_ignoring_case(list[i].0.as_str(), name) {
            out.push((text::copy(list[i].0.as_str()), text::copy(list[i].1.as_str())));
            assert(flow::pairs(out@) =~= flow::pairs(before).push(so_far.last()));
        }
        i = i + 1;
    }
    assert(all.subrange(0, i as int) =~= all);
    out
}

/// A record with the decoded form of a body in it.
pub open spec fn with_decoded_body(
    f: FlowView,
    direction: Direction,
    bytes: Seq<u8>,
    total: u64,
    headers: Seq<(Seq<char>, Seq<char>)>,
) -> FlowView {
    let (plain, state) = content_encoding::inspected(
        bytes,
        content_encoding::first_field(headers, "content-encoding"@),
    );
    if state is Decoded {
        FlowView {
            meta: f.meta.insert(DECODED_FOR_MATCHING_KEY@, "1"@),
            layer: with_body(f.layer, direction, body_record(plain, total, without_name(headers, "content-encoding"@))),
            ..f
        }
    } else {
        FlowView { layer: with_body(f.layer, direction, body_record(plain, total, headers)), ..f }
    }
}

/// Record a body decoded, so that filters match plaintext, and note in the record that it was;
/// tell whether it was.
pub fn record_decoded_body_on_flow(
    f: &mut Flow,
    direction: Direction,
    bytes: &[u8],
    total_bytes: u64,
    header_source: &[(String, String)],
) -> (r: bool)
    ensures
        final(f)@ == with_decoded_body(old(f)@, direction, bytes@, total_bytes, flow::pairs(header_source@)),
        r == (content_encoding::inspected(
            bytes@,
            content_encoding::first_field(flow::pairs(header_source@), "content-encoding"@),
        ).1 is Decoded),
        r ==> final(f)@.meta.dom().contains("body_decoded_for_matching"@),
        !r ==> final(f)@.meta == old(f)@.meta,
        ({
            let plain = content_encoding::inspected(
                bytes@,
                content_encoding::first_field(flow::pairs(header_source@), "content-encoding"@),
            ).0;
            &&& direction is ClientToServer && old(f)@.layer is Http ==> (final(f)@.layer matches LayerView::Http {
                request,
                response,
                error,
            } && response == old(f)@.layer->response && (request.body matches Some(b) && b.size == total_bytes
                && body_codec::recorded_bytes(b.encoding, b.content) == plain))
            &&& direction is ServerToClient && old(f)@.layer is Http && old(f)@.layer->response is Some ==> (
            final(f)@.layer matches LayerView::Http { request, response: Some(p), error } && request
                == old(f)@.layer->request && (p.body matches Some(b) && b.size == total_bytes
                && body_codec::recorded_bytes(b.encoding, b.content) == plain))
        }),
{
    let encoding = content_encoding::content_encoding_of(header_source);
    let (plain, state) = match &encoding {
        Some(e) => content_encoding::decode_for_inspection(bytes, Some(e.as_str())),
        None => content_encoding::decode_for_inspection(bytes, None),
    };
    match state {
        DecodedBody::Decoded => {
            f.meta.insert(text::copy(DECODED_FOR_MATCHING_KEY), text::copy("1"));
            let kept = drop_name(header_source, "content-encoding");
            record_body_on_flow(f, direction, plain.as_slice(), total_bytes, kept.as_slice());
            true
        },
        DecodedBody::AsReceived => {
            record_body_on_flow(f, direction, plain.as_slice(), total_bytes, header_source);
            false
        },
    }
}

/// Whether the body in a record was decoded.
pub fn body_recorded_decoded(f: &Flow) -> (r: bool)
    ensures
        r == f@.meta.dom().contains(DECODED_FOR_MATCHING_KEY@),
        r == f@.meta.dom().contains("body_decoded_for_matching"@),
{
    f.meta.contains_key(DECODED_FOR_MATCHING_KEY)
}

/// The headers that describe the body of one direction.
pub open spec fn direction_headers(layer: LayerView, direction: Direction) -> Seq<(Seq<char>, Seq<char>)> {
    match (layer, direction) {
        (LayerView::Http { request, .. }, Direction::ClientToServer) => request.headers,
        (LayerView::Http { response: Some(r), .. }, Direction::ServerToClient) => r.headers,
        _ => Seq::empty(),
    }
}

/// The headers that describe the body of one direction.
pub fn headers_for_direction(f: &Flow, direction: Direction) -> (r: Vec<(String, String)>)
    ensures
        flow::pairs(r@) == direction_headers(f@.layer, direction),
        f@.layer is Http && direction is ClientToServer ==> flow::pairs(r@) == f@.layer->request.headers,
        f@.layer is Http && direction is ServerToClient ==> (f@.layer->response matches Some(p) ==> flow::pairs(r@)
            == p.headers),
{
    let none: Vec<(String, String)> = Vec::new();
    assert(flow::pairs(none@) =~= Seq::empty());
    match &f.layer {
        Layer::Http(http) => match direction {
            Direction::ClientToServer => flow::copy_pairs(http.request.headers.as_slice()),
            Direction::ServerToClient => match &http.response {
                Some(response) => flow::copy_pairs(response.headers.as_slice()),
                None => none,
            },
        },
        _ => none,
    }
}

/// What is retained of a body is its start, as much of it as the limit lets be retained; the limit
/// counts as hit once it is reached.
pub proof fn law_what_is_retained_is_the_start(seen: Seq<u8>, limit: nat)
    ensures
        within(seen, limit).bytes == seen.subrange(0, within(seen, limit).bytes.len() as int),
        within(seen, limit).bytes.len() == (if seen.len() < limit {
            seen.len()
        } else {
            limit
        }),
        seen.len() > limit ==> within(seen, limit).truncated,
        seen.len() < limit ==> !within(seen, limit).truncated,
{
    assert(seen.subrange(0, seen.len() as int) =~= seen);
    if seen.len() <= limit {
        assert(prefix(seen, limit) =~= seen);
    }
}

/// The bytes of two lists of frames are those of the one and then those of the other.
pub proof fn law_frames_are_put_together_in_order(a: Seq<Seq<u8>>, b: Seq<Seq<u8>>)
    ensures
        concat(a + b) == concat(a) + concat(b),
    decreases b.len(),
{
    if b.len() == 0 {
        assert(a + b =~= a);
        assert(concat(a) + concat(b) =~= concat(a));
    } else {
        assert((a + b).drop_last() =~= a + b.drop_last());
        law_frames_are_put_together_in_order(a, b.drop_last());
        assert(concat(a + b) =~= concat(a) + concat(b));
    }
}

/// Recording a body for one direction puts it there, and leaves the other direction and the rest of
/// the exchange alone.
pub proof fn law_bodies_are_recorded_for_their_direction(layer: LayerView, body: BodyView)
    requires
        layer is Http,
    ensures
        ({
            let up = with_body(layer, Direction::ClientToServer, body);
            let down = with_body(layer, Direction::ServerToClient, body);
            &&& up is Http
            &&& up->request.body == Some(body)
            &&& up->request.method == layer->request.method
            &&& up->request.url == layer->request.url
            &&& up->request.headers == layer->request.headers
            &&& up->response == layer->response
            &&& down is Http
            &&& down->request == layer->request
            &&& layer->response matches Some(r) ==> (down->response matches Some(after) && after.body == Some(body)
                && after.status == r.status && after.headers == r.headers)
            &&& layer->response is None ==> down == layer
        }),
{
}

} // verus!
