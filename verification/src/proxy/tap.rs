//! Recording a body while it streams to its receiver.
use vstd::prelude::*;

use crate::flow;
use crate::flow::{BodyData, BodyView, Direction, FlowUpdate, UpdateView};
use crate::headers;
use crate::metrics;
use crate::metrics::Metrics;
use crate::proxy::body_codec;
use crate::proxy::body_plan;
use crate::proxy::body_plan::PrefixBuffer;
use crate::proxy::frame;
use crate::proxy::frame::{BodyFrame, FrameView};
use crate::text;

verus! {

/// Bytes that were observed on a body, to be recorded elsewhere.
#[derive(Clone, Debug)]
pub struct ObservedBody {
    pub flow_id: String,
    pub direction: Direction,
    pub bytes: Vec<u8>,
    pub total_bytes: u64,
    pub truncated: bool,
    pub headers: Vec<(String, String)>,
}

/// Retains the start of a body that streams past and reports it once.
///
/// The end of a body can show in more than one way: the stream ends, nothing is left to come
/// according to its length, or it is dropped. Whichever comes first makes the report.
pub struct TapBody {
    inner: PrefixBuffer,
    flow_id: String,
    direction: Direction,
    headers: Vec<(String, String)>,
    reported: bool,
}

/// The updates of a list.
pub open spec fn updates(list: Seq<FlowUpdate>) -> Seq<UpdateView> {
    list.map_values(|u: FlowUpdate| u@)
}

/// What is reported of a body of which the given bytes have passed.
pub open spec fn report(
    flow_id: Seq<char>,
    direction: Direction,
    headers: Seq<(Seq<char>, Seq<char>)>,
    seen: Seq<u8>,
    limit: nat,
) -> Seq<UpdateView> {
    let kept = body_plan::within(seen, limit);
    let shown = body_codec::framed(kept.bytes, headers);
    let body = UpdateView::HttpBody {
        flow_id,
        direction,
        body: BodyView { encoding: shown.0, content: shown.1, size: seen.len() as u64, grpc: shown.2 },
    };
    if kept.truncated {
        seq![body, UpdateView::BodyBudgetExceeded { flow_id, direction }]
    } else {
        seq![body]
    }
}

/// The counters after a report.
pub open spec fn report_counted(m: Metrics, truncated: bool) -> Metrics {
    if truncated {
        Metrics {
            body_degraded: m.body_degraded.wrapping_add(1),
            stream_mode_degrade: m.stream_mode_degrade.wrapping_add(1),
            ..m
        }
    } else {
        m
    }
}

/// What a tapped body holds.
#[verifier::ext_equal]
pub struct TapView {
    pub seen: Seq<u8>,
    pub limit: nat,
    pub flow_id: Seq<char>,
    pub direction: Direction,
    pub headers: Seq<(Seq<char>, Seq<char>)>,
    pub reported: bool,
}

/// What the body behind a tapped one gave.
#[derive(Debug)]
pub enum TapEvent {
    /// A frame, and whether nothing is left to come according to the body's length.
    Frame { frame: BodyFrame, nothing_left: bool },
    /// The end of the stream.
    End,
}

/// What an event of a tapped body holds.
#[verifier::ext_equal]
pub enum TapEventView {
    Frame { frame: FrameView, nothing_left: bool },
    End,
}

impl View for TapEvent {
    type V = TapEventView;

    open spec fn view(&self) -> TapEventView {
        match *self {
            TapEvent::Frame { frame, nothing_left } => TapEventView::Frame { frame: frame@, nothing_left },
            TapEvent::End => TapEventView::End,
        }
    }
}

/// The frame of an event.
pub open spec fn frame_in(e: TapEventView) -> Option<FrameView> {
    match e {
        TapEventView::Frame { frame, .. } => Some(frame),
        TapEventView::End => None,
    }
}

/// Whether an event shows that the body is over.
pub open spec fn ends(e: TapEventView) -> bool {
    match e {
        TapEventView::Frame { nothing_left, .. } => nothing_left,
        TapEventView::End => true,
    }
}

/// The bytes of an event.
pub open spec fn bytes_in(e: TapEventView) -> Seq<u8> {
    match e {
        TapEventView::Frame { frame, .. } => frame::data_of(frame),
        TapEventView::End => Seq::empty(),
    }
}

/// What is reported of the trailers in an event: those of a response, where there are any.
pub open spec fn trailer_updates(t: TapView, e: TapEventView) -> Seq<UpdateView> {
    match e {
        TapEventView::Frame { frame: FrameView::Trailers(entries), .. } => {
            let list = headers::listed(entries);
            if t.direction is ServerToClient && list.len() > 0 {
                seq![UpdateView::ResponseTrailers { flow_id: t.flow_id, trailers: list }]
            } else {
                Seq::empty()
            }
        },
        _ => Seq::empty(),
    }
}

/// What is reported of a tapped body that is over.
pub open spec fn report_of(t: TapView) -> Seq<UpdateView> {
    report(t.flow_id, t.direction, t.headers, t.seen, t.limit)
}

/// A tapped body after an event, the frame that goes on, and what is reported: trailers as they pass,
/// and the body once, when it shows that it is over.
pub open spec fn tapped(t: TapView, e: TapEventView) -> (TapView, Option<FrameView>, Seq<UpdateView>) {
    let after = TapView { seen: t.seen + bytes_in(e), ..t };
    (
        TapView { reported: t.reported || ends(e), ..after },
        frame_in(e),
        trailer_updates(t, e) + if ends(e) && !t.reported {
            report_of(after)
        } else {
            Seq::empty()
        },
    )
}

/// The counters after some bytes have passed one way.
pub open spec fn passed_counted(m: Metrics, direction: Direction, len: nat) -> Metrics {
    match direction {
        Direction::ClientToServer => Metrics { bytes_sent: m.bytes_sent.wrapping_add(len as u64), ..m },
        Direction::ServerToClient => Metrics { bytes_recv: m.bytes_recv.wrapping_add(len as u64), ..m },
    }
}

/// The counters after an event.
pub open spec fn tap_counted(m: Metrics, t: TapView, e: TapEventView) -> Metrics {
    let after = t.seen + bytes_in(e);
    let counted = passed_counted(m, t.direction, bytes_in(e).len());
    if ends(e) && !t.reported {
        report_counted(counted, body_plan::within(after, t.limit).truncated)
    } else {
        counted
    }
}

impl TapBody {
    /// Every byte that has passed.
    pub closed spec fn seen(&self) -> Seq<u8> {
        self.inner.seen()
    }

    /// How many bytes are retained at most.
    pub closed spec fn limit(&self) -> nat {
        self.inner.limit()
    }

    /// The flow the body belongs to.
    pub closed spec fn flow_id(&self) -> Seq<char> {
        self.flow_id@
    }

    /// Which way the body travels.
    pub closed spec fn direction(&self) -> Direction {
        self.direction
    }

    /// The headers the body came with.
    pub closed spec fn headers(&self) -> Seq<(Seq<char>, Seq<char>)> {
        flow::pairs(self.headers@)
    }

    /// Whether the body has been reported.
    pub closed spec fn reported(&self) -> bool {
        self.reported
    }

    /// What is retained is the start of what has passed.
    pub closed spec fn wf(&self) -> bool {
        self.inner.wf()
    }

    /// Whether only what has passed and what was reported differ.
    pub open spec fn same_body(&self, other: &Self) -> bool {
        &&& self.limit() == other.limit()
        &&& self.flow_id() == other.flow_id()
        &&& self.direction() == other.direction()
        &&& self.headers() == other.headers()
    }

    /// What the body holds.
    pub open spec fn state(&self) -> TapView {
        TapView {
            seen: self.seen(),
            limit: self.limit(),
            flow_id: self.flow_id(),
            direction: self.direction(),
            headers: self.headers(),
            reported: self.reported(),
        }
    }

    /// Start to record a body.
    pub fn new(
        flow_id: String,
        direction: Direction,
        limit: usize,
        headers: Vec<(String, String)>,
        counters: &mut Metrics,
    ) -> (r: Self)
        ensures
            r.wf(),
            r.seen() == Seq::<u8>::empty(),
            r.limit() == limit,
            r.flow_id() == flow_id@,
            r.direction() == direction,
            r.headers() == flow::pairs(headers@),
            !r.reported(),
            *final(counters) == (Metrics {
                stream_mode_tap: old(counters).stream_mode_tap.wrapping_add(1),
                ..*old(counters)
            }),
    {
        metrics::inc_proxy_stream_mode_tap(counters);
        TapBody { inner: body_plan::buffer_prefix(limit), flow_id, direction, headers, reported: false }
    }

    /// A data frame passes: it is retained as far as there is room, and counted.
    pub fn observe_data(&mut self, data: &[u8], counters: &mut Metrics)
        requires
            old(self).wf(),
            old(self).seen().len() + data@.len() <= u64::MAX,
        ensures
            final(self).wf(),
            final(self).seen() == old(self).seen() + data@,
            final(self).reported() == old(self).reported(),
            final(self).same_body(old(self)),
            *final(counters) == passed_counted(*old(counters), old(self).direction(), data@.len()),
    {
        let len: u64 = data.len() as u64;
        match self.direction {
            Direction::ClientToServer => metrics::add_bytes_sent(counters, len),
            Direction::ServerToClient => metrics::add_bytes_recv(counters, len),
        }
        self.inner.observe(data);
    }

    /// Trailers pass. Those of a response are reported, where there are any: they come after the
    /// body and may hold the outcome of the call.
    pub fn observe_trailers(&self, trailers: &hyper::HeaderMap) -> (r: Option<FlowUpdate>)
        ensures
            ({
                let listed = headers::listed(headers::header_entries(*trailers));
                match r {
                    Some(u) => self.direction() is ServerToClient && listed.len() > 0 && u@
                        == (UpdateView::ResponseTrailers { flow_id: self.flow_id(), trailers: listed }),
                    None => self.direction() is ClientToServer || listed.len() == 0,
                }
            }),
    {
        match self.direction {
            Direction::ClientToServer => None,
            Direction::ServerToClient => {
                let list = headers::list(trailers);
                assert(flow::pairs(list@).len() == list@.len());
                if list.len() == 0 {
                    None
                } else {
                    Some(FlowUpdate::ResponseTrailers { flow_id: text::copy(self.flow_id.as_str()), trailers: list })
                }
            },
        }
    }

    /// Report the body, the first time this is asked for.
    pub fn report_once(&mut self, counters: &mut Metrics) -> (r: Vec<FlowUpdate>)
        requires
            old(self).wf(),
        ensures
            final(self).wf(),
            final(self).reported(),
            final(self).seen() == old(self).seen(),
            final(self).same_body(old(self)),
            old(self).reported() ==> r@.len() == 0 && *final(counters) == *old(counters),
            !old(self).reported() ==> updates(r@) == report(
                old(self).flow_id(),
                old(self).direction(),
                old(self).headers(),
                old(self).seen(),
                old(self).limit(),
            ),
            !old(self).reported() ==> *final(counters) == report_counted(
                *old(counters),
                body_plan::within(old(self).seen(), old(self).limit()).truncated,
            ),
            !old(self).reported() ==> r@.len() > 0 && (r@[0] matches FlowUpdate::HttpBody { flow_id, direction, body }
                && flow_id@ == old(self).flow_id() && direction == old(self).direction() && body.size == old(self).seen().len() as u64 && body_codec::recorded_bytes(body.encoding@, body.content@) == body_plan::prefix(
                old(self).seen(),
                old(self).limit(),
            )),
            !old(self).reported() ==> (r@.len() == 2 <==> old(self).seen().len() > 0 && old(self).seen().len() >= old(self).limit()),
            r@.len() == 2 ==> (r@[1] matches FlowUpdate::BodyBudgetExceeded { flow_id, direction } && flow_id@ == old(self).flow_id() && direction == old(self).direction()),
            r@.len() <= 2,
    {
        let mut out: Vec<FlowUpdate> = Vec::new();
        if self.reported {
            return out;
        }
        self.reported = true;
        let snapshot = self.inner.snapshot();
        let (encoding, content, grpc) = body_codec::process_body_with_framing(
            snapshot.bytes.as_slice(),
            self.headers.as_slice(),
        );
        let ghost expected = report(self.flow_id(), self.direction(), self.headers(), self.seen(), self.limit());
        let body = BodyData { encoding, content, size: snapshot.total_bytes, grpc };
        out.push(
            FlowUpdate::HttpBody { flow_id: text::copy(self.flow_id.as_str()), direction: self.direction, body },
        );
        if snapshot.truncated {
            metrics::inc_proxy_body_degraded(counters);
            metrics::inc_proxy_stream_mode_degrade(counters);
            out.push(
                FlowUpdate::BodyBudgetExceeded {
                    flow_id: text::copy(self.flow_id.as_str()),
                    direction: self.direction,
                },
            );
        }
        assert(updates(out@) =~= expected);
        out
    }

    /// The body behind gave a frame or its end. A frame goes on as it came; with it comes what is to
    /// be published.
    pub fn poll_frame(&mut self, event: TapEvent, counters: &mut Metrics) -> (r: (Option<BodyFrame>, Vec<FlowUpdate>))
        requires
            old(self).wf(),
            old(self).seen().len() + bytes_in(event@).len() <= u64::MAX,
        ensures
            final(self).wf(),
            (final(self).state(), frame::frame_opt(r.0), updates(r.1@)) == tapped(old(self).state(), event@),
            *final(counters) == tap_counted(*old(counters), old(self).state(), event@),
            event matches TapEvent::Frame { frame, .. } ==> (r.0 matches Some(x) && x@ == frame@),
            event is End ==> r.0 is None,
            event matches TapEvent::Frame { frame: BodyFrame::Data(d), .. } ==> final(self).seen() == old(self).seen()
                + d@,
            event matches TapEvent::Frame { frame: BodyFrame::Data(d), nothing_left } ==> (!nothing_left ==> r.1@.len()
                == 0),
            event is End && !old(self).reported() ==> r.1@.len() > 0,
            event is End && old(self).reported() ==> r.1@.len() == 0,
    {
        let ghost before = self.state();
        let ghost start = *counters;
        let ghost told = event@;
        let mut out: Vec<FlowUpdate> = Vec::new();
        let (frame, over) = match event {
            TapEvent::End => (None, true),
            TapEvent::Frame { frame, nothing_left } => {
                match &frame {
                    BodyFrame::Data(data) => {
                        self.observe_data(data.as_slice(), counters);
                    },
                    BodyFrame::Trailers(fields) => {
                        match self.observe_trailers(fields) {
                            Some(update) => {
                                out.push(update);
                            },
                            None => {},
                        }
                    },
                }
                (Some(frame), nothing_left)
            },
        };
        proof {
            assert(self.state() == (TapView { seen: before.seen + bytes_in(told), ..before }));
            assert(updates(out@) =~= trailer_updates(before, told));
            assert(*counters == passed_counted(start, before.direction, bytes_in(told).len()));
        }
        if over {
            let ghost so_far = out@;
            let mut report = self.report_once(counters);
            let ghost reported = report@;
            out.append(&mut report);
            assert(updates(out@) =~= updates(so_far) + updates(reported));
            assert(before.reported ==> updates(reported) =~= Seq::empty());
        } else {
            assert(updates(out@) + Seq::<UpdateView>::empty() =~= updates(out@));
        }
        (frame, out)
    }

    /// The body is dropped: what it holds is handed over to be recorded, unless it was reported.
    pub fn hand_over(self) -> (r: Option<ObservedBody>)
        requires
            self.wf(),
        ensures
            match r {
                None => self.reported(),
                Some(o) => !self.reported() && o.flow_id@ == self.flow_id() && o.direction == self.direction()
                    && flow::pairs(o.headers@) == self.headers() && (body_plan::BufferedView {
                    bytes: o.bytes@,
                    total_bytes: o.total_bytes as nat,
                    truncated: o.truncated,
                }) == body_plan::within(self.seen(), self.limit()),
            },
            r matches Some(o) ==> o.total_bytes == self.seen().len() && (self.seen().len() < self.limit() ==> o.bytes@
                == self.seen() && !o.truncated) && (self.seen().len() > self.limit() ==> o.truncated),
    {
        if self.reported {
            return None;
        }
        let kept = self.inner.into_parts();
        Some(
            ObservedBody {
                flow_id: self.flow_id,
                direction: self.direction,
                bytes: kept.bytes,
                total_bytes: kept.total_bytes,
                truncated: kept.truncated,
                headers: self.headers,
            },
        )
    }

    /// Whether the recorded body is only the start of the body.
    pub fn budget_exceeded(&self) -> (r: bool)
        requires
            self.wf(),
        ensures
            r == body_plan::within(self.seen(), self.limit()).truncated,
    {
        self.inner.truncated()
    }

    /// How many bytes have passed.
    pub fn total_bytes(&self) -> (r: u64)
        requires
            self.wf(),
        ensures
            r == self.seen().len(),
    {
        self.inner.observed_bytes()
    }
}

/// A tapped body after some events.
pub open spec fn tapped_all(t: TapView, events: Seq<TapEventView>) -> TapView
    decreases events.len(),
{
    if events.len() == 0 {
        t
    } else {
        tapped(tapped_all(t, events.drop_last()), events.last()).0
    }
}

/// What was published during some events.
pub open spec fn published(t: TapView, events: Seq<TapEventView>) -> Seq<UpdateView>
    decreases events.len(),
{
    if events.len() == 0 {
        Seq::empty()
    } else {
        published(t, events.drop_last()) + tapped(tapped_all(t, events.drop_last()), events.last()).2
    }
}

/// The frames that went on during some events.
pub open spec fn frames_out(t: TapView, events: Seq<TapEventView>) -> Seq<FrameView>
    decreases events.len(),
{
    if events.len() == 0 {
        Seq::empty()
    } else {
        frames_out(t, events.drop_last()) + frame::listed(
            tapped(tapped_all(t, events.drop_last()), events.last()).1,
        )
    }
}

/// The frames of some events, in their order.
pub open spec fn frames_in(events: Seq<TapEventView>) -> Seq<FrameView>
    decreases events.len(),
{
    if events.len() == 0 {
        Seq::empty()
    } else {
        frames_in(events.drop_last()) + frame::listed(frame_in(events.last()))
    }
}

/// What some updates tell of bodies, which is all but the trailers.
pub open spec fn body_updates(list: Seq<UpdateView>) -> Seq<UpdateView>
    decreases list.len(),
{
    if list.len() == 0 {
        Seq::empty()
    } else if list.last() is ResponseTrailers {
        body_updates(list.drop_last())
    } else {
        body_updates(list.drop_last()).push(list.last())
    }
}

/// Whether some events have shown that the body is over.
pub open spec fn over(events: Seq<TapEventView>) -> bool
    decreases events.len(),
{
    events.len() > 0 && (over(events.drop_last()) || ends(events.last()))
}

/// Whether no byte comes after the body has shown that it is over.
pub open spec fn truthful(events: Seq<TapEventView>) -> bool
    decreases events.len(),
{
    events.len() > 0 ==> {
        &&& truthful(events.drop_last())
        &&& over(events.drop_last()) ==> bytes_in(events.last()).len() == 0
    }
}

proof fn lemma_body_updates_concat(a: Seq<UpdateView>, b: Seq<UpdateView>)
    ensures
        body_updates(a + b) == body_updates(a) + body_updates(b),
    decreases b.len(),
{
    if b.len() == 0 {
        assert(a + b =~= a);
        assert(body_updates(a) + body_updates(b) =~= body_updates(a));
    } else {
        assert((a + b).drop_last() =~= a + b.drop_last());
        lemma_body_updates_concat(a, b.drop_last());
        assert(body_updates(a + b) =~= body_updates(a) + body_updates(b));
    }
}

proof fn lemma_reports_tell_of_the_body(t: TapView)
    ensures
        body_updates(report_of(t)) == report_of(t),
{
    reveal_with_fuel(body_updates, 3);
    let list = report_of(t);
    if list.len() == 2 {
        assert(list.drop_last().drop_last() =~= Seq::empty());
        assert(list.drop_last() =~= seq![list[0]]);
    } else {
        assert(list.drop_last() =~= Seq::empty());
    }
    assert(body_updates(list) =~= list);
}

proof fn lemma_trailers_tell_nothing_of_the_body(t: TapView, e: TapEventView)
    ensures
        body_updates(trailer_updates(t, e)) == Seq::<UpdateView>::empty(),
{
    reveal_with_fuel(body_updates, 2);
    let list = trailer_updates(t, e);
    if list.len() > 0 {
        assert(list.drop_last() =~= Seq::empty());
    }
}

/// Tapping changes, loses, adds and reorders no frame.
pub proof fn law_tapped_frames_pass_unchanged(t: TapView, events: Seq<TapEventView>)
    ensures
        frames_out(t, events) == frames_in(events),
    decreases events.len(),
{
    if events.len() > 0 {
        law_tapped_frames_pass_unchanged(t, events.drop_last());
    }
}

/// A body that streams past is reported exactly once, as soon as it shows that it is over and however
/// often it does, with every byte that passed; before that it is not reported. The report holds one
/// `HttpBody`, and tells of an exceeded budget where the body was longer than what is retained.
pub proof fn law_tapped_bodies_are_reported_once(t: TapView, events: Seq<TapEventView>)
    requires
        !t.reported,
        truthful(events),
    ensures
        tapped_all(t, events) == (TapView {
            seen: t.seen + frame::data_in(frames_in(events)),
            reported: over(events),
            ..t
        }),
        body_updates(published(t, events)) == (if over(events) {
            report_of(tapped_all(t, events))
        } else {
            Seq::empty()
        }),
    decreases events.len(),
{
    if events.len() == 0 {
        assert(t.seen + frame::data_in(frames_in(events)) =~= t.seen);
    } else {
        let before = events.drop_last();
        let e = events.last();
        law_tapped_bodies_are_reported_once(t, before);
        let state = tapped_all(t, before);
        let after = TapView { seen: state.seen + bytes_in(e), ..state };
        frame::lemma_data_concat(frames_in(before), frame::listed(frame_in(e)));
        assert(frame::data_in(frame::listed(frame_in(e))) =~= bytes_in(e)) by {
            reveal_with_fuel(frame::data_in, 2);
            let list = frame::listed(frame_in(e));
            if list.len() > 0 {
                assert(list.drop_last() =~= Seq::empty());
            }
        }
        assert(tapped_all(t, events).seen =~= t.seen + frame::data_in(frames_in(events)));
        let told = if ends(e) && !state.reported {
            report_of(after)
        } else {
            Seq::empty()
        };
        lemma_body_updates_concat(published(t, before), tapped(state, e).2);
        lemma_body_updates_concat(trailer_updates(state, e), told);
        lemma_trailers_tell_nothing_of_the_body(state, e);
        lemma_reports_tell_of_the_body(after);
        if over(before) {
            assert(after.seen =~= state.seen);
        }
        assert(body_updates(published(t, events)) =~= if over(events) {
            report_of(tapped_all(t, events))
        } else {
            Seq::empty()
        });
    }
}

/// The report of a body names its flow and its direction, tells how many bytes passed, and tells of
/// an exceeded budget where not all of them are shown.
pub proof fn law_reports_tell_of_their_body(
    flow_id: Seq<char>,
    direction: Direction,
    headers: Seq<(Seq<char>, Seq<char>)>,
    seen: Seq<u8>,
    limit: nat,
)
    ensures
        ({
            let list = report(flow_id, direction, headers, seen, limit);
            &&& list.len() == 1 || list.len() == 2
            &&& list[0] matches UpdateView::HttpBody { flow_id: id, direction: way, body } && id == flow_id && way
                == direction && body.size == seen.len() as u64
            &&& list.len() == 2 ==> list[1] == (UpdateView::BodyBudgetExceeded { flow_id, direction })
            &&& seen.len() > limit ==> list.len() == 2
            &&& seen.len() < limit ==> list.len() == 1
        }),
{
}

/// The trailers of a response are reported as they pass; those of a request are not.
pub proof fn law_response_trailers_are_reported(
    t: TapView,
    entries: Seq<(Seq<char>, Seq<Seq<u8>>)>,
    nothing_left: bool,
)
    ensures
        ({
            let e = TapEventView::Frame { frame: FrameView::Trailers(entries), nothing_left };
            &&& t.direction is ServerToClient && headers::listed(entries).len() > 0 ==> tapped(t, e).2.len() > 0
                && tapped(t, e).2[0] == (UpdateView::ResponseTrailers {
                flow_id: t.flow_id,
                trailers: headers::listed(entries),
            })
            &&& t.direction is ClientToServer && !nothing_left ==> tapped(t, e).2.len() == 0
        }),
{
}

/// What passes is counted as sent on the way up and as received on the way down.
pub proof fn law_passing_bytes_are_counted(m: Metrics, direction: Direction, len: nat)
    ensures
        direction is ClientToServer ==> passed_counted(m, direction, len).bytes_sent == m.bytes_sent.wrapping_add(
            len as u64,
        ) && passed_counted(m, direction, len).bytes_recv == m.bytes_recv,
        direction is ServerToClient ==> passed_counted(m, direction, len).bytes_recv == m.bytes_recv.wrapping_add(
            len as u64,
        ) && passed_counted(m, direction, len).bytes_sent == m.bytes_sent,
{
}

} // verus!
