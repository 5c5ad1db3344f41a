//! Collecting the start of a body for rules while all of it passes.
use vstd::prelude::*;

use crate::proxy::body_plan;
use crate::proxy::frame;
use crate::proxy::frame::{BodyFrame, FrameView};

verus! {

/// What the body behind a budgeted one says when it is asked for a frame.
#[derive(Debug)]
pub enum BudgetEvent {
    /// There is nothing yet.
    Pending,
    Frame(BodyFrame),
    End,
    Failed,
}

/// What an event holds.
#[verifier::ext_equal]
pub enum BudgetEventView {
    Pending,
    Frame(FrameView),
    End,
    Failed,
}

impl View for BudgetEvent {
    type V = BudgetEventView;

    open spec fn view(&self) -> BudgetEventView {
        match *self {
            BudgetEvent::Pending => BudgetEventView::Pending,
            BudgetEvent::Frame(f) => BudgetEventView::Frame(f@),
            BudgetEvent::End => BudgetEventView::End,
            BudgetEvent::Failed => BudgetEventView::Failed,
        }
    }
}

/// The frame of an event.
pub open spec fn frame_in(e: BudgetEventView) -> Option<FrameView> {
    match e {
        BudgetEventView::Frame(f) => Some(f),
        _ => None,
    }
}

/// The bytes of an event.
pub open spec fn bytes_in(e: BudgetEventView) -> Seq<u8> {
    match e {
        BudgetEventView::Frame(f) => frame::data_of(f),
        _ => Seq::empty(),
    }
}

/// Whether a body is over after an event: trailers end it, as its end and an error do.
pub open spec fn ends(e: BudgetEventView) -> bool {
    match e {
        BudgetEventView::Pending => false,
        BudgetEventView::Frame(f) => f is Trailers,
        BudgetEventView::End => true,
        BudgetEventView::Failed => true,
    }
}

/// What is known of a budgeted body: what has passed, how much is collected, and whether it is over.
#[verifier::ext_equal]
pub struct BudgetView {
    pub seen: Seq<u8>,
    pub budget: nat,
    pub done: bool,
}

/// What becomes of a budgeted body at an event, and the frame that passes. Of a body that is over
/// nothing more comes.
pub open spec fn budgeted(b: BudgetView, e: BudgetEventView) -> (BudgetView, Option<FrameView>) {
    if b.done {
        (b, None)
    } else {
        (BudgetView { seen: b.seen + bytes_in(e), done: ends(e), ..b }, frame_in(e))
    }
}

/// Collects up to a budget of a body while all of it passes.
pub struct BudgetedBody {
    budget: usize,
    accumulated: Vec<u8>,
    /// Whether more bytes have passed than the budget lets be collected.
    budget_exceeded: bool,
    /// How many bytes have passed.
    total_bytes: u64,
    done: bool,
    seen: Ghost<Seq<u8>>,
}

impl View for BudgetedBody {
    type V = BudgetView;

    closed spec fn view(&self) -> BudgetView {
        BudgetView { seen: self.seen@, budget: self.budget as nat, done: self.done }
    }
}

impl BudgetedBody {
    /// What is collected is the start of what has passed.
    pub closed spec fn wf(&self) -> bool {
        &&& self.accumulated@ == body_plan::prefix(self.seen@, self.budget as nat)
        &&& self.total_bytes == self.seen@.len()
        &&& self.budget_exceeded == (self.seen@.len() > self.budget)
    }

    /// A body of which nothing has passed yet.
    pub fn new(budget: usize) -> (r: Self)
        ensures
            r.wf(),
            r@ == (BudgetView { seen: Seq::empty(), budget: budget as nat, done: false }),
    {
        let r = BudgetedBody {
            budget,
            accumulated: Vec::new(),
            budget_exceeded: false,
            total_bytes: 0,
            done: false,
            seen: Ghost(Seq::empty()),
        };
        assert(body_plan::prefix(Seq::<u8>::empty(), budget as nat) =~= r.accumulated@);
        r
    }

    fn observe_data(&mut self, data: &[u8])
        requires
            old(self).wf(),
            old(self)@.seen.len() + data@.len() <= u64::MAX,
        ensures
            final(self).wf(),
            final(self)@ == (BudgetView { seen: old(self)@.seen + data@, ..old(self)@ }),
    {
        let ghost all = self.seen@ + data@;
        self.total_bytes = self.total_bytes + data.len() as u64;
        let remaining: usize = self.budget.saturating_sub(self.accumulated.len());
        if remaining > 0 {
            let take: usize = if data.len() < remaining {
                data.len()
            } else {
                remaining
            };
            let ghost kept = self.accumulated@;
            let part = vstd::slice::slice_subrange(data, 0, take);
            self.accumulated.extend_from_slice(part);
            assert(self.accumulated@ =~= kept + data@.subrange(0, take as int));
        }
        if self.total_bytes > self.budget as u64 {
            self.budget_exceeded = true;
        }
        self.seen = Ghost(all);
        assert(self.accumulated@ =~= body_plan::prefix(all, self.budget as nat));
    }

    /// Take in what the body behind this one says, and give the frame that passes.
    pub fn poll_frame(&mut self, event: BudgetEvent) -> (r: Option<BodyFrame>)
        requires
            old(self).wf(),
            old(self)@.seen.len() + bytes_in(event@).len() <= u64::MAX,
        ensures
            final(self).wf(),
            (final(self)@, frame::frame_opt(r)) == budgeted(old(self)@, event@),
            old(self)@.done ==> r is None && final(self)@ == old(self)@,
            !old(self)@.done ==> {
                &&& event matches BudgetEvent::Frame(f) ==> (r matches Some(x) && x@ == f@)
                &&& event !is Frame ==> r is None && final(self)@.seen == old(self)@.seen
                &&& event matches BudgetEvent::Frame(BodyFrame::Data(d)) ==> final(self)@.seen == old(self)@.seen + d@
                    && !final(self)@.done
                &&& event matches BudgetEvent::Frame(BodyFrame::Trailers(_)) ==> final(self)@.done
                &&& event is Pending ==> final(self)@ == old(self)@
                &&& event is End || event is Failed ==> final(self)@.done
            },
            final(self)@.budget == old(self)@.budget,
    {
        if self.done {
            return None;
        }
        match event {
            BudgetEvent::Pending => {
                assert(self@.seen + Seq::<u8>::empty() =~= self@.seen);
                None
            },
            BudgetEvent::Frame(BodyFrame::Data(data)) => {
                self.observe_data(data.as_slice());
                Some(BodyFrame::Data(data))
            },
            BudgetEvent::Frame(BodyFrame::Trailers(fields)) => {
                self.done = true;
                assert(self@.seen + Seq::<u8>::empty() =~= self@.seen);
                Some(BodyFrame::Trailers(fields))
            },
            BudgetEvent::End => {
                self.done = true;
                assert(self@.seen + Seq::<u8>::empty() =~= self@.seen);
                None
            },
            BudgetEvent::Failed => {
                self.done = true;
                assert(self@.seen + Seq::<u8>::empty() =~= self@.seen);
                None
            },
        }
    }

    /// Whether the body is over: it has ended, or the one behind it has.
    pub fn is_end_stream(&self, inner_ended: bool) -> (r: bool)
        ensures
            r == (self@.done || inner_ended),
    {
        self.done || inner_ended
    }

    /// Whether the body is over.
    pub fn is_done(&self) -> (r: bool)
        ensures
            r == self@.done,
    {
        self.done
    }

    /// Whether the bytes that have passed exceed the budget.
    pub fn budget_exceeded(&self) -> (r: bool)
        requires
            self.wf(),
        ensures
            r == (self@.seen.len() > self@.budget),
    {
        self.budget_exceeded
    }

    /// How many bytes have passed.
    pub fn total_bytes(&self) -> (r: u64)
        requires
            self.wf(),
        ensures
            r == self@.seen.len(),
    {
        self.total_bytes
    }

    /// What has been collected.
    pub fn accumulated_data(&self) -> (r: Vec<u8>)
        requires
            self.wf(),
        ensures
            r@ == body_plan::prefix(self@.seen, self@.budget),
            self@.seen.len() <= self@.budget ==> r@ == self@.seen,
            self@.seen.len() > self@.budget ==> r@ == self@.seen.subrange(0, self@.budget as int),
    {
        vstd::slice::slice_to_vec(self.accumulated.as_slice())
    }
}

/// A budgeted body after some events.
pub open spec fn budgeted_all(b: BudgetView, events: Seq<BudgetEventView>) -> BudgetView
    decreases events.len(),
{
    if events.len() == 0 {
        b
    } else {
        budgeted(budgeted_all(b, events.drop_last()), events.last()).0
    }
}

/// The frames that pass at some events.
pub open spec fn frames_out(b: BudgetView, events: Seq<BudgetEventView>) -> Seq<FrameView>
    decreases events.len(),
{
    if events.len() == 0 {
        Seq::empty()
    } else {
        frames_out(b, events.drop_last()) + frame::listed(
            budgeted(budgeted_all(b, events.drop_last()), events.last()).1,
        )
    }
}

/// The frames of some events.
pub open spec fn frames_in(events: Seq<BudgetEventView>) -> Seq<FrameView>
    decreases events.len(),
{
    if events.len() == 0 {
        Seq::empty()
    } else {
        frames_in(events.drop_last()) + frame::listed(frame_in(events.last()))
    }
}

/// Collecting the start of a body changes, loses, adds and reorders no frame before the body is
/// over.
pub proof fn law_budgeted_frames_pass_unchanged(b: BudgetView, events: Seq<BudgetEventView>)
    requires
        !b.done,
        forall|i: int| 0 <= i < events.len() - 1 ==> !ends(#[trigger] events[i]),
    ensures
        frames_out(b, events) == frames_in(events),
        budgeted_all(b, events).done == (events.len() > 0 && ends(events.last())),
    decreases events.len(),
{
    if events.len() > 0 {
        let before = events.drop_last();
        assert forall|i: int| 0 <= i < before.len() - 1 implies !ends(#[trigger] before[i]) by {
            assert(before[i] == events[i]);
        }
        law_budgeted_frames_pass_unchanged(b, before);
        if before.len() > 0 {
            assert(before.last() == events[before.len() - 1]);
        }
    }
}

/// What a budgeted body has seen are the bytes of the frames that passed, so that what it collects
/// is the start of them.
pub proof fn law_what_passes_is_seen(b: BudgetView, events: Seq<BudgetEventView>)
    ensures
        budgeted_all(b, events).seen == b.seen + frame::data_in(frames_out(b, events)),
        budgeted_all(b, events).budget == b.budget,
    decreases events.len(),
{
    if events.len() == 0 {
        assert(b.seen + frame::data_in(frames_out(b, events)) =~= b.seen);
    } else {
        let before = events.drop_last();
        law_what_passes_is_seen(b, before);
        let state = budgeted_all(b, before);
        let last = frame::listed(budgeted(state, events.last()).1);
        frame::lemma_data_concat(frames_out(b, before), last);
        assert(frame::data_in(last) =~= (if state.done {
            Seq::empty()
        } else {
            bytes_in(events.last())
        })) by {
            reveal_with_fuel(frame::data_in, 2);
            if last.len() > 0 {
                assert(last.drop_last() =~= Seq::empty());
            }
        }
        assert(budgeted_all(b, events).seen =~= b.seen + frame::data_in(frames_out(b, events)));
    }
}

} // verus!
