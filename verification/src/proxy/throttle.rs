//! Slowing a body down to a number of bytes per second.
use vstd::prelude::*;

use crate::flow::TextMap;
use crate::proxy::frame;
use crate::proxy::frame::{BodyFrame, FrameView};
use crate::text;

verus! {

/// Decides when the next frame of a body may go out, and holds the one that has to wait. Times are
/// nanoseconds.
#[derive(Debug)]
pub struct ThrottleBody {
    pub bytes_per_sec: u64,
    pub last_frame_at: Option<u128>,
    pub held: Option<BodyFrame>,
}

/// What a throttled body holds.
#[verifier::ext_equal]
pub struct ThrottleView {
    pub bytes_per_sec: u64,
    pub last_frame_at: Option<u128>,
    pub held: Option<FrameView>,
}

impl View for ThrottleBody {
    type V = ThrottleView;

    open spec fn view(&self) -> ThrottleView {
        ThrottleView {
            bytes_per_sec: self.bytes_per_sec,
            last_frame_at: self.last_frame_at,
            held: frame::frame_opt(self.held),
        }
    }
}

/// How long a frame takes at a rate: whole microseconds, in nanoseconds.
pub open spec fn frame_time(bytes: nat, bytes_per_sec: nat) -> nat {
    bytes * 1_000_000 / bytes_per_sec * 1000
}

/// How long a frame still has to wait: the time it takes at the rate, less the time since the
/// frame before it.
pub open spec fn wait(t: ThrottleView, bytes: nat, now: u128) -> nat {
    if bytes == 0 || t.bytes_per_sec == 0 {
        0
    } else {
        match t.last_frame_at {
            None => 0,
            Some(last) => {
                let elapsed: int = if now > last {
                    now - last
                } else {
                    0
                };
                let needed = frame_time(bytes, t.bytes_per_sec as nat);
                if elapsed < needed {
                    (needed - elapsed) as nat
                } else {
                    0
                }
            },
        }
    }
}

/// What a throttled body does when it is asked for a frame.
#[derive(Debug)]
pub enum ThrottleStep {
    /// Nothing is at hand: ask the body behind it.
    Ask,
    /// The frame at hand is held; ask again after so many nanoseconds.
    Wait(u128),
    /// This frame goes out.
    Ready(BodyFrame),
}

/// What a step of a throttled body holds.
#[verifier::ext_equal]
pub enum ThrottleStepView {
    Ask,
    Wait(nat),
    Ready(FrameView),
}

impl View for ThrottleStep {
    type V = ThrottleStepView;

    open spec fn view(&self) -> ThrottleStepView {
        match *self {
            ThrottleStep::Ask => ThrottleStepView::Ask,
            ThrottleStep::Wait(n) => ThrottleStepView::Wait(n as nat),
            ThrottleStep::Ready(f) => ThrottleStepView::Ready(f@),
        }
    }
}

/// What becomes of a throttled body that is asked for a frame, with the frame that has arrived from
/// the body behind it, if any. The frame at hand is the held one, or else the one that arrived.
pub open spec fn polled(t: ThrottleView, arrived: Option<FrameView>, now: u128) -> (ThrottleView, ThrottleStepView) {
    let at_hand = if t.held is Some {
        t.held
    } else {
        arrived
    };
    match at_hand {
        None => (t, ThrottleStepView::Ask),
        Some(f) => {
            let bytes = frame::data_of(f).len();
            if wait(t, bytes, now) > 0 {
                (ThrottleView { held: Some(f), ..t }, ThrottleStepView::Wait(wait(t, bytes, now)))
            } else {
                (
                    ThrottleView {
                        last_frame_at: if bytes > 0 && t.bytes_per_sec > 0 {
                            Some(now)
                        } else {
                            t.last_frame_at
                        },
                        held: None,
                        ..t
                    },
                    ThrottleStepView::Ready(f),
                )
            }
        },
    }
}

impl ThrottleBody {
    /// A body of which nothing has gone out yet.
    pub fn new(bytes_per_sec: u64) -> (r: Self)
        ensures
            r@ == (ThrottleView { bytes_per_sec, last_frame_at: None, held: None }),
    {
        ThrottleBody { bytes_per_sec, last_frame_at: None, held: None }
    }

    fn time_left(&self, bytes: usize, now: u128) -> (r: u128)
        ensures
            r == wait(self@, bytes as nat, now),
    {
        if bytes == 0 || self.bytes_per_sec == 0 {
            return 0;
        }
        match self.last_frame_at {
            Some(last) => {
                let micros: u128 = bytes as u128 * 1_000_000;
                let needed: u128 = micros / self.bytes_per_sec as u128 * 1000;
                let elapsed: u128 = now.saturating_sub(last);
                if elapsed < needed {
                    needed - elapsed
                } else {
                    0
                }
            },
            None => 0,
        }
    }

    /// Ask for a frame, with the one that has arrived from the body behind, if any. A frame that has
    /// to wait is held, so nothing may arrive before it has gone out.
    pub fn poll_frame(&mut self, arrived: Option<BodyFrame>, now: u128) -> (r: ThrottleStep)
        requires
            old(self)@.held is Some ==> arrived is None,
        ensures
            (final(self)@, r@) == polled(old(self)@, frame::frame_opt(arrived), now),
            arrived is None && old(self)@.held is None ==> r is Ask && final(self)@ == old(self)@,
            arrived matches Some(f) ==> (r matches ThrottleStep::Ready(x) && x@ == f@) || (r is Wait && final(self)@.held
                == Some(f@)),
            old(self)@.held matches Some(f) ==> (r matches ThrottleStep::Ready(x) && x@ == f) || (r is Wait && final(self)@.held == Some(f)),
            r is Ready ==> final(self)@.held is None,
            old(self)@.last_frame_at is None || old(self)@.bytes_per_sec == 0 ==> r !is Wait,
            final(self)@.bytes_per_sec == old(self)@.bytes_per_sec,
    {
        let mut at_hand = arrived;
        if self.held.is_some() {
            at_hand = self.held.take();
        }
        match at_hand {
            None => ThrottleStep::Ask,
            Some(f) => {
                let bytes: usize = f.data_len();
                let left: u128 = self.time_left(bytes, now);
                if left > 0 {
                    self.held = Some(f);
                    return ThrottleStep::Wait(left);
                }
                if bytes > 0 && self.bytes_per_sec > 0 {
                    self.last_frame_at = Some(now);
                }
                ThrottleStep::Ready(f)
            },
        }
    }

    /// Whether a frame is held.
    pub fn is_holding(&self) -> (r: bool)
        ensures
            r == (self@.held is Some),
    {
        self.held.is_some()
    }

    /// Whether the body is over: the one behind it is, and nothing is held.
    pub fn is_end_stream(&self, inner_ended: bool) -> (r: bool)
        ensures
            r == (inner_ended && self@.held is None),
    {
        inner_ended && self.held.is_none()
    }
}

/// A frame goes out no earlier than its bytes take at the rate after the frame before it, but for
/// less than a microsecond, so the rate is kept.
pub proof fn law_rate_is_kept(t: ThrottleView, bytes: nat, last: u128, now: u128)
    requires
        t.bytes_per_sec > 0,
        bytes > 0,
        t.last_frame_at == Some(last),
        last <= now,
        wait(t, bytes, now) == 0,
    ensures
        bytes * 1_000_000_000 < (now - last + 1000) * t.bytes_per_sec,
{
    let rate = t.bytes_per_sec as nat;
    let micros = bytes * 1_000_000 / rate;
    assert(micros * 1000 <= now - last);
    vstd::arithmetic::div_mod::lemma_fundamental_div_mod((bytes * 1_000_000) as int, rate as int);
    vstd::arithmetic::div_mod::lemma_mod_bound((bytes * 1_000_000) as int, rate as int);
    assert(rate * micros * 1000 <= rate * (now - last)) by (nonlinear_arith)
        requires
            micros * 1000 <= now - last,
            rate >= 0,
    ;
    assert((now - last + 1000) * rate == rate * (now - last) + 1000 * rate) by (nonlinear_arith);
}

/// After waiting as long as it was told a frame goes out, on a clock that does not run backwards.
pub proof fn law_waiting_is_enough(t: ThrottleView, bytes: nat, now: u128, later: u128)
    requires
        t.last_frame_at matches Some(last) ==> last <= now,
        later >= now + wait(t, bytes, now),
    ensures
        wait(t, bytes, later) == 0,
{
}

/// One time that a throttled body is asked for a frame.
pub struct Asking {
    pub arrived: Option<FrameView>,
    pub now: u128,
}

/// A throttled body after it was asked some times.
pub open spec fn asked(t: ThrottleView, polls: Seq<Asking>) -> ThrottleView
    decreases polls.len(),
{
    if polls.len() == 0 {
        t
    } else {
        polled(asked(t, polls.drop_last()), polls.last().arrived, polls.last().now).0
    }
}

/// The frames that arrived.
pub open spec fn arrivals(polls: Seq<Asking>) -> Seq<FrameView>
    decreases polls.len(),
{
    if polls.len() == 0 {
        Seq::empty()
    } else {
        arrivals(polls.drop_last()) + frame::listed(polls.last().arrived)
    }
}

/// The frames that went out.
pub open spec fn departures(t: ThrottleView, polls: Seq<Asking>) -> Seq<FrameView>
    decreases polls.len(),
{
    if polls.len() == 0 {
        Seq::empty()
    } else {
        let before = polls.drop_last();
        departures(t, before) + match polled(asked(t, before), polls.last().arrived, polls.last().now).1 {
            ThrottleStepView::Ready(f) => seq![f],
            _ => Seq::empty(),
        }
    }
}

/// Whether nothing arrived while a frame was held.
pub open spec fn in_turn(t: ThrottleView, polls: Seq<Asking>) -> bool
    decreases polls.len(),
{
    polls.len() > 0 ==> {
        &&& in_turn(t, polls.drop_last())
        &&& asked(t, polls.drop_last()).held is Some ==> polls.last().arrived is None
    }
}

/// Throttling delays frames, but loses, adds and reorders none: what went out and what is held are
/// what arrived, frame by frame and byte by byte.
pub proof fn law_throttling_keeps_every_frame(t: ThrottleView, polls: Seq<Asking>)
    requires
        t.held is None,
        in_turn(t, polls),
    ensures
        departures(t, polls) + frame::listed(asked(t, polls).held) == arrivals(polls),
        asked(t, polls).held is None ==> departures(t, polls) == arrivals(polls),
        frame::data_in(departures(t, polls)) + frame::data_in(frame::listed(asked(t, polls).held)) == frame::data_in(
            arrivals(polls),
        ),
    decreases polls.len(),
{
    if polls.len() > 0 {
        let before = polls.drop_last();
        law_throttling_keeps_every_frame(t, before);
        let state = asked(t, before);
        let arrived = polls.last().arrived;
        if state.held is Some {
            assert(frame::listed(arrived) =~= Seq::empty());
        } else {
            assert(departures(t, before) =~= arrivals(before));
        }
    }
    assert(departures(t, polls) + frame::listed(asked(t, polls).held) =~= arrivals(polls));
    if asked(t, polls).held is None {
        assert(departures(t, polls) =~= arrivals(polls));
    }
    frame::lemma_data_concat(departures(t, polls), frame::listed(asked(t, polls).held));
}

/// The rate a rule has set for an exchange: a positive number of bytes per second.
pub open spec fn rate_of(meta: Map<Seq<char>, Seq<char>>) -> Option<nat> {
    if meta.dom().contains("throttle_bytes_per_sec"@) {
        match text::unsigned(meta["throttle_bytes_per_sec"@], u64::MAX as nat) {
            Some(n) => if n > 0 {
                Some(n)
            } else {
                None
            },
            None => None,
        }
    } else {
        None
    }
}

/// The rate a rule has set for an exchange.
pub fn throttle_rate(meta: &TextMap) -> (r: Option<u64>)
    ensures
        match r {
            Some(n) => rate_of(meta@) == Some(n as nat),
            None => rate_of(meta@) is None,
        },
        !meta@.dom().contains("throttle_bytes_per_sec"@) ==> r is None,
        meta@.dom().contains("throttle_bytes_per_sec"@) ==> (text::unsigned(
            meta@["throttle_bytes_per_sec"@],
            u64::MAX as nat,
        ) matches Some(n) ==> (n > 0 ==> r == Some(n as u64)) && (n == 0 ==> r is None)),
        r matches Some(n) ==> n > 0,
{
    match meta.get("throttle_bytes_per_sec") {
        Some(v) => match text::parse_unsigned(v.as_str(), u64::MAX) {
            Some(n) => if n > 0 {
                Some(n)
            } else {
                None
            },
            None => None,
        },
        None => None,
    }
}

/// No frame waits longer than its bytes take at the rate.
pub proof fn law_no_frame_waits_longer_than_it_takes(t: ThrottleView, bytes: nat, now: u128)
    ensures
        t.bytes_per_sec > 0 ==> wait(t, bytes, now) * t.bytes_per_sec <= bytes * 1_000_000_000,
        t.bytes_per_sec == 0 ==> wait(t, bytes, now) == 0,
        t.last_frame_at is None ==> wait(t, bytes, now) == 0,
{
    if t.bytes_per_sec > 0 {
        let rate = t.bytes_per_sec as nat;
        let micros = bytes * 1_000_000 / rate;
        vstd::arithmetic::div_mod::lemma_fundamental_div_mod((bytes * 1_000_000) as int, rate as int);
        vstd::arithmetic::div_mod::lemma_mod_bound((bytes * 1_000_000) as int, rate as int);
        let w = wait(t, bytes, now);
        assert(w <= micros * 1000);
        assert(w * rate <= micros * 1000 * rate) by (nonlinear_arith)
            requires
                w <= micros * 1000,
                rate >= 0,
        ;
        assert(micros * 1000 * rate == (rate * micros) * 1000) by (nonlinear_arith);
    }
}

/// The longer the frame before it is gone, the shorter a frame waits.
pub proof fn law_time_shortens_the_wait(t: ThrottleView, bytes: nat, now: u128, later: u128)
    requires
        now <= later,
    ensures
        wait(t, bytes, later) <= wait(t, bytes, now),
{
}

} // verus!
