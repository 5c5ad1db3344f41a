//! The frames a body is made of.
use vstd::prelude::*;

use crate::headers;

verus! {

/// One frame of a body: some of its bytes, or the fields that come after them.
#[derive(Debug)]
pub enum BodyFrame {
    Data(Vec<u8>),
    Trailers(hyper::HeaderMap),
}

/// What a frame holds.
#[verifier::ext_equal]
pub enum FrameView {
    Data(Seq<u8>),
    Trailers(Seq<(Seq<char>, Seq<Seq<u8>>)>),
}

impl View for BodyFrame {
    type V = FrameView;

    open spec fn view(&self) -> FrameView {
        match *self {
            BodyFrame::Data(d) => FrameView::Data(d@),
            BodyFrame::Trailers(m) => FrameView::Trailers(headers::header_entries(m)),
        }
    }
}

/// What an optional frame holds.
pub open spec fn frame_opt(f: Option<BodyFrame>) -> Option<FrameView> {
    match f {
        Some(x) => Some(x@),
        None => None,
    }
}

/// An optional frame as a list.
pub open spec fn listed(f: Option<FrameView>) -> Seq<FrameView> {
    match f {
        Some(x) => seq![x],
        None => Seq::empty(),
    }
}

/// The bytes of a frame; trailers have none.
pub open spec fn data_of(f: FrameView) -> Seq<u8> {
    match f {
        FrameView::Data(d) => d,
        FrameView::Trailers(_) => Seq::empty(),
    }
}

/// The bytes of some frames one after the other.
pub open spec fn data_in(frames: Seq<FrameView>) -> Seq<u8>
    decreases frames.len(),
{
    if frames.len() == 0 {
        Seq::empty()
    } else {
        data_in(frames.drop_last()) + data_of(frames.last())
    }
}

impl BodyFrame {
    /// How many bytes the frame has.
    pub fn data_len(&self) -> (r: usize)
        ensures
            r == data_of(self@).len(),
            self matches BodyFrame::Data(d) ==> r == d@.len(),
            self is Trailers ==> r == 0,
    {
        match self {
            BodyFrame::Data(d) => d.len(),
            BodyFrame::Trailers(_) => 0,
        }
    }
}

/// The bytes of two lists of frames are those of the one and then those of the other.
pub proof fn lemma_data_concat(a: Seq<FrameView>, b: Seq<FrameView>)
    ensures
        data_in(a + b) == data_in(a) + data_in(b),
    decreases b.len(),
{
    if b.len() == 0 {
        assert(a + b =~= a);
        assert(data_in(a) + data_in(b) =~= data_in(a));
    } else {
        assert((a + b).drop_last() =~= a + b.drop_last());
        lemma_data_concat(a, b.drop_last());
        assert(data_in(a + b) =~= data_in(a) + data_in(b));
    }
}

/// The bytes of some frames are those of their data in order, and trailers add none.
pub proof fn law_frames_give_their_data_in_order(frames: Seq<FrameView>, data: Seq<u8>, entries: Seq<(Seq<char>, Seq<Seq<u8>>)>)
    ensures
        data_in(frames.push(FrameView::Data(data))) == data_in(frames) + data,
        data_in(frames.push(FrameView::Trailers(entries))) == data_in(frames),
{
    assert(frames.push(FrameView::Data(data)).drop_last() =~= frames);
    assert(frames.push(FrameView::Trailers(entries)).drop_last() =~= frames);
    assert(data_in(frames) + Seq::<u8>::empty() =~= data_in(frames));
}

} // verus!
