//! The stream of live events.
use vstd::prelude::*;

use crate::text;

verus! {

/// One event of the stream.
#[derive(Clone, Debug)]
pub struct SseFrame {
    pub event: String,
    pub data: String,
}

/// What came over one of the channels that feed the stream.
#[derive(Clone, Debug)]
pub enum Received {
    /// An item, as it is written out; nothing where it could not be.
    Item(Option<String>),
    /// The channel dropped so many items because the stream was too slow.
    Lagged(u64),
}

/// What the stream shows of an audit event or of a gap in them, and how many events to count as
/// dropped. An event that could not be written out is shown empty.
pub fn audit_frame(received: Received) -> (r: (SseFrame, u64))
    ensures
        match received {
            Received::Item(data) => r.0.event@ == "audit"@ && r.0.data@ == (match data {
                Some(s) => s@,
                None => Seq::empty(),
            }) && r.1 == 0,
            Received::Lagged(n) => r.0.event@ == "audit-lagged"@ && r.0.data@ == "some audit events were dropped"@
                && r.1 == n,
        },
{
    match received {
        Received::Item(data) => {
            let data = match data {
                Some(s) => s,
                None => String::new(),
            };
            (SseFrame { event: text::copy("audit"), data }, 0)
        },
        Received::Lagged(n) => (
            SseFrame { event: text::copy("audit-lagged"), data: text::copy("some audit events were dropped") },
            n,
        ),
    }
}

/// What the stream shows of a flow update, which names its own frame, or of a gap in them, and how
/// many updates to count as dropped. An update that could not be written out is not shown: an empty
/// frame would be dropped silently by whoever reads the stream.
pub fn flow_frame(received: Result<Option<SseFrame>, u64>) -> (r: (Option<SseFrame>, u64))
    ensures
        match received {
            Ok(frame) => r == (frame, 0u64),
            Err(n) => r.0 is Some && r.0->0.event@ == "lagged"@ && r.0->0.data@ == "some events were dropped"@ && r.1
                == n,
        },
{
    match received {
        Ok(frame) => (frame, 0),
        Err(n) => (
            Some(SseFrame { event: text::copy("lagged"), data: text::copy("some events were dropped") }),
            n,
        ),
    }
}

/// What the stream shows of a change in the life of the proxy.
pub fn lifecycle_frame(data: Option<String>) -> (r: SseFrame)
    ensures
        r.event@ == "lifecycle"@,
        r.data@ == (match data {
            Some(s) => s@,
            None => Seq::empty(),
        }),
{
    let data = match data {
        Some(s) => s,
        None => String::new(),
    };
    SseFrame { event: text::copy("lifecycle"), data }
}

} // verus!
