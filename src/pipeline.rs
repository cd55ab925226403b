//! One step of the streaming pipeline: a decoded message goes to the
//! aggregator, and the session decides what comes next.

use vstd::prelude::*;
use crate::aggregator::{counters_fit, current_time_millis, observed, Aggregator, Observation};
use crate::decode::WireMessage;
use crate::transport::{StreamAction, StreamEvent, StreamSession};

verus! {

/// Hands a message read while streaming to the aggregator and the session.
/// A flashblock is observed at `now` (unless a counter of its assembly would
/// overflow) and counts as a fragment; anything else is ignored.
pub fn ingest(
    agg: &mut Aggregator,
    session: &mut StreamSession,
    msg: WireMessage,
    now: i64,
) -> (r: (StreamAction, Option<Observation>))
    requires
        old(agg).wf(),
        old(session).wf(),
    ensures
        final(agg).wf(),
        final(session).wf(),
        final(agg).spec_capacity() == old(agg).spec_capacity(),
        match msg {
            WireMessage::Flashblock(fb) => {
                &&& (*final(session), r.0) == old(session).next(StreamEvent::Fragment { initial: fb.index == 0 })
                &&& counters_fit(old(agg)@, fb) ==> {
                    &&& final(agg)@ == observed(old(agg)@, fb, now as int, old(agg).spec_capacity())
                    &&& r.1.is_some()
                }
                &&& !counters_fit(old(agg)@, fb) ==> final(agg)@ == old(agg)@ && r.1.is_none()
            },
            _ => {
                &&& (*final(session), r.0) == old(session).next(StreamEvent::Ignored)
                &&& final(agg)@ == old(agg)@
                &&& r.1.is_none()
            },
        },
{
    match msg {
        WireMessage::Flashblock(fb) => {
            let observation = if agg.can_observe(&fb) {
                Some(agg.observe(&fb, now))
            } else {
                None
            };
            let action = session.step(StreamEvent::Fragment { initial: fb.index == 0 });
            (action, observation)
        },
        _ => (session.step(StreamEvent::Ignored), None),
    }
}

/// Like `ingest`, with the current time.
pub fn ingest_now(
    agg: &mut Aggregator,
    session: &mut StreamSession,
    msg: WireMessage,
) -> (r: (StreamAction, Option<Observation>))
    requires
        old(agg).wf(),
        old(session).wf(),
    ensures
        final(agg).wf(),
        final(session).wf(),
        final(agg).spec_capacity() == old(agg).spec_capacity(),
        match msg {
            WireMessage::Flashblock(fb) => {
                &&& (*final(session), r.0) == old(session).next(StreamEvent::Fragment { initial: fb.index == 0 })
                &&& counters_fit(old(agg)@, fb) ==> {
                    &&& exists|now: int| final(agg)@ == observed(old(agg)@, fb, now, old(agg).spec_capacity())
                    &&& r.1.is_some()
                }
                &&& !counters_fit(old(agg)@, fb) ==> final(agg)@ == old(agg)@ && r.1.is_none()
            },
            _ => {
                &&& (*final(session), r.0) == old(session).next(StreamEvent::Ignored)
                &&& final(agg)@ == old(agg)@
                &&& r.1.is_none()
            },
        },
{
    let now = current_time_millis();
    ingest(agg, session, msg, now)
}

} // verus!
