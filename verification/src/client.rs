//! The head of the chain: it starts the trace.

use vstd::prelude::*;
use vstd::string::*;
use tonic::metadata::MetadataMap;
use crate::call_site::{closing_span, finish_call, outbound_outcome, outbound_sure};
use crate::carrier::{carrier_entries, carrier_size, carrier_values};
use crate::propagator::{injected_entries, injected_values};
use crate::exporter::{enqueued, Exporter};
use crate::first_server::failure;
use crate::tracker::{after_end, after_start, finished, is_current, opened, SpanHandle, SpanTracker};

verus! {

/// The name of the client's span.
pub open spec fn greet_name() -> Seq<char> {
    seq!['g', 'r', 'e', 'e', 't']
}

/// The part of one greeting that comes before the call: starts a span named
/// `greet`, under the current span or as the root of a new trace, and writes
/// its context into the outbound carrier.
pub fn greet_begin(
    tracker: &mut SpanTracker,
    outbound: &mut MetadataMap,
    raw_trace: u128,
    raw_span: u64,
    now: u64,
) -> (handle: SpanHandle)
    requires
        old(tracker).wf(),
        old(tracker)@.started < u64::MAX,
    ensures
        final(tracker).wf(),
        final(tracker)@ == after_start(
            old(tracker)@,
            opened(old(tracker)@, greet_name(), None, raw_trace, raw_span, now),
        ),
        handle.serial == old(tracker)@.started,
        is_current(final(tracker)@, handle.serial),
        outbound_outcome(final(tracker)@, carrier_values(*old(outbound)), carrier_values(*final(outbound))),
        outbound_sure(final(tracker)@, *old(outbound)) ==> carrier_values(*final(outbound)) == injected_values(
            carrier_values(*old(outbound)),
            final(tracker)@.open.last().context,
        ),
        outbound_sure(final(tracker)@, *old(outbound)) ==> carrier_entries(*final(outbound)) == injected_entries(
            carrier_entries(*old(outbound)),
            final(tracker)@.open.last().context,
        ),
        carrier_size(*final(outbound)) <= carrier_size(*old(outbound)) + 2,
{
    proof {
        reveal_strlit("greet");
    }
    let span_name = String::from_str("greet");
    assert(span_name@ =~= greet_name());
    let handle = tracker.start_span_with(span_name, None, raw_trace, raw_span, now);
    crate::call_site::prepare_outbound(tracker, outbound);
    handle
}

/// The part of one greeting that comes after the server answered or failed:
/// ends the span, with the failure as its `error` attribute, and returns the
/// failure unchanged.
pub fn greet_end(
    tracker: &mut SpanTracker,
    handle: &SpanHandle,
    response: Result<String, String>,
    now: u64,
    exporter: &mut Exporter,
) -> (outcome: Result<String, String>)
    requires
        old(tracker).wf(),
        old(exporter).wf(),
    ensures
        outcome == response,
        final(tracker).wf(),
        final(exporter).wf(),
        final(tracker)@ == after_end(old(tracker)@, handle.serial),
        final(exporter)@ == if is_current(old(tracker)@, handle.serial) {
            enqueued(old(exporter)@, finished(closing_span(old(tracker)@.open.last(), failure(response)), now))
        } else {
            old(exporter)@
        },
{
    let error: Option<String> = match &response {
        Ok(_) => None,
        Err(m) => Some(m.clone()),
    };
    finish_call(tracker, handle, error, now, exporter);
    response
}

} // verus!
