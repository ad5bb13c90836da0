//! The middle hop of the chain: it hands the call on and returns what the
//! next hop answered.

use vstd::prelude::*;
use vstd::string::*;
use tonic::metadata::MetadataMap;
use crate::call_site::{begin_call_with, closing_span, finish_call, inbound_span, outbound_outcome, outbound_sure};
use crate::carrier::{carrier_entries, carrier_size, carrier_values};
use crate::propagator::{injected_entries, injected_values};
use crate::exporter::{enqueued, Exporter};
use crate::second_server::handler_name;
use crate::tracker::{after_end, after_start, finished, is_current, SpanHandle, SpanTracker};

verus! {

/// The greeter of the first hop.
pub struct MyGreeter {}

/// The value of what the next hop answered: the error message, if it failed.
pub open spec fn failure(downstream: Result<String, String>) -> Option<Seq<char>> {
    match downstream {
        Ok(_) => None,
        Err(m) => Some(m@),
    }
}

impl MyGreeter {
    /// A greeter. It holds no state: what a call needs is handed to it.
    pub fn new() -> (g: MyGreeter) {
        MyGreeter {  }
    }

    /// The part of one handled call that comes before the call to the next
    /// hop: starts a span named `say_hello` under the caller's context, and
    /// writes that span's own context into the outbound carrier.
    pub fn say_hello_begin(
        &self,
        tracker: &mut SpanTracker,
        inbound: &MetadataMap,
        outbound: &mut MetadataMap,
        raw_trace: u128,
        raw_span: u64,
        now: u64,
    ) -> (handle: SpanHandle)
        requires
            old(tracker).wf(),
            old(tracker)@.started < u64::MAX,
        ensures
            final(tracker).wf(),
            final(tracker)@ == after_start(
                old(tracker)@,
                inbound_span(
                    old(tracker)@,
                    carrier_entries(*inbound),
                    handler_name(),
                    raw_trace,
                    raw_span,
                    now,
                ),
            ),
            handle.serial == old(tracker)@.started,
            is_current(final(tracker)@, handle.serial),
            outbound_outcome(final(tracker)@, carrier_values(*old(outbound)), carrier_values(*final(outbound))),
            outbound_sure(final(tracker)@, *old(outbound)) ==> carrier_values(*final(outbound)) == injected_values(
                carrier_values(*old(outbound)),
                final(tracker)@.open.last().context,
            ),
            outbound_sure(final(tracker)@, *old(outbound)) ==> carrier_entries(*final(outbound)) == injected_entries(
                carrier_entries(*old(outbound)),
                final(tracker)@.open.last().context,
            ),
            carrier_size(*final(outbound)) <= carrier_size(*old(outbound)) + 2,
    {
        proof {
            reveal_strlit("say_hello");
        }
        let span_name = String::from_str("say_hello");
        assert(span_name@ =~= handler_name());
        let handle = begin_call_with(tracker, inbound, span_name, raw_trace, raw_span, now);
        crate::call_site::prepare_outbound(tracker, outbound);
        handle
    }

    /// The part of one handled call that comes after the next hop answered or
    /// failed: ends the span, with the failure as its `error` attribute, and
    /// returns the answer or the failure unchanged.
    pub fn say_hello_end(
        &self,
        tracker: &mut SpanTracker,
        handle: &SpanHandle,
        downstream: Result<String, String>,
        now: u64,
        exporter: &mut Exporter,
    ) -> (reply: Result<String, String>)
        requires
            old(tracker).wf(),
            old(exporter).wf(),
        ensures
            reply == downstream,
            final(tracker).wf(),
            final(exporter).wf(),
            final(tracker)@ == after_end(old(tracker)@, handle.serial),
            final(exporter)@ == if is_current(old(tracker)@, handle.serial) {
                enqueued(old(exporter)@, finished(closing_span(old(tracker)@.open.last(), failure(downstream)), now))
            } else {
                old(exporter)@
            },
    {
        let error: Option<String> = match &downstream {
            Ok(_) => None,
            Err(m) => Some(m.clone()),
        };
        finish_call(tracker, handle, error, now, exporter);
        downstream
    }
}

} // verus!
