//! The last hop of the chain: it answers and calls nobody.

use vstd::prelude::*;
use vstd::string::*;
use tonic::metadata::MetadataMap;
use crate::call_site::{begin_call_with, finish_call, inbound_span};
use crate::context::nonzero64;
use crate::carrier::carrier_entries;
use crate::exporter::{enqueued, Exporter};
use crate::greeting::{greeting, greeting_text};
use crate::tracker::{after_end, after_start, finished, is_current, opened, SpanHandle, SpanTracker, TrackerView};

verus! {

/// The greeter of the second hop.
pub struct MyGreeter {}

/// The name of the span of one handled call.
pub open spec fn handler_name() -> Seq<char> {
    seq!['s', 'a', 'y', '_', 'h', 'e', 'l', 'l', 'o']
}

/// The name of the span of the slow step.
pub open spec fn work_name() -> Seq<char> {
    seq!['e', 'x', 'p', 'e', 'n', 's', 'i', 'v', 'e', '_', 'f', 'n']
}

/// Begins the slow step of a call: starts a span named `expensive_fn` under
/// the current span, and makes it the current one. The step itself, which
/// takes its time outside, comes between this and `expensive_fn_end`.
pub fn expensive_fn_begin(tracker: &mut SpanTracker, raw_trace: u128, raw_span: u64, now: u64) -> (handle:
    SpanHandle)
    requires
        old(tracker).wf(),
        old(tracker)@.started < u64::MAX,
    ensures
        final(tracker).wf(),
        final(tracker)@ == after_start(
            old(tracker)@,
            opened(old(tracker)@, work_name(), None, raw_trace, raw_span, now),
        ),
        handle.serial == old(tracker)@.started,
        is_current(final(tracker)@, handle.serial),
        old(tracker)@.open.len() > 0 ==> {
            let span = final(tracker)@.open.last();
            let above = old(tracker)@.open.last();
            &&& span.parent_span_id == Some(above.context.span_id)
            &&& span.context.trace_id == above.context.trace_id
            &&& span.context.span_id == nonzero64(raw_span)
        },
{
    proof {
        reveal_strlit("expensive_fn");
    }
    let span_name = String::from_str("expensive_fn");
    assert(span_name@ =~= work_name());
    tracker.start_span_with(span_name, None, raw_trace, raw_span, now)
}

/// Ends the slow step of a call: where `handle` names the current span, it
/// ends and goes to the exporter, and the span beneath is current again;
/// else nothing changes.
pub fn expensive_fn_end(tracker: &mut SpanTracker, handle: &SpanHandle, now: u64, exporter: &mut Exporter) -> (ended:
    bool)
    requires
        old(tracker).wf(),
        old(exporter).wf(),
    ensures
        final(tracker).wf(),
        final(exporter).wf(),
        ended == is_current(old(tracker)@, handle.serial),
        final(tracker)@ == after_end(old(tracker)@, handle.serial),
        final(exporter)@ == if ended {
            enqueued(old(exporter)@, finished(old(tracker)@.open.last(), now))
        } else {
            old(exporter)@
        },
{
    tracker.end_span(handle, now, exporter)
}

impl MyGreeter {
    /// A greeter. It holds no state: what a call needs is handed to it.
    pub fn new() -> (g: MyGreeter) {
        MyGreeter {  }
    }

    /// The part of one handled call that comes before its work: starts a span
    /// named `say_hello` under the caller's context, or as the root of a new
    /// trace made of `raw_trace` where the caller sent no usable context.
    pub fn say_hello_begin(
        &self,
        tracker: &mut SpanTracker,
        inbound: &MetadataMap,
        raw_trace: u128,
        raw_span: u64,
        now: u64,
    ) -> (handle: SpanHandle)
        requires
            old(tracker).wf(),
            old(tracker)@.started < u64::MAX,
        ensures
            final(tracker).wf(),
            final(tracker)@ == after_start(
                old(tracker)@,
                inbound_span(old(tracker)@, carrier_entries(*inbound), handler_name(), raw_trace, raw_span, now),
            ),
            handle.serial == old(tracker)@.started,
            is_current(final(tracker)@, handle.serial),
    {
        proof {
            reveal_strlit("say_hello");
        }
        let span_name = String::from_str("say_hello");
        assert(span_name@ =~= handler_name());
        begin_call_with(tracker, inbound, span_name, raw_trace, raw_span, now)
    }

    /// The part of one handled call that comes after its work: ends the span
    /// that `handle` names, where it is the current one, and returns the
    /// reply to `name`.
    pub fn say_hello_end(
        &self,
        tracker: &mut SpanTracker,
        handle: &SpanHandle,
        name: &str,
        now: u64,
        exporter: &mut Exporter,
    ) -> (reply: String)
        requires
            old(tracker).wf(),
            old(exporter).wf(),
        ensures
            reply@ == greeting_text(name@),
            final(tracker).wf(),
            final(exporter).wf(),
            final(tracker)@ == after_end(old(tracker)@, handle.serial),
            final(exporter)@ == if is_current(old(tracker)@, handle.serial) {
                enqueued(old(exporter)@, finished(old(tracker)@.open.last(), now))
            } else {
                old(exporter)@
            },
    {
        let reply = greeting(name);
        finish_call(tracker, handle, None, now, exporter);
        reply
    }

    /// Handles one call without a slow step: a span named `say_hello` under the caller's context
    /// covers the work, ends at `ended`, and goes to the exporter; the open
    /// spans are afterwards what they were. Where the caller sent no usable
    /// context, the span is the root of a new trace made of `raw_trace`.
    pub fn say_hello(
        &self,
        tracker: &mut SpanTracker,
        inbound: &MetadataMap,
        name: &str,
        raw_trace: u128,
        raw_span: u64,
        started: u64,
        ended: u64,
        exporter: &mut Exporter,
    ) -> (reply: String)
        requires
            old(tracker).wf(),
            old(tracker)@.started < u64::MAX,
            old(exporter).wf(),
        ensures
            reply@ == greeting_text(name@),
            final(tracker).wf(),
            final(tracker)@ == (TrackerView { open: old(tracker)@.open, started: old(tracker)@.started + 1 }),
            final(exporter).wf(),
            final(exporter)@ == enqueued(
                old(exporter)@,
                finished(
                    inbound_span(
                        old(tracker)@,
                        carrier_entries(*inbound),
                        handler_name(),
                        raw_trace,
                        raw_span,
                        started,
                    ),
                    ended,
                ),
            ),
    {
        let handle = self.say_hello_begin(tracker, inbound, raw_trace, raw_span, started);
        let reply = self.say_hello_end(tracker, &handle, name, ended, exporter);
        assert(tracker@.open =~= old(tracker)@.open);
        reply
    }
}

} // verus!
