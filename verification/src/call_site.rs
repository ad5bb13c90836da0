//! The steps that every call site takes around one RPC, in their order:
//! read the caller's context, start a span under it, write the span's own
//! context into the outbound call, and end the span on every way out.

use vstd::prelude::*;
use vstd::string::*;
use tonic::metadata::MetadataMap;
use crate::carrier::{carrier_entries, carrier_size, carrier_values};
use crate::context::{nonzero128, ContextView};
use crate::exporter::{enqueued, Exporter};
use crate::ids::{random_span_id, random_trace_id};
use crate::propagator::{carried_context, extract_carried, inject, inject_outcome, injected_entries, injected_values, injects, lemma_round_trip};
use crate::tracker::{after_end, after_start, child_context, finished, is_current, parent_link, span_under, with_attribute, OpenView, SpanHandle, SpanTracker, TrackerView};

verus! {

/// The name of the attribute that a failed call leaves on its span.
pub open spec fn error_key() -> Seq<char> {
    seq!['e', 'r', 'r', 'o', 'r']
}

/// The span that a handler opens for an inbound call: a child of the context
/// that the carrier holds, whatever span is current; the root of a new trace,
/// without a parent, where the carrier holds none or a malformed one.
pub open spec fn inbound_span(
    t: TrackerView,
    entries: Map<Seq<char>, Seq<char>>,
    name: Seq<char>,
    raw_trace: u128,
    raw_span: u64,
    now: u64,
) -> OpenView {
    span_under(t.started as u64, name, carried_context(entries), raw_trace, raw_span, now)
}

/// Begins the handling of an inbound call: reads the caller's context from
/// the carrier and starts a span under it. Where the carrier holds no context
/// or a malformed one, the span is the root of a new trace whose identifier
/// is `raw_trace`, or one where that is zero, and has no parent.
pub fn begin_call_with(
    tracker: &mut SpanTracker,
    inbound: &MetadataMap,
    name: String,
    raw_trace: u128,
    raw_span: u64,
    now: u64,
) -> (handle: SpanHandle)
    requires
        old(tracker).wf(),
        old(tracker)@.started < u64::MAX,
    ensures
        final(tracker).wf(),
        final(tracker)@ == after_start(
            old(tracker)@,
            inbound_span(old(tracker)@, carrier_entries(*inbound), name@, raw_trace, raw_span, now),
        ),
        handle.serial == old(tracker)@.started,
        is_current(final(tracker)@, handle.serial),
        carried_context(carrier_entries(*inbound)) is None ==> final(tracker)@.open.last().parent_span_id is None
            && final(tracker)@.open.last().context.trace_id == nonzero128(raw_trace),
        carried_context(carrier_entries(*inbound)) matches Some(c) ==> final(tracker)@.open.last().parent_span_id
            == Some(c.span_id) && final(tracker)@.open.last().context.trace_id == c.trace_id,
{
    let parent = extract_carried(inbound);
    tracker.start_span_under(name, parent, raw_trace, raw_span, now)
}

/// Begins the handling of an inbound call with random identifiers.
pub fn begin_call(tracker: &mut SpanTracker, inbound: &MetadataMap, name: String, now: u64) -> (handle: SpanHandle)
    requires
        old(tracker).wf(),
        old(tracker)@.started < u64::MAX,
    ensures
        final(tracker).wf(),
        exists|raw_trace: u128, raw_span: u64|
            final(tracker)@ == after_start(
                old(tracker)@,
                #[trigger] inbound_span(old(tracker)@, carrier_entries(*inbound), name@, raw_trace, raw_span, now),
            ),
        handle.serial == old(tracker)@.started,
        carried_context(carrier_entries(*inbound)) is None ==> final(tracker)@.open.last().parent_span_id is None,
        carried_context(carrier_entries(*inbound)) matches Some(c) ==> final(tracker)@.open.last().parent_span_id
            == Some(c.span_id) && final(tracker)@.open.last().context.trace_id == c.trace_id,
{
    let raw_trace = random_trace_id();
    let raw_span = random_span_id();
    begin_call_with(tracker, inbound, name, raw_trace, raw_span, now)
}

/// What `prepare_outbound` may leave in a carrier, whatever its size:
/// nothing new without a current span; else what `inject` may leave of the
/// current span's context.
pub open spec fn outbound_outcome(
    t: TrackerView,
    before: Map<Seq<char>, Seq<Seq<char>>>,
    after: Map<Seq<char>, Seq<Seq<char>>>,
) -> bool {
    if t.open.len() == 0 {
        after == before
    } else {
        inject_outcome(before, t.open.last().context, after)
    }
}

/// Whether `prepare_outbound` is sure to write the current span's context
/// in full: there is a current span and the carrier takes two more keys.
pub open spec fn outbound_sure(t: TrackerView, m: MetadataMap) -> bool {
    t.open.len() > 0 && injects(m, t.open.last().context)
}

/// Writes the context of the current span, not that of the inbound call,
/// into the carrier of an outbound call.
pub fn prepare_outbound(tracker: &SpanTracker, outbound: &mut MetadataMap)
    requires
        tracker.wf(),
    ensures
        outbound_outcome(tracker@, carrier_values(*old(outbound)), carrier_values(*final(outbound))),
        outbound_sure(tracker@, *old(outbound)) ==> carrier_values(*final(outbound)) == injected_values(
            carrier_values(*old(outbound)),
            tracker@.open.last().context,
        ),
        outbound_sure(tracker@, *old(outbound)) ==> carrier_entries(*final(outbound)) == injected_entries(
            carrier_entries(*old(outbound)),
            tracker@.open.last().context,
        ),
        carrier_size(*final(outbound)) <= carrier_size(*old(outbound)) + 2,
{
    match tracker.current() {
        Some(ctx) => {
            inject(&ctx, outbound);
        },
        None => {},
    }
}

/// The open span as it is when its call ends: with the error attribute where
/// the call failed.
pub open spec fn closing_span(o: OpenView, error: Option<Seq<char>>) -> OpenView {
    match error {
        Some(message) => with_attribute(o, error_key(), message),
        None => o,
    }
}

/// The value of an optional error message.
pub open spec fn error_view(error: Option<String>) -> Option<Seq<char>> {
    match error {
        Some(m) => Some(m@),
        None => None,
    }
}

/// Ends the handling of a call, failed or not. Where `handle` names the
/// current span, the span ends, with the error message as its `error`
/// attribute where there is one, and goes to the exporter once. Where it
/// does not, as after an earlier end, nothing changes.
pub fn finish_call(
    tracker: &mut SpanTracker,
    handle: &SpanHandle,
    error: Option<String>,
    now: u64,
    exporter: &mut Exporter,
) -> (ended: bool)
    requires
        old(tracker).wf(),
        old(exporter).wf(),
    ensures
        final(tracker).wf(),
        final(exporter).wf(),
        ended == is_current(old(tracker)@, handle.serial),
        final(tracker)@ == after_end(old(tracker)@, handle.serial),
        final(exporter)@ == if ended {
            enqueued(old(exporter)@, finished(closing_span(old(tracker)@.open.last(), error_view(error)), now))
        } else {
            old(exporter)@
        },
{
    proof {
        reveal_strlit("error");
    }
    let ghost before = tracker@;
    match error {
        Some(message) => {
            let key = String::from_str("error");
            assert(key@ =~= error_key());
            tracker.set_attribute(handle, key, message);
        },
        None => {},
    }
    let ended = tracker.end_span(handle, now, exporter);
    proof {
        if is_current(before, handle.serial) {
            assert(tracker@.open =~= before.open.drop_last());
        }
    }
    ended
}

/// A child of a valid context is valid, keeps the trace and points at its
/// parent.
pub proof fn lemma_child(parent: ContextView, raw_trace: u128, raw_span: u64)
    requires
        parent.valid(),
    ensures
        child_context(Some(parent), raw_trace, raw_span).trace_state == parent.trace_state,
        child_context(Some(parent), raw_trace, raw_span).valid(),
        child_context(Some(parent), raw_trace, raw_span).trace_id == parent.trace_id,
        parent_link(Some(parent)) == Some(parent.span_id),
{
}

/// Along a chain of a client and two servers, where each hop writes the
/// context of its own span into an empty carrier and the next hop reads it,
/// and the client's vendor entries are portable:
/// the first server's span has the client's span as its parent, the second
/// server's span has the first server's span as its parent, and all three
/// share the client's trace.
pub proof fn lemma_parent_linkage(
    client: ContextView,
    raw_trace_1: u128,
    raw_span_1: u64,
    raw_trace_2: u128,
    raw_span_2: u64,
)
    requires
        client.valid(),
        crate::trace_state::portable(client.trace_state),
    ensures
        ({
            let sent_1 = injected_entries(Map::empty(), client);
            let first = span_under(0, Seq::empty(), carried_context(sent_1), raw_trace_1, raw_span_1, 0);
            let sent_2 = injected_entries(Map::empty(), first.context);
            let second = span_under(0, Seq::empty(), carried_context(sent_2), raw_trace_2, raw_span_2, 0);
            &&& first.parent_span_id == Some(client.span_id)
            &&& second.parent_span_id == Some(first.context.span_id)
            &&& first.context.trace_id == client.trace_id
            &&& second.context.trace_id == client.trace_id
        }),
{
    let empty = Map::<Seq<char>, Seq<char>>::empty();
    lemma_round_trip(empty, client);
    let first = child_context(Some(client), raw_trace_1, raw_span_1);
    lemma_child(client, raw_trace_1, raw_span_1);
    lemma_round_trip(empty, first);
}

/// A handler whose inbound carrier holds no context, or a malformed one,
/// opens the root of a new trace: a span without a parent, under a trace
/// identifier that is not read from the carrier.
pub proof fn lemma_fallback_is_root(
    t: TrackerView,
    entries: Map<Seq<char>, Seq<char>>,
    name: Seq<char>,
    raw_trace: u128,
    raw_span: u64,
    now: u64,
)
    requires
        carried_context(entries) is None,
    ensures
        inbound_span(t, entries, name, raw_trace, raw_span, now).parent_span_id is None,
        inbound_span(t, entries, name, raw_trace, raw_span, now).context.trace_id == nonzero128(raw_trace),
        inbound_span(t, entries, name, raw_trace, raw_span, now).context.valid(),
{
}

/// After a call was finished, to finish it again changes nothing: its span
/// is closed exactly once.
pub proof fn lemma_finish_once(t: TrackerView, serial: u64)
    requires
        crate::tracker::well_formed(t),
    ensures
        !is_current(after_end(t, serial), serial),
        after_end(after_end(t, serial), serial) == after_end(t, serial),
{
    crate::tracker::lemma_end_twice(t, serial);
}

} // verus!
