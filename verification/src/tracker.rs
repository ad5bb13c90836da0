//! The spans that are open in one logical call chain, innermost last.

use vstd::prelude::*;
use vstd::string::*;
use crate::context::{nonzero64, root_context, ContextView, TraceContext};
use crate::exporter::{enqueued, Exporter, Span, SpanView};
use crate::trace_state::entries_view;
use crate::ids::{random_span_id, random_trace_id};

verus! {

/// Names one started span of one tracker.
pub struct SpanHandle {
    pub serial: u64,
}

/// A span that has started and not ended.
pub struct OpenSpan {
    serial: u64,
    context: TraceContext,
    parent_span_id: Option<u64>,
    name: String,
    start_time: u64,
    attributes: Vec<(String, String)>,
}

/// The mathematical value of an open span.
pub struct OpenView {
    pub serial: u64,
    pub context: ContextView,
    pub parent_span_id: Option<u64>,
    pub name: Seq<char>,
    pub start_time: u64,
    pub attributes: Seq<(Seq<char>, Seq<char>)>,
}

impl View for OpenSpan {
    type V = OpenView;

    closed spec fn view(&self) -> OpenView {
        OpenView {
            serial: self.serial,
            context: self.context@,
            parent_span_id: self.parent_span_id,
            name: self.name@,
            start_time: self.start_time,
            attributes: entries_view(self.attributes@),
        }
    }
}

/// The open spans of one logical call chain. Each chain has a tracker of its
/// own, handed along by value or by reference; none is shared.
pub struct SpanTracker {
    open: Vec<OpenSpan>,
    started: u64,
}

/// The mathematical value of a tracker.
pub struct TrackerView {
    /// The open spans, outermost first; the last is the current one.
    pub open: Seq<OpenView>,
    /// How many spans were ever started.
    pub started: nat,
}

/// The context that a new span is parented on: the explicit parent where one
/// is given, else the current span, else none.
pub open spec fn parent_of(open: Seq<OpenView>, explicit: Option<ContextView>) -> Option<ContextView> {
    match explicit {
        Some(p) => Some(p),
        None => if open.len() > 0 { Some(open.last().context) } else { None },
    }
}

/// The context of a new span: under a parent it keeps the parent's trace,
/// flags and vendor entries and takes a new span identifier; without one it is
/// the root of a new trace.
pub open spec fn child_context(parent: Option<ContextView>, raw_trace: u128, raw_span: u64) -> ContextView {
    match parent {
        Some(p) => ContextView {
            trace_id: p.trace_id,
            span_id: nonzero64(raw_span),
            trace_flags: p.trace_flags,
            trace_state: p.trace_state,
        },
        None => root_context(raw_trace, raw_span),
    }
}

/// The parent link of a new span.
pub open spec fn parent_link(parent: Option<ContextView>) -> Option<u64> {
    match parent {
        Some(p) => Some(p.span_id),
        None => None,
    }
}

/// The span with the given serial that stands under `parent`, or is the
/// root of a new trace where there is none.
pub open spec fn span_under(
    serial: u64,
    name: Seq<char>,
    parent: Option<ContextView>,
    raw_trace: u128,
    raw_span: u64,
    now: u64,
) -> OpenView {
    OpenView {
        serial: serial,
        context: child_context(parent, raw_trace, raw_span),
        parent_span_id: parent_link(parent),
        name: name,
        start_time: now,
        attributes: Seq::empty(),
    }
}

/// The span that `start_span_with` opens: under the explicit parent, else
/// under the current span, else a root.
pub open spec fn opened(
    t: TrackerView,
    name: Seq<char>,
    explicit: Option<ContextView>,
    raw_trace: u128,
    raw_span: u64,
    now: u64,
) -> OpenView {
    span_under(t.started as u64, name, parent_of(t.open, explicit), raw_trace, raw_span, now)
}

/// A tracker after one more span was started.
pub open spec fn after_start(t: TrackerView, span: OpenView) -> TrackerView {
    TrackerView { open: t.open.push(span), started: t.started + 1 }
}

/// Whether `serial` names the current span.
pub open spec fn is_current(t: TrackerView, serial: u64) -> bool {
    t.open.len() > 0 && t.open.last().serial == serial
}

/// A tracker after the end of the span that `serial` names: where that span is
/// the current one it leaves, and the one beneath is current again; else
/// nothing changes.
pub open spec fn after_end(t: TrackerView, serial: u64) -> TrackerView {
    if is_current(t, serial) {
        TrackerView { open: t.open.drop_last(), started: t.started }
    } else {
        t
    }
}

/// The end of a span that started at `start`, read off a clock that shows
/// `now`: never before the start.
pub open spec fn end_time(start: u64, now: u64) -> u64 {
    if now < start { start } else { now }
}

/// The finished span that an open span becomes at `now`.
pub open spec fn finished(o: OpenView, now: u64) -> SpanView {
    SpanView {
        span_id: o.context.span_id,
        parent_span_id: o.parent_span_id,
        trace_id: o.context.trace_id,
        name: o.name,
        start_time: o.start_time,
        end_time: end_time(o.start_time, now),
        attributes: o.attributes,
    }
}

/// An open span with one more attribute.
pub open spec fn with_attribute(o: OpenView, key: Seq<char>, value: Seq<char>) -> OpenView {
    OpenView {
        serial: o.serial,
        context: o.context,
        parent_span_id: o.parent_span_id,
        name: o.name,
        start_time: o.start_time,
        attributes: o.attributes.push((key, value)),
    }
}

/// A tracker after an attribute was set on the span that `serial` names:
/// where that span is the current one it has the attribute; else nothing
/// changes.
pub open spec fn after_attribute(t: TrackerView, serial: u64, key: Seq<char>, value: Seq<char>) -> TrackerView {
    if is_current(t, serial) {
        TrackerView {
            open: t.open.drop_last().push(with_attribute(t.open.last(), key, value)),
            started: t.started,
        }
    } else {
        t
    }
}

/// Open spans carry valid contexts and serials that rise from the outermost
/// to the innermost, all below the number of spans ever started.
pub open spec fn well_formed(t: TrackerView) -> bool {
    &&& t.started <= u64::MAX
    &&& forall|i: int| 0 <= i < t.open.len() ==> (#[trigger] t.open[i]).serial < t.started
    &&& forall|i: int, j: int| 0 <= i < j < t.open.len() ==> (#[trigger] t.open[i]).serial < (#[trigger] t.open[j]).serial
    &&& forall|i: int| 0 <= i < t.open.len() ==> (#[trigger] t.open[i]).context.valid()
}

impl View for SpanTracker {
    type V = TrackerView;

    closed spec fn view(&self) -> TrackerView {
        TrackerView { open: Seq::new(self.open@.len(), |i: int| self.open@[i]@), started: self.started as nat }
    }
}

impl SpanTracker {
    /// The tracker's value is well formed.
    pub open spec fn wf(&self) -> bool {
        well_formed(self@)
    }

    /// A tracker with no open span.
    pub fn new() -> (t: SpanTracker)
        ensures
            t.wf(),
            t@ == (TrackerView { open: Seq::empty(), started: 0 }),
    {
        let t = SpanTracker { open: Vec::new(), started: 0 };
        assert(t@.open =~= Seq::empty());
        t
    }

    /// How many spans are open.
    pub fn depth(&self) -> (n: usize)
        ensures
            n == self@.open.len(),
    {
        self.open.len()
    }

    /// Whether one more span can be started: fewer than the largest `u64` were.
    pub fn can_start(&self) -> (b: bool)
        ensures
            b == (self@.started < u64::MAX),
    {
        self.started < u64::MAX
    }

    /// Starts a span under `parent`, whatever span is current, and makes it
    /// the current one; without a parent it is the root of a new trace. Its
    /// span identifier is `raw_span`, or one where that is zero; `raw_trace`
    /// is used only for a root.
    pub fn start_span_under(
        &mut self,
        name: String,
        parent: Option<TraceContext>,
        raw_trace: u128,
        raw_span: u64,
        now: u64,
    ) -> (handle: SpanHandle)
        requires
            old(self).wf(),
            old(self)@.started < u64::MAX,
            parent matches Some(p) ==> p.valid(),
        ensures
            final(self).wf(),
            final(self)@ == after_start(
                old(self)@,
                span_under(old(self)@.started as u64, name@, owned_view(parent), raw_trace, raw_span, now),
            ),
            handle.serial == old(self)@.started,
    {
        let ghost before = self@;
        let ghost parent_view = owned_view(parent);
        let span_id: u64 = if raw_span == 0 { 1 } else { raw_span };
        let (context, parent_span_id) = match parent {
            Some(p) => (TraceContext::new(p.trace_id, span_id, p.trace_flags, p.trace_state), Some(p.span_id)),
            None => (TraceContext::root(raw_trace, raw_span), None),
        };
        let serial = self.started;
        let span = OpenSpan { serial, context, parent_span_id, name, start_time: now, attributes: Vec::new() };
        assert(span@.attributes =~= Seq::empty());
        self.open.push(span);
        self.started = self.started + 1;
        proof {
            let target = span_under(before.started as u64, name@, parent_view, raw_trace, raw_span, now);
            assert(span@ == target);
            assert(self@.open =~= before.open.push(target));
        }
        SpanHandle { serial }
    }

    /// Starts a span and makes it the current one: under the explicit parent
    /// where one is given, else under the current span, else as the root of a
    /// new trace. Its span identifier is `raw_span`, or one where that is
    /// zero; `raw_trace` is used only where the span has no parent.
    pub fn start_span_with(
        &mut self,
        name: String,
        explicit_parent: Option<&TraceContext>,
        raw_trace: u128,
        raw_span: u64,
        now: u64,
    ) -> (handle: SpanHandle)
        requires
            old(self).wf(),
            old(self)@.started < u64::MAX,
            explicit_parent matches Some(p) ==> p.valid(),
        ensures
            final(self).wf(),
            final(self)@ == after_start(
                old(self)@,
                opened(old(self)@, name@, explicit_view(explicit_parent), raw_trace, raw_span, now),
            ),
            handle.serial == old(self)@.started,
    {
        let parent: Option<TraceContext> = match explicit_parent {
            Some(p) => Some(p.duplicate()),
            None => self.current(),
        };
        self.start_span_under(name, parent, raw_trace, raw_span, now)
    }

    /// Starts a span with random identifiers and makes it the current one.
    /// Its parent is the explicit one where given, else the current span; with
    /// neither it is the root of a new trace.
    pub fn start_span(&mut self, name: String, explicit_parent: Option<&TraceContext>, now: u64) -> (handle: SpanHandle)
        requires
            old(self).wf(),
            old(self)@.started < u64::MAX,
            explicit_parent matches Some(p) ==> p.valid(),
        ensures
            final(self).wf(),
            exists|raw_trace: u128, raw_span: u64|
                final(self)@ == after_start(
                    old(self)@,
                    #[trigger] opened(old(self)@, name@, explicit_view(explicit_parent), raw_trace, raw_span, now),
                ),
            handle.serial == old(self)@.started,
    {
        let raw_trace = random_trace_id();
        let raw_span = random_span_id();
        self.start_span_with(name, explicit_parent, raw_trace, raw_span, now)
    }

    /// The context of the current span; `None` where no span is open.
    pub fn current(&self) -> (c: Option<TraceContext>)
        requires
            self.wf(),
        ensures
            match c {
                Some(ctx) => self@.open.len() > 0 && ctx@ == self@.open.last().context && ctx.valid(),
                None => self@.open.len() == 0,
            },
    {
        let n = self.open.len();
        if n == 0 {
            None
        } else {
            assert(self@.open[n - 1] == self.open@[n - 1]@);
            Some(self.open[n - 1].context.duplicate())
        }
    }

    /// Sets an attribute on the span that `handle` names, where it is the
    /// current one; else does nothing.
    pub fn set_attribute(&mut self, handle: &SpanHandle, key: String, value: String) -> (done: bool)
        requires
            old(self).wf(),
        ensures
            final(self).wf(),
            done == is_current(old(self)@, handle.serial),
            final(self)@ == after_attribute(old(self)@, handle.serial, key@, value@),
    {
        let ghost before = self@;
        let n = self.open.len();
        if n == 0 {
            return false;
        }
        assert(self@.open[n - 1] == self.open@[n - 1]@);
        if self.open[n - 1].serial != handle.serial {
            return false;
        }
        let mut top = self.open.pop().unwrap();
        let ghost top_before = top@;
        assert(top_before == before.open.last());
        top.attributes.push((key, value));
        assert(top@.attributes =~= top_before.attributes.push((key@, value@)));
        self.open.push(top);
        proof {
            let target = after_attribute(before, handle.serial, key@, value@);
            assert(self@.open =~= target.open);
            assert forall|i: int| 0 <= i < self@.open.len() implies (#[trigger] self@.open[i]).context.valid() by {
                if i < n - 1 {
                    assert(self@.open[i] == before.open[i]);
                }
            }
            assert forall|i: int, j: int| 0 <= i < j < self@.open.len() implies (#[trigger] self@.open[i]).serial < (
            #[trigger] self@.open[j]).serial by {
                assert(self@.open[i].serial == before.open[i].serial);
                assert(self@.open[j].serial == before.open[j].serial);
            }
            assert forall|i: int| 0 <= i < self@.open.len() implies (#[trigger] self@.open[i]).serial < self@.started by {
                assert(self@.open[i].serial == before.open[i].serial);
            }
        }
        true
    }

    /// Ends the span that `handle` names, where it is the current one: the
    /// span beneath is current again, and the finished span goes to the
    /// exporter. Else, and so for a span that has ended before, does nothing.
    pub fn end_span(&mut self, handle: &SpanHandle, now: u64, exporter: &mut Exporter) -> (ended: bool)
        requires
            old(self).wf(),
            old(exporter).wf(),
        ensures
            final(self).wf(),
            final(exporter).wf(),
            ended == is_current(old(self)@, handle.serial),
            final(self)@ == after_end(old(self)@, handle.serial),
            final(exporter)@ == if ended {
                enqueued(old(exporter)@, finished(old(self)@.open.last(), now))
            } else {
                old(exporter)@
            },
    {
        let ghost before = self@;
        let n = self.open.len();
        if n == 0 {
            return false;
        }
        assert(self@.open[n - 1] == self.open@[n - 1]@);
        if self.open[n - 1].serial != handle.serial {
            return false;
        }
        let top = self.open.pop().unwrap();
        assert(top@ == before.open.last());
        let end: u64 = if now < top.start_time { top.start_time } else { now };
        let span = Span {
            span_id: top.context.span_id,
            parent_span_id: top.parent_span_id,
            trace_id: top.context.trace_id,
            name: top.name,
            start_time: top.start_time,
            end_time: end,
            attributes: top.attributes,
        };
        assert(span@ == finished(before.open.last(), now));
        exporter.enqueue(span);
        proof {
            assert(self@.open =~= before.open.drop_last());
            assert forall|i: int| 0 <= i < self@.open.len() implies (#[trigger] self@.open[i]) == before.open[i] by {}
        }
        true
    }
}

/// The value of an optional parent.
pub open spec fn owned_view(p: Option<TraceContext>) -> Option<ContextView> {
    match p {
        Some(c) => Some(c@),
        None => None,
    }
}

/// The value of an optional explicit parent.
pub open spec fn explicit_view(p: Option<&TraceContext>) -> Option<ContextView> {
    match p {
        Some(c) => Some(c@),
        None => None,
    }
}

/// Starting a span and ending it restores the tracker's open spans as they
/// were: the span that was current before is current again.
pub proof fn lemma_start_end_restores(t: TrackerView, span: OpenView)
    requires
        span.serial == t.started,
    ensures
        after_end(after_start(t, span), span.serial).open == t.open,
{
    assert(t.open.push(span).drop_last() =~= t.open);
}

/// Ending a span a second time changes nothing.
pub proof fn lemma_end_twice(t: TrackerView, serial: u64)
    requires
        well_formed(t),
    ensures
        after_end(after_end(t, serial), serial) == after_end(t, serial),
        !is_current(after_end(t, serial), serial),
{
    if is_current(t, serial) {
        let rest = t.open.drop_last();
        if rest.len() > 0 {
            assert(rest.last() == t.open[t.open.len() - 2]);
            assert(t.open[t.open.len() - 2].serial < t.open[t.open.len() - 1].serial);
        }
    }
}

/// The most recently started span is the current one, and its handle names
/// it.
pub proof fn lemma_started_is_current(t: TrackerView, span: OpenView)
    requires
        span.serial == t.started,
    ensures
        is_current(after_start(t, span), span.serial),
        after_start(t, span).open.last() == span,
{
}

} // verus!
