//! Finished spans, and the bounded queue that holds them until they are shipped.

use vstd::prelude::*;
use crate::trace_state::entries_view;

verus! {

/// One finished unit of work.
pub struct Span {
    pub span_id: u64,
    pub parent_span_id: Option<u64>,
    pub trace_id: u128,
    pub name: String,
    pub start_time: u64,
    pub end_time: u64,
    /// Attribute names with their values, in the order they were set.
    pub attributes: Vec<(String, String)>,
}

/// The mathematical value of a finished span.
pub struct SpanView {
    pub span_id: u64,
    pub parent_span_id: Option<u64>,
    pub trace_id: u128,
    pub name: Seq<char>,
    pub start_time: u64,
    pub end_time: u64,
    pub attributes: Seq<(Seq<char>, Seq<char>)>,
}

impl View for Span {
    type V = SpanView;

    open spec fn view(&self) -> SpanView {
        SpanView {
            span_id: self.span_id,
            parent_span_id: self.parent_span_id,
            trace_id: self.trace_id,
            name: self.name@,
            start_time: self.start_time,
            end_time: self.end_time,
            attributes: entries_view(self.attributes@),
        }
    }
}

/// The values of a list of spans.
pub open spec fn spans_view(s: Seq<Span>) -> Seq<SpanView> {
    Seq::new(s.len(), |i: int| s[i]@)
}

/// A bounded queue of finished spans. A span that arrives at a full queue is
/// dropped and counted; nothing ever waits.
pub struct Exporter {
    queue: Vec<Span>,
    capacity: usize,
    dropped: u64,
}

/// The mathematical value of an `Exporter`.
pub struct ExporterView {
    pub queue: Seq<SpanView>,
    pub capacity: nat,
    pub dropped: nat,
}

/// The queue after one more span arrived.
pub open spec fn enqueued(e: ExporterView, s: SpanView) -> ExporterView {
    if e.queue.len() < e.capacity {
        ExporterView { queue: e.queue.push(s), capacity: e.capacity, dropped: e.dropped }
    } else {
        ExporterView {
            queue: e.queue,
            capacity: e.capacity,
            dropped: if e.dropped < u64::MAX { e.dropped + 1 } else { e.dropped },
        }
    }
}

impl View for Exporter {
    type V = ExporterView;

    closed spec fn view(&self) -> ExporterView {
        ExporterView {
            queue: spans_view(self.queue@),
            capacity: self.capacity as nat,
            dropped: self.dropped as nat,
        }
    }
}

impl Exporter {
    /// The queue never holds more than its capacity.
    pub closed spec fn wf(&self) -> bool {
        self.queue@.len() <= self.capacity
    }

    /// A well-formed queue holds no more spans than its capacity, and its
    /// count of dropped spans fits a `u64`.
    pub proof fn lemma_wf(&self)
        requires
            self.wf(),
        ensures
            self@.queue.len() <= self@.capacity,
            self@.dropped <= u64::MAX,
    {
    }

    /// An empty queue that holds up to `capacity` spans.
    pub fn new(capacity: usize) -> (e: Exporter)
        ensures
            e.wf(),
            e@ == (ExporterView { queue: Seq::empty(), capacity: capacity as nat, dropped: 0 }),
    {
        let e = Exporter { queue: Vec::new(), capacity, dropped: 0 };
        assert(e@.queue =~= Seq::empty());
        e
    }

    /// Takes a finished span, or drops and counts it where the queue is full.
    pub fn enqueue(&mut self, span: Span) -> (kept: bool)
        requires
            old(self).wf(),
        ensures
            final(self).wf(),
            final(self)@ == enqueued(old(self)@, span@),
            kept == (old(self)@.queue.len() < old(self)@.capacity),
    {
        if self.queue.len() < self.capacity {
            self.queue.push(span);
            assert(self@.queue =~= old(self)@.queue.push(span@));
            true
        } else {
            if self.dropped < u64::MAX {
                self.dropped = self.dropped + 1;
            }
            false
        }
    }

    /// How many spans wait in the queue.
    pub fn pending(&self) -> (n: usize)
        ensures
            n == self@.queue.len(),
    {
        self.queue.len()
    }

    /// How many spans were dropped; the count stops at the largest `u64`.
    pub fn dropped(&self) -> (n: u64)
        ensures
            n == self@.dropped,
    {
        self.dropped
    }

    /// Hands out every waiting span, oldest first, and leaves the queue empty.
    pub fn take_batch(&mut self) -> (batch: Vec<Span>)
        requires
            old(self).wf(),
        ensures
            final(self).wf(),
            spans_view(batch@) == old(self)@.queue,
            final(self)@ == (ExporterView { queue: Seq::empty(), capacity: old(self)@.capacity, dropped: old(self)@.dropped }),
    {
        let mut batch: Vec<Span> = Vec::new();
        std::mem::swap(&mut self.queue, &mut batch);
        assert(self@.queue =~= Seq::empty());
        batch
    }
}

} // verus!
