//! The value that travels along a call chain.

use vstd::prelude::*;
use crate::trace_state::entries_view;

verus! {

/// What identifies one span inside one trace, as it travels between processes.
pub struct TraceContext {
    /// Shared by every span of the call chain. Never zero in a valid context.
    pub trace_id: u128,
    /// Names exactly one span. Never zero in a valid context.
    pub span_id: u64,
    /// Bit 0 is the sampled flag.
    pub trace_flags: u8,
    /// The vendor entries, keys with their values, in their order.
    pub trace_state: Vec<(String, String)>,
}

/// The mathematical value of a `TraceContext`.
pub struct ContextView {
    pub trace_id: u128,
    pub span_id: u64,
    pub trace_flags: u8,
    pub trace_state: Seq<(Seq<char>, Seq<char>)>,
}

impl View for TraceContext {
    type V = ContextView;

    open spec fn view(&self) -> ContextView {
        ContextView {
            trace_id: self.trace_id,
            span_id: self.span_id,
            trace_flags: self.trace_flags,
            trace_state: entries_view(self.trace_state@),
        }
    }
}

impl ContextView {
    /// Both identifiers are non-zero.
    pub open spec fn valid(self) -> bool {
        self.trace_id != 0 && self.span_id != 0
    }
}

/// The identifier that stands for `raw`: `raw` itself unless it is zero, which
/// no identifier may be, and which becomes one.
pub open spec fn nonzero128(raw: u128) -> u128 {
    if raw == 0 { 1 } else { raw }
}

/// As `nonzero128`, for span identifiers.
pub open spec fn nonzero64(raw: u64) -> u64 {
    if raw == 0 { 1 } else { raw }
}

/// The context of a new trace root made from two raw identifiers.
pub open spec fn root_context(raw_trace: u128, raw_span: u64) -> ContextView {
    ContextView {
        trace_id: nonzero128(raw_trace),
        span_id: nonzero64(raw_span),
        trace_flags: 1,
        trace_state: Seq::empty(),
    }
}

/// A second list equal to `entries`.
pub fn copy_entries(entries: &Vec<(String, String)>) -> (copy: Vec<(String, String)>)
    ensures
        entries_view(copy@) == entries_view(entries@),
{
    let mut copy: Vec<(String, String)> = Vec::new();
    let mut i: usize = 0;
    while i < entries.len()
        invariant
            i <= entries.len(),
            copy@.len() == i,
            forall|j: int| 0 <= j < i ==> copy@[j].0@ == entries@[j].0@ && copy@[j].1@ == entries@[j].1@,
        decreases entries.len() - i,
    {
        copy.push((entries[i].0.clone(), entries[i].1.clone()));
        i = i + 1;
    }
    assert(entries_view(copy@) =~= entries_view(entries@));
    copy
}

impl TraceContext {
    /// Both identifiers are non-zero.
    pub open spec fn valid(&self) -> bool {
        self@.valid()
    }

    /// A context with the given fields.
    pub fn new(trace_id: u128, span_id: u64, trace_flags: u8, trace_state: Vec<(String, String)>) -> (c:
        TraceContext)
        ensures
            c@ == (ContextView { trace_id, span_id, trace_flags, trace_state: entries_view(trace_state@) }),
    {
        TraceContext { trace_id, span_id, trace_flags, trace_state }
    }

    /// The root of a new trace: sampled, without vendor entries.
    pub fn root(raw_trace: u128, raw_span: u64) -> (c: TraceContext)
        ensures
            c@ == root_context(raw_trace, raw_span),
            c.valid(),
    {
        let c = TraceContext {
            trace_id: if raw_trace == 0 { 1 } else { raw_trace },
            span_id: if raw_span == 0 { 1 } else { raw_span },
            trace_flags: 1,
            trace_state: Vec::new(),
        };
        assert(c@.trace_state =~= Seq::empty());
        c
    }

    /// A second value equal to this one.
    pub fn duplicate(&self) -> (c: TraceContext)
        ensures
            c@ == self@,
    {
        TraceContext {
            trace_id: self.trace_id,
            span_id: self.span_id,
            trace_flags: self.trace_flags,
            trace_state: copy_entries(&self.trace_state),
        }
    }

    /// Whether the sampled flag is set.
    pub fn sampled(&self) -> (b: bool)
        ensures
            b == (self.trace_flags & 1 == 1),
    {
        self.trace_flags & 1 == 1
    }
}

} // verus!
