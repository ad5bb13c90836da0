//! Writing a trace context into a carrier and reading it back.

use vstd::prelude::*;
use vstd::string::*;
use tonic::metadata::MetadataMap;
use crate::carrier::{carrier_entries, carrier_keys, carrier_size, carrier_values, entries_after_set, entries_of, header_key, lemma_entries_after_store, lemma_plain_key, plain_key, readable_text, storable_text, CARRIER_ROOM};
use crate::context::{root_context, ContextView, TraceContext};
use crate::hex::hex_value;
use crate::ids::{random_span_id, random_trace_id};
use crate::trace_state::{join_state, lemma_state_round_trip, parse_state, portable, state_pairs, state_text};
use crate::traceparent::{format_traceparent, lemma_traceparent_chars, lemma_traceparent_round_trip, parse_traceparent, traceparent_fields, traceparent_shape, traceparent_text};

verus! {

/// The key of the entry that holds version, identifiers and flags.
pub open spec fn parent_key() -> Seq<char> {
    seq!['t', 'r', 'a', 'c', 'e', 'p', 'a', 'r', 'e', 'n', 't']
}

/// The key of the entry that holds the vendor entries.
pub open spec fn state_key() -> Seq<char> {
    seq!['t', 'r', 'a', 'c', 'e', 's', 't', 'a', 't', 'e']
}

/// The key `traceparent`.
pub fn parent_key_text() -> (k: &'static str)
    ensures
        k@ == parent_key(),
        header_key(k@) == Some(parent_key()),
{
    proof {
        reveal_strlit("traceparent");
    }
    let k = "traceparent";
    assert(k@ =~= parent_key());
    proof {
        assert(plain_key(k@));
        lemma_plain_key(k@);
    }
    k
}

/// The key `tracestate`.
pub fn state_key_text() -> (k: &'static str)
    ensures
        k@ == state_key(),
        header_key(k@) == Some(state_key()),
{
    proof {
        reveal_strlit("tracestate");
    }
    let k = "tracestate";
    assert(k@ =~= state_key());
    proof {
        assert(plain_key(k@));
        lemma_plain_key(k@);
    }
    k
}

/// The entries of a carrier after a context was written into it: the header
/// text under the first key and, where there are vendor entries, those under
/// the second.
pub open spec fn injected_entries(before: Map<Seq<char>, Seq<char>>, c: ContextView) -> Map<Seq<char>, Seq<char>> {
    let first = entries_after_set(before, parent_key(), traceparent_text(c.trace_id, c.span_id, c.trace_flags));
    if c.trace_state.len() == 0 {
        first
    } else {
        entries_after_set(first, state_key(), state_text(c.trace_state))
    }
}

/// What a carrier holds once the header text of a context stands under the
/// first key, as its only value.
pub open spec fn with_parent(before: Map<Seq<char>, Seq<Seq<char>>>, c: ContextView) -> Map<
    Seq<char>,
    Seq<Seq<char>>,
> {
    before.insert(parent_key(), seq![traceparent_text(c.trace_id, c.span_id, c.trace_flags)])
}

/// What a carrier holds once a context was written into it in full: the
/// header text as the only value under the first key and, where there are
/// vendor entries and their text is storable, that text as the only value
/// under the second. Every other key keeps its values.
pub open spec fn injected_values(before: Map<Seq<char>, Seq<Seq<char>>>, c: ContextView) -> Map<
    Seq<char>,
    Seq<Seq<char>>,
> {
    let first = with_parent(before, c);
    if c.trace_state.len() > 0 && storable_text(state_text(c.trace_state)) {
        first.insert(state_key(), seq![state_text(c.trace_state)])
    } else {
        first
    }
}

/// Whether `inject` is sure to write the context in full: the identifiers
/// are non-zero and the carrier takes two more keys.
pub open spec fn injects(m: MetadataMap, c: ContextView) -> bool {
    c.trace_id != 0 && c.span_id != 0 && carrier_keys(m) + 2 <= CARRIER_ROOM
}

/// What `inject` may leave in a carrier, whatever its size. A context with
/// a zero identifier is not written. Any other is written in full, or, where
/// the carrier refuses to grow, without its vendor entries or not at all.
pub open spec fn inject_outcome(
    before: Map<Seq<char>, Seq<Seq<char>>>,
    c: ContextView,
    after: Map<Seq<char>, Seq<Seq<char>>>,
) -> bool {
    if c.trace_id == 0 || c.span_id == 0 {
        after == before
    } else {
        after == before || after == with_parent(before, c) || after == injected_values(before, c)
    }
}

/// What a reader finds after a context was written in full is what
/// `injected_entries` says.
pub proof fn lemma_injected_entries(before: Map<Seq<char>, Seq<Seq<char>>>, c: ContextView)
    ensures
        entries_of(injected_values(before, c)) == injected_entries(entries_of(before), c),
{
    lemma_traceparent_readable(c.trace_id, c.span_id, c.trace_flags);
    lemma_entries_after_store(before, parent_key(), traceparent_text(c.trace_id, c.span_id, c.trace_flags));
    if c.trace_state.len() > 0 && storable_text(state_text(c.trace_state)) {
        lemma_entries_after_store(with_parent(before, c), state_key(), state_text(c.trace_state));
    }
}

/// The vendor entries that a carrier holds under the second key: none where
/// the key is missing or its text holds no list of entries.
pub open spec fn carried_state(entries: Map<Seq<char>, Seq<char>>) -> Seq<(Seq<char>, Seq<char>)> {
    if entries.contains_key(state_key()) {
        match state_pairs(entries[state_key()]) {
            Some(p) => p,
            None => Seq::empty(),
        }
    } else {
        Seq::empty()
    }
}

/// The context that a carrier holds: `None` where the first key is missing or
/// its text is malformed.
pub open spec fn carried_context(entries: Map<Seq<char>, Seq<char>>) -> Option<ContextView> {
    if entries.contains_key(parent_key()) {
        match traceparent_fields(entries[parent_key()]) {
            Some((t, p, f)) => Some(
                ContextView {
                    trace_id: t,
                    span_id: p,
                    trace_flags: f,
                    trace_state: carried_state(entries),
                },
            ),
            None => None,
        }
    } else {
        None
    }
}

/// What `extract_or` returns: the carried context, or a new root made of the
/// two raw identifiers.
pub open spec fn extracted(entries: Map<Seq<char>, Seq<char>>, raw_trace: u128, raw_span: u64) -> ContextView {
    match carried_context(entries) {
        Some(c) => c,
        None => root_context(raw_trace, raw_span),
    }
}

/// The header text is always readable text, so a carrier takes it and gives it
/// back.
pub proof fn lemma_traceparent_readable(trace_id: u128, span_id: u64, flags: u8)
    ensures
        readable_text(traceparent_text(trace_id, span_id, flags)),
        storable_text(traceparent_text(trace_id, span_id, flags)),
{
    lemma_traceparent_chars(trace_id, span_id, flags);
    let s = traceparent_text(trace_id, span_id, flags);
    assert forall|i: int| 0 <= i < s.len() implies crate::carrier::readable_char(#[trigger] s[i])
        && crate::carrier::storable_char(s[i]) by {
        let c = s[i];
        assert(c == '-' || hex_value(c) is Some);
    }
}

/// Writes `ctx` into `carrier`: the header text in place of every value
/// under the first key, and the vendor entries, where there are any and the
/// carrier takes their text, in place of every value under the second.
/// Nothing is written where an identifier of `ctx` is zero. A carrier that
/// refuses to grow is left without the vendor entries, or as it was. Never
/// fails.
pub fn inject(ctx: &TraceContext, carrier: &mut MetadataMap)
    ensures
        inject_outcome(carrier_values(*old(carrier)), ctx@, carrier_values(*final(carrier))),
        injects(*old(carrier), ctx@) ==> carrier_values(*final(carrier)) == injected_values(
            carrier_values(*old(carrier)),
            ctx@,
        ),
        injects(*old(carrier), ctx@) ==> carrier_entries(*final(carrier)) == injected_entries(
            carrier_entries(*old(carrier)),
            ctx@,
        ),
        carrier_size(*final(carrier)) <= carrier_size(*old(carrier)) + 2,
        ctx@.trace_state.len() == 0 ==> carrier_size(*final(carrier)) <= carrier_size(*old(carrier)) + 1,
{
    if ctx.trace_id == 0 || ctx.span_id == 0 {
        return;
    }
    let text = format_traceparent(ctx.trace_id, ctx.span_id, ctx.trace_flags);
    proof {
        lemma_traceparent_readable(ctx.trace_id, ctx.span_id, ctx.trace_flags);
        lemma_injected_entries(carrier_values(*old(carrier)), ctx@);
    }
    if !crate::carrier::set(carrier, parent_key_text(), text.as_str()) {
        return;
    }
    if ctx.trace_state.len() != 0 {
        let state = join_state(&ctx.trace_state);
        crate::carrier::set(carrier, state_key_text(), state.as_str());
    }
}

/// Reads the context that `carrier` holds; `None` where it holds none or a
/// malformed one. Of several values under a key only the first counts.
pub fn extract_carried(carrier: &MetadataMap) -> (found: Option<TraceContext>)
    ensures
        match found {
            Some(ctx) => carried_context(carrier_entries(*carrier)) == Some(ctx@) && ctx.valid(),
            None => carried_context(carrier_entries(*carrier)) is None,
        },
{
    match crate::carrier::get(carrier, parent_key_text()) {
        Some(text) => match parse_traceparent(text.as_str()) {
            Some((t, p, f)) => {
                let held = match crate::carrier::get(carrier, state_key_text()) {
                    Some(s) => parse_state(s.as_str()),
                    None => None,
                };
                let state = match held {
                    Some(entries) => entries,
                    None => {
                        let none: Vec<(String, String)> = Vec::new();
                        assert(crate::trace_state::entries_view(none@) =~= Seq::empty());
                        none
                    },
                };
                Some(TraceContext::new(t, p, f, state))
            },
            None => None,
        },
        None => None,
    }
}

/// Reads the context that `carrier` holds. Where the carrier holds none, or a
/// malformed one, the result is the root of a new trace made of the two raw
/// identifiers. Never fails.
pub fn extract_or(carrier: &MetadataMap, raw_trace: u128, raw_span: u64) -> (ctx: TraceContext)
    ensures
        ctx@ == extracted(carrier_entries(*carrier), raw_trace, raw_span),
        ctx.valid(),
{
    match extract_carried(carrier) {
        Some(ctx) => ctx,
        None => TraceContext::root(raw_trace, raw_span),
    }
}

/// Reads the context that `carrier` holds, or starts a new trace with random
/// identifiers where it holds none or a malformed one. Never fails.
pub fn extract(carrier: &MetadataMap) -> (ctx: TraceContext)
    ensures
        ctx.valid(),
        match carried_context(carrier_entries(*carrier)) {
            Some(c) => ctx@ == c,
            None => ctx@.trace_flags == 1 && ctx@.trace_state.len() == 0,
        },
{
    let raw_trace = random_trace_id();
    let raw_span = random_span_id();
    extract_or(carrier, raw_trace, raw_span)
}

/// A valid context with portable vendor entries, written into a carrier that
/// holds no vendor entries of its own, is read back unchanged: identifiers,
/// flags, and the vendor entries in their order.
pub proof fn lemma_round_trip(before: Map<Seq<char>, Seq<char>>, c: ContextView)
    requires
        c.valid(),
        portable(c.trace_state),
        !before.contains_key(state_key()),
    ensures
        carried_context(injected_entries(before, c)) == Some(c),
{
    lemma_traceparent_readable(c.trace_id, c.span_id, c.trace_flags);
    lemma_traceparent_round_trip(c.trace_id, c.span_id, c.trace_flags);
    assert(parent_key() != state_key()) by {
        assert(parent_key().len() != state_key().len());
    }
    let after = injected_entries(before, c);
    assert(after.contains_key(parent_key()));
    assert(after[parent_key()] == traceparent_text(c.trace_id, c.span_id, c.trace_flags));
    lemma_state_round_trip(c.trace_state);
    if c.trace_state.len() == 0 {
        assert(!after.contains_key(state_key()));
        assert(c.trace_state =~= Seq::empty());
    } else {
        assert(after[state_key()] == state_text(c.trace_state));
    }
}

/// A carrier without the first key, or with a text under it that has the
/// wrong length or version, a misplaced hyphen, or a character in an
/// identifier or in the flags that is no lowercase hexadecimal digit, yields
/// the root of a new trace: valid, sampled, without vendor entries.
pub proof fn lemma_fallback(entries: Map<Seq<char>, Seq<char>>, raw_trace: u128, raw_span: u64)
    requires
        !entries.contains_key(parent_key()) || !traceparent_shape(entries[parent_key()]) || exists|i: int|
            (3 <= i < 35 || 36 <= i < 52 || 53 <= i < 55) && hex_value(#[trigger] entries[parent_key()][i]) is None,
    ensures
        carried_context(entries) is None,
        extracted(entries, raw_trace, raw_span) == root_context(raw_trace, raw_span),
        root_context(raw_trace, raw_span).valid(),
{
    if entries.contains_key(parent_key()) && traceparent_shape(entries[parent_key()]) {
        let s = entries[parent_key()];
        let i = choose|i: int| (3 <= i < 35 || 36 <= i < 52 || 53 <= i < 55) && hex_value(#[trigger] s[i]) is None;
        crate::hex::lemma_hex_number_bound(s.subrange(3, 35));
        crate::hex::lemma_hex_number_bound(s.subrange(36, 52));
        crate::hex::lemma_hex_number_bound(s.subrange(53, 55));
        if 3 <= i < 35 {
            assert(s.subrange(3, 35)[i - 3] == s[i]);
        } else if 36 <= i < 52 {
            assert(s.subrange(36, 52)[i - 36] == s[i]);
        } else {
            assert(s.subrange(53, 55)[i - 53] == s[i]);
        }
    }
}

} // verus!
