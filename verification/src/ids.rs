//! Fresh identifiers.

use vstd::prelude::*;
use opentelemetry_sdk::trace::IdGenerator;
use opentelemetry_sdk::trace::RandomIdGenerator;

verus! {

/// `RandomIdGenerator::new_trace_id`: 128 random bits. Nothing is promised of
/// them: any value may come, zero too.
#[verifier::external_body]
pub(crate) fn random_trace_id() -> (raw: u128) {
    u128::from_be_bytes(RandomIdGenerator::default().new_trace_id().to_bytes())
}

/// `RandomIdGenerator::new_span_id`: 64 random bits. Nothing is promised of
/// them: any value may come, zero too.
#[verifier::external_body]
pub(crate) fn random_span_id() -> (raw: u64) {
    u64::from_be_bytes(RandomIdGenerator::default().new_span_id().to_bytes())
}

/// A fresh trace identifier: random, and never zero.
pub fn fresh_trace_id() -> (id: u128)
    ensures
        id != 0,
{
    let raw = random_trace_id();
    if raw == 0 { 1 } else { raw }
}

/// A fresh span identifier: random, and never zero.
pub fn fresh_span_id() -> (id: u64)
    ensures
        id != 0,
{
    let raw = random_span_id();
    if raw == 0 { 1 } else { raw }
}

} // verus!
