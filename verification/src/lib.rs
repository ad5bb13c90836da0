//! Trace-context propagation across a chain of RPC calls: the codec that moves
//! a trace context through call metadata, the per-chain span tracker, and the
//! order of steps that every call site follows.

pub mod hex;
pub mod carrier;
pub mod context;
pub mod traceparent;
pub mod trace_state;

pub mod ids;
pub mod propagator;
pub mod exporter;
pub mod tracker;
pub mod call_site;
pub mod greeting;
pub mod client;
pub mod first_server;
pub mod second_server;
