//! A verified model of the interop protocol between native code and a
//! garbage-collected host runtime: a capability token for the host thread,
//! LIFO scope frames of bounded capacity, GC-safe and GC-unsafe regions,
//! tagged boxing and unboxing of native records, the two halves of a call
//! into a host closure, and the fixed-count loop that drives an agent.
use vstd::prelude::*;

pub mod error;
pub mod context;
pub mod record;
pub mod session;
pub mod callback;
pub mod play;

verus! {

} // verus!
