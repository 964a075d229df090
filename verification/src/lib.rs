//! Verified state machines for a family of cooperative, demand-pull sequence
//! adapters: deduplication, capacity-bounded chunk buffering, quota-based
//! round-robin merging, flattening of nested success-carried structures, and a
//! two-branch one-shot result combinator.
//!
//! Each adapter is modelled as an explicit state machine. A host runtime polls
//! the wrapped source(s), hands the machine what one resume call reported (a
//! [`protocol::SourceEvent`]), and obeys the directive the machine returns (a
//! [`protocol::StepOutcome`]). All policy decisions — what to buffer, what to
//! flush, which side to poll, what to emit, when to end — are made here, under
//! contracts that pin the transitions down exactly.

pub mod await_value;
pub mod branch;
pub mod chunks;
pub mod dedup;
pub mod flatten;
pub mod merge;
pub mod nullify;
pub mod protocol;
pub mod results;

use vstd::prelude::*;

verus! {

} // verus!
