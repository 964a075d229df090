//! The resume protocol every adapter consumes and produces.
//!
//! A source is resumed by a single consumer; one resume call reports exactly
//! one [`SourceEvent`]. A fused source reports `End` on every resume after the
//! first `End`. After digesting one event, an adapter directs its driver with
//! a [`StepOutcome`].

use vstd::prelude::*;

verus! {

/// What one resume call of a wrapped source reported.
pub enum SourceEvent<T> {
    /// No item is available now; re-notification will arrive later.
    Suspended,
    /// The source produced one item.
    Item(T),
    /// The source is exhausted.
    End,
}

/// What an adapter directs its driver to do after digesting one source event.
pub enum StepOutcome<A> {
    /// Hand this value to the consumer as the result of the current resume.
    Emit(A),
    /// Report suspension to the consumer; re-notification is already arranged.
    Suspend,
    /// Report termination to the consumer.
    End,
    /// Resume a source once more within the same call.
    Again,
}

} // verus!
