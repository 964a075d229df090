//! Sequential awaiting of a source of one-shot computations.
//!
//! [`AwaitValue`] draws one computation at a time from its source, drives it
//! to completion, and emits its value. At most one computation is held
//! across resumes; while one is held, the source is not polled.

use vstd::prelude::*;

use crate::protocol::{SourceEvent, StepOutcome};

verus! {

/// Awaits each computation of a source in turn. The machine owns the held
/// computation slot; the host runtime takes the computation out to drive it
/// and puts it back if it suspends.
pub struct AwaitValue<F> {
    held: Option<F>,
}

impl<F> AwaitValue<F> {
    /// The computation currently being driven, if any.
    pub closed spec fn held_slot(self) -> Option<F> {
        self.held
    }

    /// An awaiting adapter holding no computation.
    pub fn new() -> (s: Self)
        ensures
            s.held_slot() is None,
    {
        AwaitValue { held: None }
    }

    /// Whether a computation is held; if so, the driver must drive it, not
    /// poll the source.
    pub fn has_held(&self) -> (r: bool)
        ensures
            r == (self.held_slot() is Some),
    {
        self.held.is_some()
    }

    /// Digest what the source reported, with no computation held. An arriving
    /// computation is installed and the driver directed to drive it at once;
    /// suspension and termination pass through.
    pub fn on_source_event<O>(&mut self, ev: SourceEvent<F>) -> (r: StepOutcome<O>)
        requires
            old(self).held_slot() is None,
        ensures
            ev is Suspended ==> r is Suspend && final(self).held_slot() is None,
            ev matches SourceEvent::Item(f) ==> r is Again && final(self).held_slot() == Some(f),
            ev is End ==> r is End && final(self).held_slot() is None,
    {
        match ev {
            SourceEvent::Suspended => StepOutcome::Suspend,
            SourceEvent::Item(f) => {
                self.held = Some(f);
                StepOutcome::Again
            },
            SourceEvent::End => StepOutcome::End,
        }
    }

    /// Take the held computation out, to drive it; a suspended computation
    /// comes back through [`Self::keep_held`].
    pub fn take_held(&mut self) -> (f: F)
        requires
            old(self).held_slot() is Some,
        ensures
            old(self).held_slot() == Some(f),
            final(self).held_slot() is None,
    {
        let slot = self.held.take();
        slot.unwrap()
    }

    /// Put the suspended computation back; it is resumed on the next call.
    pub fn keep_held(&mut self, f: F)
        requires
            old(self).held_slot() is None,
        ensures
            final(self).held_slot() == Some(f),
    {
        self.held = Some(f);
    }

    /// A completed computation's value is this resume's item; the emptied
    /// slot means the source is consulted next.
    pub fn finish<O>(&self, value: O) -> (r: StepOutcome<O>)
        requires
            self.held_slot() is None,
        ensures
            r == StepOutcome::<O>::Emit(value),
    {
        StepOutcome::Emit(value)
    }

    /// The size estimate: the source's own estimate, plus one for a held
    /// computation whose value is still owed. Saturating; a non-binding hint.
    pub fn size_estimate(&self, source_lower: usize, source_upper: Option<usize>) -> (r: (
        usize,
        Option<usize>,
    ))
        ensures
            self.held_slot() is Some ==> r.0 == source_lower.saturating_add(1) && (
            match source_upper {
                Some(u) => r.1 == Some(u.saturating_add(1)),
                None => r.1 is None,
            }),
            self.held_slot() is None ==> r.0 == source_lower && r.1 == source_upper,
    {
        if self.held.is_some() {
            (
                source_lower.saturating_add(1),
                match source_upper {
                    Some(u) => Some(u.saturating_add(1)),
                    None => None,
                },
            )
        } else {
            (source_lower, source_upper)
        }
    }
}

} // verus!
