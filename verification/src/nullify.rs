//! Conversion of a fallible source into an infallible one.
//!
//! [`NullifyErr`] keeps only the success payloads of its source: every error
//! is discarded — its policy is explicitly drop-errors — and the drained
//! source is resumed again within the same call.

use vstd::prelude::*;

use crate::protocol::{SourceEvent, StepOutcome};

verus! {

/// Keeps the successes of a fallible source and drops its errors.
pub struct NullifyErr {
    done: bool,
}

impl NullifyErr {
    /// Whether the source has reported `End`.
    pub closed spec fn source_done(self) -> bool {
        self.done
    }

    /// An error-dropping adapter.
    pub fn new() -> (s: Self)
        ensures
            !s.source_done(),
    {
        NullifyErr { done: false }
    }

    /// Whether the source has ended; its own report, passed through.
    pub fn is_terminated(&self) -> (r: bool)
        ensures
            r == self.source_done(),
    {
        self.done
    }

    /// Digest one source report: a success payload is emitted bare; an error
    /// is dropped and the driver directed to resume the source again.
    pub fn step<T, E>(&mut self, ev: SourceEvent<Result<T, E>>) -> (r: StepOutcome<T>)
        requires
            !old(self).source_done(),
        ensures
            ev is Suspended ==> r is Suspend && !final(self).source_done(),
            ev matches SourceEvent::Item(Ok(t)) ==> r == StepOutcome::<T>::Emit(t) && !final(self).source_done(),
            ev matches SourceEvent::Item(Err(_)) ==> r is Again && !final(self).source_done(),
            ev is End ==> r is End && final(self).source_done(),
    {
        match ev {
            SourceEvent::Suspended => StepOutcome::Suspend,
            SourceEvent::Item(Ok(t)) => StepOutcome::Emit(t),
            SourceEvent::Item(Err(_)) => StepOutcome::Again,
            SourceEvent::End => {
                self.done = true;
                StepOutcome::End
            },
        }
    }
}

} // verus!
