//! The two-branch one-shot combinator and its companions.
//!
//! A [`FutureResult`] holds, by construction, exactly one of an ok-branch
//! computation or an err-branch computation. Resuming it drives the populated
//! branch to completion and resolves the whole computation with a
//! success-wrapped or error-wrapped value. Once resolved it is spent;
//! resuming a spent combinator is a protocol violation by the caller, and the
//! host runtime treats it as fatal.
//!
//! [`ResultExt`] builds a [`FutureResult`] from a plain result whose halves
//! are computations; [`ReadyValue`] stands for a computation that is already
//! complete; [`TransposeFutureErr`] resolves a value-or-error-computation
//! result into a single result; [`ExtractFutureOk`] lifts the extraction over
//! a whole source of results.

use vstd::prelude::*;

use crate::protocol::{SourceEvent, StepOutcome};

verus! {

/// A computation that is already complete, carrying its value.
pub struct ReadyValue<T> {
    value: T,
}

impl<T> ReadyValue<T> {
    /// The carried value.
    pub closed spec fn inner(self) -> T {
        self.value
    }

    /// An already-complete computation.
    pub fn new(value: T) -> (r: Self)
        ensures
            r.inner() == value,
    {
        ReadyValue { value }
    }

    /// Resolve immediately with the carried value.
    pub fn into_value(self) -> (v: T)
        ensures
            v == self.inner(),
    {
        self.value
    }
}

/// Exactly one of an ok-branch computation or an err-branch computation —
/// never both — until resolution takes the populated branch out and leaves
/// the combinator spent.
pub struct FutureResult<FutOk, FutErr> {
    ok: Option<FutOk>,
    err: Option<FutErr>,
}

impl<FutOk, FutErr> FutureResult<FutOk, FutErr> {
    /// The ok-branch slot.
    pub closed spec fn ok_slot(self) -> Option<FutOk> {
        self.ok
    }

    /// The err-branch slot.
    pub closed spec fn err_slot(self) -> Option<FutErr> {
        self.err
    }

    /// At most one branch is ever populated.
    pub open spec fn wf(self) -> bool {
        !(self.ok_slot() is Some && self.err_slot() is Some)
    }

    /// Both branches are gone: the computation has already resolved, and
    /// resuming it again is a caller error.
    pub open spec fn spent(self) -> bool {
        self.ok_slot() is None && self.err_slot() is None
    }

    /// A combinator that will resolve success with the ok-branch's value.
    pub fn ok(fut: FutOk) -> (r: Self)
        ensures
            r.wf(),
            r.ok_slot() == Some(fut),
            r.err_slot() is None,
    {
        FutureResult { ok: Some(fut), err: None }
    }

    /// A combinator that will resolve error with the err-branch's value.
    pub fn err(fut: FutErr) -> (r: Self)
        ensures
            r.wf(),
            r.ok_slot() is None,
            r.err_slot() == Some(fut),
    {
        FutureResult { ok: None, err: Some(fut) }
    }

    /// Whether the ok branch is populated.
    pub fn has_ok(&self) -> (r: bool)
        ensures
            r == (self.ok_slot() is Some),
    {
        self.ok.is_some()
    }

    /// Whether the err branch is populated.
    pub fn has_err(&self) -> (r: bool)
        ensures
            r == (self.err_slot() is Some),
    {
        self.err.is_some()
    }

    /// Whether the computation has already resolved. Resuming it then cannot
    /// produce a value; the host runtime must treat it as a fatal protocol
    /// violation, not a recoverable error.
    pub fn is_spent(&self) -> (r: bool)
        ensures
            r == self.spent(),
    {
        self.ok.is_none() && self.err.is_none()
    }

    /// Take the ok-branch computation out, to drive it to completion; its
    /// value, once complete, resolves the whole combinator as a success.
    pub fn take_ok(&mut self) -> (fut: FutOk)
        requires
            old(self).ok_slot() is Some,
        ensures
            old(self).ok_slot() == Some(fut),
            final(self).ok_slot() is None,
            final(self).err_slot() == old(self).err_slot(),
    {
        let slot = self.ok.take();
        slot.unwrap()
    }

    /// Take the err-branch computation out, to drive it to completion; its
    /// value, once complete, resolves the whole combinator as an error.
    pub fn take_err(&mut self) -> (fut: FutErr)
        requires
            old(self).err_slot() is Some,
        ensures
            old(self).err_slot() == Some(fut),
            final(self).err_slot() is None,
            final(self).ok_slot() == old(self).ok_slot(),
    {
        let slot = self.err.take();
        slot.unwrap()
    }

    /// Put the ok-branch computation back after a suspension: the combinator
    /// is not resolved until the branch completes.
    pub fn keep_ok(&mut self, fut: FutOk)
        requires
            old(self).ok_slot() is None,
        ensures
            final(self).ok_slot() == Some(fut),
            final(self).err_slot() == old(self).err_slot(),
    {
        self.ok = Some(fut);
    }

    /// Put the err-branch computation back after a suspension.
    pub fn keep_err(&mut self, fut: FutErr)
        requires
            old(self).err_slot() is None,
        ensures
            final(self).err_slot() == Some(fut),
            final(self).ok_slot() == old(self).ok_slot(),
    {
        self.err = Some(fut);
    }
}

/// Extraction of the computations contained in a result into a two-branch
/// combinator.
pub trait ResultExt<T, E>: Sized {
    /// Both halves are computations; the populated branch mirrors the
    /// result's variant.
    fn extract_future(self) -> FutureResult<T, E>;

    /// Only the success half is a computation; an error value is wrapped as
    /// an already-complete err-branch.
    fn extract_future_ok(self) -> FutureResult<T, ReadyValue<E>>;

    /// Only the error half is a computation; a success value is wrapped as an
    /// already-complete ok-branch.
    fn extract_future_err(self) -> FutureResult<ReadyValue<T>, E>;
}

impl<T, E> ResultExt<T, E> for Result<T, E> {
    fn extract_future(self) -> (r: FutureResult<T, E>)
        ensures
            r.wf(),
            self matches Ok(v) ==> r.ok_slot() == Some(v) && r.err_slot() is None,
            self matches Err(e) ==> r.ok_slot() is None && r.err_slot() == Some(e),
    {
        match self {
            Ok(v) => FutureResult::ok(v),
            Err(e) => FutureResult::err(e),
        }
    }

    fn extract_future_ok(self) -> (r: FutureResult<T, ReadyValue<E>>)
        ensures
            r.wf(),
            self matches Ok(v) ==> r.ok_slot() == Some(v) && r.err_slot() is None,
            self matches Err(e) ==> r.ok_slot() is None && (r.err_slot() matches Some(rv)
                && rv.inner() == e),
    {
        match self {
            Ok(v) => FutureResult::ok(v),
            Err(e) => FutureResult::err(ReadyValue::new(e)),
        }
    }

    fn extract_future_err(self) -> (r: FutureResult<ReadyValue<T>, E>)
        ensures
            r.wf(),
            self matches Ok(v) ==> (r.ok_slot() matches Some(rv) && rv.inner() == v)
                && r.err_slot() is None,
            self matches Err(e) ==> r.ok_slot() is None && r.err_slot() == Some(e),
    {
        match self {
            Ok(v) => FutureResult::ok(ReadyValue::new(v)),
            Err(e) => FutureResult::err(e),
        }
    }
}

/// How a [`TransposeFutureErr`] resumes: either the value was plain and the
/// computation resolves success at once, or the error computation must be
/// driven to completion and its value resolves the whole as an error.
pub enum TransposeStart<T, FutErr> {
    /// The held result was a plain value: resolve success with it now.
    Resolved(T),
    /// The held result was an error computation: drive it to completion.
    AwaitError(FutErr),
}

/// A one-shot computation over a result whose error half is itself a
/// computation: a plain success resolves at once; an error computation is
/// awaited and its value resolves the whole as an error.
pub struct TransposeFutureErr<T, FutErr> {
    item: Option<Result<T, FutErr>>,
}

impl<T, FutErr> TransposeFutureErr<T, FutErr> {
    /// The held result, if not yet resolved.
    pub closed spec fn slot(self) -> Option<Result<T, FutErr>> {
        self.item
    }

    /// A computation around the given result.
    pub fn new(item: Result<T, FutErr>) -> (s: Self)
        ensures
            s.slot() == Some(item),
    {
        TransposeFutureErr { item: Some(item) }
    }

    /// Whether the computation has already resolved.
    pub fn is_spent(&self) -> (r: bool)
        ensures
            r == (self.slot() is None),
    {
        self.item.is_none()
    }

    /// Begin one resume: a plain value resolves now; an error computation is
    /// handed out to be driven. Either way the slot empties; a suspended
    /// error computation comes back through [`Self::keep_waiting`].
    pub fn begin(&mut self) -> (r: TransposeStart<T, FutErr>)
        requires
            old(self).slot() is Some,
        ensures
            final(self).slot() is None,
            old(self).slot() matches Some(Ok(v)) ==> r == TransposeStart::<T, FutErr>::Resolved(v),
            old(self).slot() matches Some(Err(fe)) ==> r == TransposeStart::<T, FutErr>::AwaitError(
                fe,
            ),
    {
        let slot = self.item.take();
        match slot.unwrap() {
            Ok(v) => TransposeStart::Resolved(v),
            Err(fe) => TransposeStart::AwaitError(fe),
        }
    }

    /// Put the suspended error computation back: the whole computation is
    /// not resolved yet.
    pub fn keep_waiting(&mut self, fut_err: FutErr)
        requires
            old(self).slot() is None,
        ensures
            final(self).slot() == Some(Err::<T, FutErr>(fut_err)),
    {
        self.item = Some(Err(fut_err));
    }
}

/// Lifts [`ResultExt::extract_future_ok`] over a whole source: each arriving
/// result becomes a two-branch combinator, emitted as this resume's item.
pub struct ExtractFutureOk {
    done: bool,
}

impl ExtractFutureOk {
    /// Whether the source has reported `End`.
    pub closed spec fn source_done(self) -> bool {
        self.done
    }

    /// An extraction adapter.
    pub fn new() -> (s: Self)
        ensures
            !s.source_done(),
    {
        ExtractFutureOk { done: false }
    }

    /// Whether the source has ended; its own report, passed through.
    pub fn is_terminated(&self) -> (r: bool)
        ensures
            r == self.source_done(),
    {
        self.done
    }

    /// Digest one source report: each item is extracted into a combinator
    /// whose populated branch mirrors the item's variant.
    pub fn step<S, E>(&mut self, ev: SourceEvent<Result<S, E>>) -> (r: StepOutcome<
        FutureResult<S, ReadyValue<E>>,
    >)
        requires
            !old(self).source_done(),
        ensures
            ev is Suspended ==> r is Suspend && !final(self).source_done(),
            ev matches SourceEvent::Item(Ok(v)) ==> !final(self).source_done() && (r matches
                StepOutcome::Emit(fr) && fr.wf() && fr.ok_slot() == Some(v)
                && fr.err_slot() is None),
            ev matches SourceEvent::Item(Err(e)) ==> !final(self).source_done() && (r matches
                StepOutcome::Emit(fr) && fr.wf() && fr.ok_slot() is None && (fr.err_slot() matches
                Some(rv) && rv.inner() == e)),
            ev is End ==> r is End && final(self).source_done(),
    {
        match ev {
            SourceEvent::Suspended => StepOutcome::Suspend,
            SourceEvent::Item(item) => StepOutcome::Emit(item.extract_future_ok()),
            SourceEvent::End => {
                self.done = true;
                StepOutcome::End
            },
        }
    }
}

} // verus!
