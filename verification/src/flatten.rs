//! Flattening of nested success-carried structures.
//!
//! - [`FlattenOk`] collapses a source whose success values are themselves
//!   sequences: at most one inner sequence is active at a time; its items are
//!   emitted wrapped as successes; outer errors pass straight through,
//!   unwrapped, positioned exactly where the outer source produced them.
//! - [`FlattenOkIter`] is the same outer protocol with finite,
//!   synchronously-drainable inners: one item per resume, no suspension while
//!   draining.
//! - [`FlattenOkResult`] collapses doubly-nested results one item per resume,
//!   merging either error level into the single error channel.
//!
//! The mathematical meaning of flattening an outer sequence is
//! [`flatten_outer`]; the law [`lemma_flatten_outer_split`] pins its two
//! channels down.

use vstd::prelude::*;
use vstd::seq_lib::*;

use crate::protocol::{SourceEvent, StepOutcome};
use crate::results::{
    all_ok, errs_of, lemma_all_ok_split, lemma_results_split_concat, lemma_results_split_singleton,
    oks_of,
};

verus! {

/// What flattening produces from a whole outer sequence, each inner sequence
/// abstracted by its items: the items of each success, wrapped as successes,
/// in inner order; each error, unwrapped, exactly where the outer source
/// produced it.
pub open spec fn flatten_outer<T, E>(outer: Seq<Result<Seq<T>, E>>) -> Seq<Result<T, E>>
    decreases outer.len(),
{
    if outer.len() == 0 {
        Seq::empty()
    } else {
        (match outer[0] {
            Ok(s) => all_ok(s),
            Err(e) => seq![Result::<T, E>::Err(e)],
        }) + flatten_outer(outer.skip(1))
    }
}

/// Law: the success channel of the flattened sequence is the concatenation of
/// the inner sequences in outer order, and the error channel is exactly the
/// outer errors in outer order — flattening invents, drops and reorders
/// nothing on either channel.
pub proof fn lemma_flatten_outer_split<T, E>(outer: Seq<Result<Seq<T>, E>>)
    ensures
        oks_of(flatten_outer(outer)) == oks_of(outer).flatten(),
        errs_of(flatten_outer(outer)) == errs_of(outer),
    decreases outer.len(),
{
    broadcast use {Seq::add_empty_left, Seq::add_empty_right};

    if outer.len() == 0 {
        assert(oks_of(flatten_outer(outer)) =~= oks_of(outer).flatten());
        assert(errs_of(flatten_outer(outer)) =~= errs_of(outer));
    } else {
        let tail = outer.skip(1);
        lemma_flatten_outer_split(tail);
        match outer[0] {
            Ok(s) => {
                lemma_all_ok_split::<T, E>(s);
                lemma_results_split_concat(all_ok::<T, E>(s), flatten_outer(tail));
                lemma_results_split_singleton::<Seq<T>, E>(Ok(s));
                assert(oks_of(outer) == seq![s] + oks_of(tail));
                assert((seq![s] + oks_of(tail)).flatten() == s + oks_of(tail).flatten()) by {
                    lemma_flatten_concat(seq![s], oks_of(tail));
                    seq![s].lemma_flatten_one_element();
                }
                assert(oks_of(flatten_outer(outer)) =~= oks_of(outer).flatten());
                assert(errs_of(flatten_outer(outer)) =~= errs_of(outer));
            },
            Err(e) => {
                lemma_results_split_concat(
                    seq![Result::<T, E>::Err(e)],
                    flatten_outer(tail),
                );
                lemma_results_split_singleton::<T, E>(Err(e));
                lemma_results_split_singleton::<Seq<T>, E>(Err(e));
                assert(oks_of(outer) == oks_of(tail));
                assert(oks_of(flatten_outer(outer)) =~= oks_of(outer).flatten());
                assert(errs_of(flatten_outer(outer)) =~= errs_of(outer));
            },
        }
    }
}

/// Flattens a source whose success values are themselves sequences. The
/// machine owns the inner-sequence slot: absent means "consult the outer
/// source for the next one". The host runtime takes the inner handle out to
/// resume it, and every event goes back through the machine.
pub struct FlattenOk<S> {
    inner: Option<S>,
    done: bool,
}

impl<S> FlattenOk<S> {
    /// The inner sequence currently being drained, if any.
    pub closed spec fn inner_slot(self) -> Option<S> {
        self.inner
    }

    /// Whether the outer source has reported `End`.
    pub closed spec fn outer_done(self) -> bool {
        self.done
    }

    /// A flattening adapter with no active inner sequence.
    pub fn new() -> (s: Self)
        ensures
            s.inner_slot() is None,
            !s.outer_done(),
    {
        FlattenOk { inner: None, done: false }
    }

    /// Whether an inner sequence is active; if so, the driver must resume it,
    /// not the outer source.
    pub fn has_inner(&self) -> (r: bool)
        ensures
            r == (self.inner_slot() is Some),
    {
        self.inner.is_some()
    }

    /// Whether every later resume is guaranteed to report `End`: the outer
    /// source has ended and no inner sequence is left.
    pub fn is_terminated(&self) -> (r: bool)
        ensures
            r == (self.inner_slot() is None && self.outer_done()),
    {
        self.inner.is_none() && self.done
    }

    /// Take the active inner sequence out, to resume it; the slot is empty
    /// until the following [`Self::on_inner_event`] settles its fate.
    pub fn take_inner(&mut self) -> (s: S)
        requires
            old(self).inner_slot() is Some,
        ensures
            old(self).inner_slot() == Some(s),
            final(self).inner_slot() is None,
            final(self).outer_done() == old(self).outer_done(),
    {
        let slot = self.inner.take();
        slot.unwrap()
    }

    /// Digest what the taken inner sequence reported. An item is emitted
    /// wrapped as a success and the inner sequence is kept; suspension keeps
    /// it too and propagates; its end releases it and directs the driver back
    /// to the outer source.
    pub fn on_inner_event<T, E>(&mut self, inner: S, ev: SourceEvent<T>) -> (r: StepOutcome<
        Result<T, E>,
    >)
        requires
            old(self).inner_slot() is None,
        ensures
            final(self).outer_done() == old(self).outer_done(),
            ev matches SourceEvent::Item(t) ==> r == StepOutcome::<Result<T, E>>::Emit(Ok(t))
                && final(self).inner_slot() == Some(inner),
            ev is Suspended ==> r is Suspend && final(self).inner_slot() == Some(inner),
            ev is End ==> r is Again && final(self).inner_slot() is None,
    {
        match ev {
            SourceEvent::Item(t) => {
                self.inner = Some(inner);
                StepOutcome::Emit(Ok(t))
            },
            SourceEvent::Suspended => {
                self.inner = Some(inner);
                StepOutcome::Suspend
            },
            SourceEvent::End => StepOutcome::Again,
        }
    }

    /// Digest what the outer source reported, with no inner sequence active.
    /// A success installs its sequence as the new inner and directs the
    /// driver to resume it; an error is emitted directly, unwrapped; `End`
    /// ends the whole adapter.
    pub fn on_outer_event<T, E>(&mut self, ev: SourceEvent<Result<S, E>>) -> (r: StepOutcome<
        Result<T, E>,
    >)
        requires
            old(self).inner_slot() is None,
            !old(self).outer_done(),
        ensures
            ev is Suspended ==> r is Suspend && *final(self) == *old(self),
            ev matches SourceEvent::Item(Ok(s)) ==> r is Again && final(self).inner_slot() == Some(
                s,
            ) && !final(self).outer_done(),
            ev matches SourceEvent::Item(Err(e)) ==> r == StepOutcome::<Result<T, E>>::Emit(Err(e))
                && *final(self) == *old(self),
            ev is End ==> r is End && final(self).inner_slot() is None && final(self).outer_done(),
    {
        match ev {
            SourceEvent::Suspended => StepOutcome::Suspend,
            SourceEvent::Item(Ok(s)) => {
                self.inner = Some(s);
                StepOutcome::Again
            },
            SourceEvent::Item(Err(e)) => StepOutcome::Emit(Err(e)),
            SourceEvent::End => {
                self.done = true;
                StepOutcome::End
            },
        }
    }
}

/// Flattens a source whose success values are finite, synchronously-drainable
/// iterables: the same outer protocol as [`FlattenOk`], but the inner never
/// suspends and yields one item per resume through the driver's call to it.
pub struct FlattenOkIter<I> {
    iter: Option<I>,
    done: bool,
}

impl<I> FlattenOkIter<I> {
    /// The inner iterable currently being drained, if any.
    pub closed spec fn iter_slot(self) -> Option<I> {
        self.iter
    }

    /// Whether the outer source has reported `End`.
    pub closed spec fn outer_done(self) -> bool {
        self.done
    }

    /// A flattening adapter with no active inner iterable.
    pub fn new() -> (s: Self)
        ensures
            s.iter_slot() is None,
            !s.outer_done(),
    {
        FlattenOkIter { iter: None, done: false }
    }

    /// Whether an inner iterable is active; if so, the driver must draw from
    /// it, not from the outer source.
    pub fn has_iter(&self) -> (r: bool)
        ensures
            r == (self.iter_slot() is Some),
    {
        self.iter.is_some()
    }

    /// Whether the outer source has ended; its own report, passed through.
    pub fn is_terminated(&self) -> (r: bool)
        ensures
            r == self.outer_done(),
    {
        self.done
    }

    /// Take the active inner iterable out, to draw its next item.
    pub fn take_iter(&mut self) -> (it: I)
        requires
            old(self).iter_slot() is Some,
        ensures
            old(self).iter_slot() == Some(it),
            final(self).iter_slot() is None,
            final(self).outer_done() == old(self).outer_done(),
    {
        let slot = self.iter.take();
        slot.unwrap()
    }

    /// Digest one draw from the taken inner iterable. An item is emitted
    /// wrapped as a success and the iterable is kept; exhaustion releases it
    /// and directs the driver back to the outer source.
    pub fn on_iter_next<T, E>(&mut self, it: I, item: Option<T>) -> (r: StepOutcome<Result<T, E>>)
        requires
            old(self).iter_slot() is None,
        ensures
            final(self).outer_done() == old(self).outer_done(),
            item matches Some(t) ==> r == StepOutcome::<Result<T, E>>::Emit(Ok(t)) && final(self).iter_slot() == Some(it),
            item is None ==> r is Again && final(self).iter_slot() is None,
    {
        match item {
            Some(t) => {
                self.iter = Some(it);
                StepOutcome::Emit(Ok(t))
            },
            None => StepOutcome::Again,
        }
    }

    /// Digest what the outer source reported, with no inner iterable active;
    /// as [`FlattenOk::on_outer_event`], a success installing its iterable.
    pub fn on_outer_event<T, E>(&mut self, ev: SourceEvent<Result<I, E>>) -> (r: StepOutcome<
        Result<T, E>,
    >)
        requires
            old(self).iter_slot() is None,
            !old(self).outer_done(),
        ensures
            ev is Suspended ==> r is Suspend && *final(self) == *old(self),
            ev matches SourceEvent::Item(Ok(it)) ==> r is Again && final(self).iter_slot() == Some(
                it,
            ) && !final(self).outer_done(),
            ev matches SourceEvent::Item(Err(e)) ==> r == StepOutcome::<Result<T, E>>::Emit(Err(e))
                && *final(self) == *old(self),
            ev is End ==> r is End && final(self).iter_slot() is None && final(self).outer_done(),
    {
        match ev {
            SourceEvent::Suspended => StepOutcome::Suspend,
            SourceEvent::Item(Ok(it)) => {
                self.iter = Some(it);
                StepOutcome::Again
            },
            SourceEvent::Item(Err(e)) => StepOutcome::Emit(Err(e)),
            SourceEvent::End => {
                self.done = true;
                StepOutcome::End
            },
        }
    }
}

/// Collapses a source whose success values are themselves results, merging
/// either error level into the single error channel: success-of-success
/// becomes success, success-of-error and outer error become errors. Exactly
/// one upstream item maps to exactly one downstream item per resume; no
/// buffering.
pub struct FlattenOkResult {
    done: bool,
}

impl FlattenOkResult {
    /// Whether the source has reported `End`.
    pub closed spec fn source_done(self) -> bool {
        self.done
    }

    /// A nested-result collapsing adapter.
    pub fn new() -> (s: Self)
        ensures
            !s.source_done(),
    {
        FlattenOkResult { done: false }
    }

    /// Whether the source has ended; its own report, passed through.
    pub fn is_terminated(&self) -> (r: bool)
        ensures
            r == self.source_done(),
    {
        self.done
    }

    /// Digest one source report: both error levels land in the same error
    /// channel, a doubly-wrapped success is emitted singly wrapped.
    pub fn step<T, E>(&mut self, ev: SourceEvent<Result<Result<T, E>, E>>) -> (r: StepOutcome<
        Result<T, E>,
    >)
        requires
            !old(self).source_done(),
        ensures
            ev is Suspended ==> r is Suspend && !final(self).source_done(),
            ev matches SourceEvent::Item(Ok(Ok(t))) ==> r == StepOutcome::<Result<T, E>>::Emit(
                Ok(t),
            ) && !final(self).source_done(),
            ev matches SourceEvent::Item(Ok(Err(e))) ==> r == StepOutcome::<Result<T, E>>::Emit(
                Err(e),
            ) && !final(self).source_done(),
            ev matches SourceEvent::Item(Err(e)) ==> r == StepOutcome::<Result<T, E>>::Emit(Err(e))
                && !final(self).source_done(),
            ev is End ==> r is End && final(self).source_done(),
    {
        match ev {
            SourceEvent::Suspended => StepOutcome::Suspend,
            SourceEvent::Item(Ok(Ok(t))) => StepOutcome::Emit(Ok(t)),
            SourceEvent::Item(Ok(Err(e))) => StepOutcome::Emit(Err(e)),
            SourceEvent::Item(Err(e)) => StepOutcome::Emit(Err(e)),
            SourceEvent::End => {
                self.done = true;
                StepOutcome::End
            },
        }
    }
}

} // verus!
