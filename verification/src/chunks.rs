//! Capacity-bounded chunk buffering.
//!
//! [`ReadyChunks`] batches the items of an infallible source into groups of at
//! most `capacity` items. [`TryReadyChunksResult`] does the same for a
//! fallible source: an error flushes the batch collected so far and is itself
//! reported from the following resume, through a one-slot deferred register.
//!
//! The policy, on each resume: drain all currently-ready items into a local
//! buffer; flush as soon as the buffer reaches capacity; flush a partial
//! buffer as soon as the source suspends or ends with something buffered;
//! never wait once something is buffered and nothing more is ready.

use vstd::prelude::*;
use vstd::seq_lib::*;

use crate::protocol::{SourceEvent, StepOutcome};
use crate::results::{errs_of, lemma_results_split_concat, lemma_results_split_singleton, oks_of};

verus! {

/// One step of the chunk-buffering policy over the mathematical state: the
/// buffered items so far, the capacity, and what the source just reported.
/// Returns the new buffer and the directive for the driver.
pub open spec fn chunks_step<T>(buf: Seq<T>, cap: nat, ev: SourceEvent<T>) -> (Seq<T>, StepOutcome<
    Seq<T>,
>) {
    match ev {
        SourceEvent::Suspended => {
            if buf.len() == 0 {
                (buf, StepOutcome::Suspend)
            } else {
                (Seq::empty(), StepOutcome::Emit(buf))
            }
        },
        SourceEvent::Item(t) => {
            let grown = buf.push(t);
            if grown.len() >= cap {
                (Seq::empty(), StepOutcome::Emit(grown))
            } else {
                (grown, StepOutcome::Again)
            }
        },
        SourceEvent::End => {
            if buf.len() == 0 {
                (buf, StepOutcome::End)
            } else {
                (Seq::empty(), StepOutcome::Emit(buf))
            }
        },
    }
}

/// The abstraction of an emitted directive: the chunk it carries, as a
/// sequence, if it carries one.
pub open spec fn chunk_outcome_view<T>(r: StepOutcome<Vec<T>>) -> StepOutcome<Seq<T>> {
    match r {
        StepOutcome::Emit(v) => StepOutcome::Emit(v@),
        StepOutcome::Suspend => StepOutcome::Suspend,
        StepOutcome::End => StepOutcome::End,
        StepOutcome::Again => StepOutcome::Again,
    }
}

/// The items that a sequence of source events carries, in arrival order.
pub open spec fn ready_items<T>(evs: Seq<SourceEvent<T>>) -> Seq<T>
    decreases evs.len(),
{
    if evs.len() == 0 {
        Seq::empty()
    } else {
        (match evs[0] {
            SourceEvent::Item(t) => seq![t],
            _ => Seq::empty(),
        }) + ready_items(evs.skip(1))
    }
}

/// The chunks emitted, and the final buffer, when the policy digests a whole
/// sequence of source events starting from the given buffer.
pub open spec fn chunks_run<T>(buf: Seq<T>, cap: nat, evs: Seq<SourceEvent<T>>) -> (Seq<Seq<T>>, Seq<
    T,
>)
    decreases evs.len(),
{
    if evs.len() == 0 {
        (Seq::empty(), buf)
    } else {
        let (buf1, out) = chunks_step(buf, cap, evs[0]);
        let (rest, buf_end) = chunks_run(buf1, cap, evs.skip(1));
        match out {
            StepOutcome::Emit(c) => (seq![c] + rest, buf_end),
            _ => (rest, buf_end),
        }
    }
}

/// Law: concatenating every chunk the policy emits, followed by whatever is
/// still buffered, reproduces exactly the initial buffer followed by the items
/// the source produced, in order. Nothing is lost, duplicated or reordered.
/// Once the source has reported `End`, nothing is left buffered, so over a
/// whole run the concatenation of the chunks alone reproduces the input.
pub proof fn lemma_chunks_concat<T>(buf: Seq<T>, cap: nat, evs: Seq<SourceEvent<T>>)
    ensures
        ({
            let (chunks, buf_end) = chunks_run(buf, cap, evs);
            chunks.flatten() + buf_end == buf + ready_items(evs)
        }),
        evs.len() > 0 && evs.last() is End ==> chunks_run(buf, cap, evs).1 == Seq::<T>::empty(),
    decreases evs.len(),
{
    broadcast use {Seq::add_empty_left, Seq::add_empty_right};

    if evs.len() == 0 {
        let (chunks, buf_end) = chunks_run(buf, cap, evs);
        assert(chunks.flatten() + buf_end =~= buf + ready_items(evs));
    } else {
        let (buf1, out) = chunks_step(buf, cap, evs[0]);
        let (rest, buf_end) = chunks_run(buf1, cap, evs.skip(1));
        lemma_chunks_concat(buf1, cap, evs.skip(1));
        match out {
            StepOutcome::Emit(c) => {
                assert((seq![c] + rest).flatten() == c + rest.flatten()) by {
                    lemma_flatten_concat(seq![c], rest);
                    seq![c].lemma_flatten_one_element();
                }
                assert((c + rest.flatten()) + buf_end =~= buf + ready_items(evs));
            },
            _ => {
                assert(rest.flatten() + buf_end =~= buf + ready_items(evs));
            },
        }
        if evs.last() is End {
            if evs.len() == 1 {
                assert(chunks_run(buf, cap, evs).1 =~= Seq::<T>::empty());
            } else {
                assert(evs.skip(1).last() == evs.last());
            }
        }
    }
}

/// A fused source reports `End` on every resume after the first `End`.
pub open spec fn fused_events<T>(evs: Seq<SourceEvent<T>>) -> bool {
    forall|i: int, j: int|
        0 <= i < j < evs.len() && (#[trigger] evs[i]) is End ==> (#[trigger] evs[j]) is End
}

/// After the source has ended and the buffer is empty, nothing more is emitted.
proof fn lemma_chunks_run_ended<T>(cap: nat, evs: Seq<SourceEvent<T>>)
    requires
        forall|i: int| 0 <= i < evs.len() ==> #[trigger] evs[i] is End,
    ensures
        chunks_run(Seq::<T>::empty(), cap, evs).0 == Seq::<Seq<T>>::empty(),
    decreases evs.len(),
{
    if evs.len() > 0 {
        assert(evs[0] is End);
        lemma_chunks_run_ended(cap, evs.skip(1));
    }
}

/// Law: when the source never suspends and is fused, every emitted chunk is
/// non-empty and no larger than the capacity, and every chunk except possibly
/// the last is exactly full. Only a suspension or the end of the source can
/// force a partial chunk.
pub proof fn lemma_chunks_full_when_never_suspended<T>(
    buf: Seq<T>,
    cap: nat,
    evs: Seq<SourceEvent<T>>,
)
    requires
        1 <= cap,
        buf.len() < cap,
        fused_events(evs),
        forall|i: int| 0 <= i < evs.len() ==> !(#[trigger] evs[i] is Suspended),
    ensures
        ({
            let (chunks, buf_end) = chunks_run(buf, cap, evs);
            forall|i: int|
                0 <= i < chunks.len() ==> 1 <= (#[trigger] chunks[i]).len() <= cap && (i
                    < chunks.len() - 1 ==> chunks[i].len() == cap)
        }),
    decreases evs.len(),
{
    let chunks = chunks_run(buf, cap, evs).0;
    if evs.len() > 0 {
        let tail = evs.skip(1);
        let (buf1, out) = chunks_step(buf, cap, evs[0]);
        let rest = chunks_run(buf1, cap, tail).0;
        assert(forall|k: int| 0 <= k < tail.len() ==> #[trigger] tail[k] == evs[k + 1]);
        match evs[0] {
            SourceEvent::Item(t) => {
                lemma_chunks_full_when_never_suspended(buf1, cap, tail);
                if buf.push(t).len() >= cap {
                    assert(chunks == seq![buf.push(t)] + rest);
                    assert(chunks[0] == buf.push(t));
                    assert(chunks[0].len() == cap);
                    assert(forall|i: int| 1 <= i < chunks.len() ==> #[trigger] chunks[i] == rest[i
                        - 1]);
                } else {
                    assert(chunks == rest);
                }
            },
            SourceEvent::End => {
                // Every later event is `End` too, so the run from the flushed
                // (now empty) buffer emits nothing further.
                assert(forall|k: int| 0 <= k < tail.len() ==> (#[trigger] tail[k]) is End);
                assert(buf1 =~= Seq::<T>::empty());
                lemma_chunks_run_ended(cap, tail);
                assert(rest == Seq::<Seq<T>>::empty());
                if buf.len() > 0 {
                    assert(chunks == seq![buf] + rest);
                    assert(chunks.len() == 1);
                    assert(chunks[0] == buf);
                } else {
                    assert(chunks == rest);
                }
            },
            SourceEvent::Suspended => {
                assert(false);
            },
        }
    }
}

/// Batches the ready items of an infallible source into groups of at most
/// `capacity` items. The host runtime polls the source, hands each report to
/// [`ReadyChunks::step`], and obeys the returned directive; the mathematical
/// meaning of one step is [`chunks_step`], and of a whole run,
/// [`chunks_run`].
pub struct ReadyChunks<T> {
    buf: Vec<T>,
    cap: usize,
}

impl<T> ReadyChunks<T> {
    /// The capacity fixed at construction.
    pub closed spec fn capacity(self) -> nat {
        self.cap as nat
    }

    /// The items buffered and not yet flushed, in arrival order.
    pub closed spec fn buffered(self) -> Seq<T> {
        self.buf@
    }

    /// Between steps the buffer is always strictly below capacity: a full
    /// buffer is flushed within the step that filled it.
    pub open spec fn wf(self) -> bool {
        1 <= self.capacity() && self.buffered().len() < self.capacity()
    }

    /// A chunking adapter over a source of items of type `T`. A capacity of
    /// zero is rejected at construction; it is never a resume-time failure.
    pub fn new(capacity: usize) -> (s: Self)
        requires
            1 <= capacity,
        ensures
            s.wf(),
            s.capacity() == capacity,
            s.buffered() == Seq::<T>::empty(),
    {
        ReadyChunks { buf: Vec::new(), cap: capacity }
    }

    /// Digest one source report; the state and directive change exactly as
    /// [`chunks_step`] says.
    pub fn step(&mut self, ev: SourceEvent<T>) -> (r: StepOutcome<Vec<T>>)
        requires
            old(self).wf(),
        ensures
            final(self).wf(),
            final(self).capacity() == old(self).capacity(),
            ({
                let (buf1, out) = chunks_step(old(self).buffered(), old(self).capacity(), ev);
                final(self).buffered() == buf1 && chunk_outcome_view(r) == out
            }),
    {
        match ev {
            SourceEvent::Suspended => {
                if self.buf.len() == 0 {
                    StepOutcome::Suspend
                } else {
                    StepOutcome::Emit(self.flush())
                }
            },
            SourceEvent::Item(t) => {
                self.buf.push(t);
                if self.buf.len() >= self.cap {
                    StepOutcome::Emit(self.flush())
                } else {
                    StepOutcome::Again
                }
            },
            SourceEvent::End => {
                if self.buf.len() == 0 {
                    StepOutcome::End
                } else {
                    StepOutcome::Emit(self.flush())
                }
            },
        }
    }

    /// The size estimate for the produced sequence of chunks: the source's
    /// lower bound divided by the capacity. A trailing partial chunk makes
    /// this an underestimate; it is a non-binding hint only.
    pub fn size_estimate(&self, source_lower: usize, source_upper: Option<usize>) -> (r: (
        usize,
        Option<usize>,
    ))
        requires
            self.wf(),
        ensures
            r.0 == source_lower as int / self.capacity() as int,
            r.1 == source_upper,
    {
        (source_lower / self.cap, source_upper)
    }

    /// Take the whole buffer out, leaving it empty.
    fn flush(&mut self) -> (r: Vec<T>)
        ensures
            r@ == old(self).buffered(),
            final(self).buffered() == Seq::<T>::empty(),
            final(self).capacity() == old(self).capacity(),
    {
        let mut out: Vec<T> = Vec::new();
        core::mem::swap(&mut out, &mut self.buf);
        out
    }
}

/// One step of the fallible chunk-buffering policy: besides the new buffer
/// and the directive, it may leave one error in the deferred register, to be
/// drained at the start of the next resume.
pub open spec fn try_chunks_step<T, E>(buf: Seq<T>, cap: nat, ev: SourceEvent<Result<T, E>>) -> (
    Seq<T>,
    Option<E>,
    StepOutcome<Result<Seq<T>, E>>,
) {
    match ev {
        SourceEvent::Suspended => {
            if buf.len() == 0 {
                (buf, None, StepOutcome::Suspend)
            } else {
                (Seq::empty(), None, StepOutcome::Emit(Ok(buf)))
            }
        },
        SourceEvent::Item(Ok(t)) => {
            let grown = buf.push(t);
            if grown.len() >= cap {
                (Seq::empty(), None, StepOutcome::Emit(Ok(grown)))
            } else {
                (grown, None, StepOutcome::Again)
            }
        },
        SourceEvent::Item(Err(e)) => {
            if buf.len() == 0 {
                (buf, None, StepOutcome::Emit(Err(e)))
            } else {
                (Seq::empty(), Some(e), StepOutcome::Emit(Ok(buf)))
            }
        },
        SourceEvent::End => {
            if buf.len() == 0 {
                (buf, None, StepOutcome::End)
            } else {
                (Seq::empty(), None, StepOutcome::Emit(Ok(buf)))
            }
        },
    }
}

/// The abstraction of an emitted directive of the fallible policy.
pub open spec fn try_chunk_outcome_view<T, E>(r: StepOutcome<Result<Vec<T>, E>>) -> StepOutcome<
    Result<Seq<T>, E>,
> {
    match r {
        StepOutcome::Emit(Ok(v)) => StepOutcome::Emit(Ok(v@)),
        StepOutcome::Emit(Err(e)) => StepOutcome::Emit(Err(e)),
        StepOutcome::Suspend => StepOutcome::Suspend,
        StepOutcome::End => StepOutcome::End,
        StepOutcome::Again => StepOutcome::Again,
    }
}

/// Everything the fallible policy emits over a whole sequence of source
/// events, in emission order, together with the final buffer. A deferred
/// error is listed right after the flush that deferred it, which is where the
/// drain of the next resume reports it.
pub open spec fn try_chunks_run<T, E>(buf: Seq<T>, cap: nat, evs: Seq<SourceEvent<Result<T, E>>>) -> (
    Seq<Result<Seq<T>, E>>,
    Seq<T>,
)
    decreases evs.len(),
{
    if evs.len() == 0 {
        (Seq::empty(), buf)
    } else {
        let (buf1, deferred, out) = try_chunks_step(buf, cap, evs[0]);
        let (rest, buf_end) = try_chunks_run(buf1, cap, evs.skip(1));
        let here = match out {
            StepOutcome::Emit(x) => seq![x],
            _ => Seq::empty(),
        };
        let deferred_out = match deferred {
            Some(e) => seq![Result::<Seq<T>, E>::Err(e)],
            None => Seq::empty(),
        };
        (here + deferred_out + rest, buf_end)
    }
}

/// The success payloads among the items of a fallible source, in order.
pub open spec fn ok_items<T, E>(evs: Seq<SourceEvent<Result<T, E>>>) -> Seq<T>
    decreases evs.len(),
{
    if evs.len() == 0 {
        Seq::empty()
    } else {
        (match evs[0] {
            SourceEvent::Item(Ok(t)) => seq![t],
            _ => Seq::empty(),
        }) + ok_items(evs.skip(1))
    }
}

/// The error payloads among the items of a fallible source, in order.
pub open spec fn err_items<T, E>(evs: Seq<SourceEvent<Result<T, E>>>) -> Seq<E>
    decreases evs.len(),
{
    if evs.len() == 0 {
        Seq::empty()
    } else {
        (match evs[0] {
            SourceEvent::Item(Err(e)) => seq![e],
            _ => Seq::empty(),
        }) + err_items(evs.skip(1))
    }
}

/// Law: over any whole run of the fallible policy, concatenating the success
/// chunks, followed by what is still buffered, reproduces exactly the initial
/// buffer followed by the success items of the source; and the errors are
/// reported exactly once each, in arrival order, never batched away. Once
/// the source has reported `End`, nothing is left buffered, so over a whole
/// run the success chunks alone reproduce the error-free input.
pub proof fn lemma_try_chunks_round_trip<T, E>(
    buf: Seq<T>,
    cap: nat,
    evs: Seq<SourceEvent<Result<T, E>>>,
)
    ensures
        ({
            let (outs, buf_end) = try_chunks_run(buf, cap, evs);
            oks_of(outs).flatten() + buf_end == buf + ok_items(evs) && errs_of(outs)
                == err_items(evs)
        }),
        evs.len() > 0 && evs.last() is End ==> try_chunks_run(buf, cap, evs).1 == Seq::<
            T,
        >::empty(),
    decreases evs.len(),
{
    broadcast use {Seq::add_empty_left, Seq::add_empty_right};

    if evs.len() == 0 {
        let (outs, buf_end) = try_chunks_run(buf, cap, evs);
        assert(oks_of(outs).flatten() + buf_end =~= buf + ok_items(evs));
        assert(errs_of(outs) =~= err_items(evs));
    } else {
        let tail = evs.skip(1);
        let (buf1, deferred, out) = try_chunks_step(buf, cap, evs[0]);
        let (rest, buf_end) = try_chunks_run(buf1, cap, tail);
        let (outs, _) = try_chunks_run(buf, cap, evs);
        lemma_try_chunks_round_trip(buf1, cap, tail);
        let here = match out {
            StepOutcome::Emit(x) => seq![x],
            _ => Seq::<Result<Seq<T>, E>>::empty(),
        };
        let deferred_out = match deferred {
            Some(e) => seq![Result::<Seq<T>, E>::Err(e)],
            None => Seq::<Result<Seq<T>, E>>::empty(),
        };
        lemma_results_split_concat(here + deferred_out, rest);
        lemma_results_split_concat(here, deferred_out);
        lemma_flatten_concat(oks_of(here + deferred_out), oks_of(rest));
        lemma_flatten_concat(oks_of(here), oks_of(deferred_out));
        assert(outs == (here + deferred_out) + rest);
        assert(Seq::<Seq<T>>::empty().flatten() == Seq::<T>::empty());
        match out {
            StepOutcome::Emit(x) => {
                lemma_results_split_singleton::<Seq<T>, E>(x);
                if let Ok(c) = x {
                    seq![c].lemma_flatten_one_element();
                    assert(oks_of(here).flatten() == c);
                }
            },
            _ => {
                assert(here =~= Seq::<Result<Seq<T>, E>>::empty());
            },
        }
        match deferred {
            Some(e) => {
                lemma_results_split_singleton::<Seq<T>, E>(Err(e));
            },
            None => {
                assert(deferred_out =~= Seq::<Result<Seq<T>, E>>::empty());
            },
        }
        assert(oks_of(outs).flatten() + buf_end =~= buf + ok_items(evs));
        assert(errs_of(outs) =~= err_items(evs));
        if evs.last() is End {
            if evs.len() == 1 {
                assert(try_chunks_run(buf, cap, evs).1 =~= Seq::<T>::empty());
            } else {
                assert(tail.last() == evs.last());
            }
        }
    }
}

/// Batches the success items of a fallible source into groups of at most
/// `capacity` items, interrupting on errors. An error that arrives with a
/// non-empty buffer flushes the buffered success chunk first and is held in
/// the one-slot deferred register, which the next resume drains before any
/// further buffering; consecutive errors are each reported from their own
/// resume. The mathematical meaning of one step is [`try_chunks_step`], and
/// of a whole run, [`try_chunks_run`].
pub struct TryReadyChunksResult<T, E> {
    buf: Vec<T>,
    cap: usize,
    err: Option<E>,
}

impl<T, E> TryReadyChunksResult<T, E> {
    /// The capacity fixed at construction.
    pub closed spec fn capacity(self) -> nat {
        self.cap as nat
    }

    /// The success items buffered and not yet flushed, in arrival order.
    pub closed spec fn buffered(self) -> Seq<T> {
        self.buf@
    }

    /// The deferred error register: at most one error waiting to be reported.
    pub closed spec fn deferred(self) -> Option<E> {
        self.err
    }

    /// Between steps the buffer is always strictly below capacity.
    pub open spec fn wf(self) -> bool {
        1 <= self.capacity() && self.buffered().len() < self.capacity()
    }

    /// A chunking adapter over a fallible source. A capacity of zero is
    /// rejected at construction; it is never a resume-time failure.
    pub fn new(capacity: usize) -> (s: Self)
        requires
            1 <= capacity,
        ensures
            s.wf(),
            s.capacity() == capacity,
            s.buffered() == Seq::<T>::empty(),
            s.deferred() is None,
    {
        TryReadyChunksResult { buf: Vec::new(), cap: capacity, err: None }
    }

    /// Drain the deferred register; to be called at the start of every
    /// resume, before any polling. A returned error is the result of this
    /// resume — an item-level report, not a terminal condition.
    pub fn begin(&mut self) -> (r: Option<E>)
        requires
            old(self).wf(),
        ensures
            final(self).wf(),
            final(self).capacity() == old(self).capacity(),
            final(self).buffered() == old(self).buffered(),
            final(self).deferred() is None,
            r == old(self).deferred(),
    {
        let mut out: Option<E> = None;
        core::mem::swap(&mut out, &mut self.err);
        out
    }

    /// Digest one source report; the state, the deferred register and the
    /// directive change exactly as [`try_chunks_step`] says. The deferred
    /// register must have been drained by [`Self::begin`] first.
    pub fn step(&mut self, ev: SourceEvent<Result<T, E>>) -> (r: StepOutcome<Result<Vec<T>, E>>)
        requires
            old(self).wf(),
            old(self).deferred() is None,
        ensures
            final(self).wf(),
            final(self).capacity() == old(self).capacity(),
            ({
                let (buf1, deferred, out) = try_chunks_step(
                    old(self).buffered(),
                    old(self).capacity(),
                    ev,
                );
                final(self).buffered() == buf1 && final(self).deferred() == deferred
                    && try_chunk_outcome_view(r) == out
            }),
    {
        match ev {
            SourceEvent::Suspended => {
                if self.buf.len() == 0 {
                    StepOutcome::Suspend
                } else {
                    StepOutcome::Emit(Ok(self.flush()))
                }
            },
            SourceEvent::Item(Ok(t)) => {
                self.buf.push(t);
                if self.buf.len() >= self.cap {
                    StepOutcome::Emit(Ok(self.flush()))
                } else {
                    StepOutcome::Again
                }
            },
            SourceEvent::Item(Err(e)) => {
                if self.buf.len() == 0 {
                    StepOutcome::Emit(Err(e))
                } else {
                    self.err = Some(e);
                    StepOutcome::Emit(Ok(self.flush()))
                }
            },
            SourceEvent::End => {
                if self.buf.len() == 0 {
                    StepOutcome::End
                } else {
                    StepOutcome::Emit(Ok(self.flush()))
                }
            },
        }
    }

    /// The size estimate: the source's own estimate, plus one for a deferred
    /// error that is certain to be emitted. Saturating; a non-binding hint.
    pub fn size_estimate(&self, source_lower: usize, source_upper: Option<usize>) -> (r: (
        usize,
        Option<usize>,
    ))
        ensures
            self.deferred() is Some ==> r.0 == source_lower.saturating_add(1) && (match source_upper {
                Some(u) => r.1 == Some(u.saturating_add(1)),
                None => r.1 is None,
            }),
            self.deferred() is None ==> r.0 == source_lower && r.1 == source_upper,
    {
        if self.err.is_some() {
            (
                source_lower.saturating_add(1),
                match source_upper {
                    Some(u) => Some(u.saturating_add(1)),
                    None => None,
                },
            )
        } else {
            (source_lower, source_upper)
        }
    }

    /// Take the whole buffer out, leaving it empty.
    fn flush(&mut self) -> (r: Vec<T>)
        ensures
            r@ == old(self).buffered(),
            final(self).buffered() == Seq::<T>::empty(),
            final(self).capacity() == old(self).capacity(),
            final(self).deferred() == old(self).deferred(),
    {
        let mut out: Vec<T> = Vec::new();
        core::mem::swap(&mut out, &mut self.buf);
        out
    }
}

} // verus!
