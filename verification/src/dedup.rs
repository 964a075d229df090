//! Deduplication adapters.
//!
//! Each adapter filters the items of one source, keeping only the first item
//! observed for each key and discarding every later item with a key already
//! seen. The key is the item itself ([`Unique`], [`UniqueOk`]) or derived by
//! a caller-supplied key function, applied by the host runtime before the
//! item is offered ([`UniqueBy`], [`UniqueByOk`]). The result-aware variants
//! pass error values through untouched: errors are neither deduplicated
//! against nor recorded.
//!
//! The mathematical meaning of a whole run over the arriving `(item, key)`
//! pairs is [`dedup_run`]; the laws below pin it down: the output is a
//! subsequence of the input in arrival order, holds exactly the first
//! occurrence of each key, and is never longer than the input.

use core::hash::Hash;
use std::collections::HashSet;

use vstd::prelude::*;
use vstd::std_specs::hash::obeys_key_model;

use crate::protocol::{SourceEvent, StepOutcome};

verus! {

/// The pairs that survive deduplication, given the keys already seen: the
/// first pair carrying each not-yet-seen key, in arrival order.
pub open spec fn dedup_run<T, K>(pairs: Seq<(T, K)>, seen: Set<K>) -> Seq<(T, K)>
    decreases pairs.len(),
{
    if pairs.len() == 0 {
        Seq::empty()
    } else if seen.contains(pairs[0].1) {
        dedup_run(pairs.skip(1), seen)
    } else {
        seq![pairs[0]] + dedup_run(pairs.skip(1), seen.insert(pairs[0].1))
    }
}

/// `sub` can be obtained from `sup` by deleting elements, keeping the order
/// of the rest.
pub open spec fn is_subsequence_of<A>(sub: Seq<A>, sup: Seq<A>) -> bool
    decreases sup.len(),
{
    if sub.len() == 0 {
        true
    } else if sup.len() == 0 {
        false
    } else {
        (sub[0] == sup[0] && is_subsequence_of(sub.skip(1), sup.skip(1))) || is_subsequence_of(
            sub,
            sup.skip(1),
        )
    }
}

/// No index before `i` carries the same key as the pair at `i`.
pub open spec fn first_with_its_key<T, K>(pairs: Seq<(T, K)>, i: int) -> bool {
    forall|i2: int| 0 <= i2 < i ==> (#[trigger] pairs[i2]).1 != pairs[i].1
}

/// Law: what deduplication emits is a subsequence of its input — arrival
/// order is preserved and nothing is invented — and is never longer than the
/// input.
pub proof fn lemma_dedup_subsequence<T, K>(pairs: Seq<(T, K)>, seen: Set<K>)
    ensures
        is_subsequence_of(dedup_run(pairs, seen), pairs),
        dedup_run(pairs, seen).len() <= pairs.len(),
    decreases pairs.len(),
{
    let out = dedup_run(pairs, seen);
    if pairs.len() == 0 {
    } else if seen.contains(pairs[0].1) {
        lemma_dedup_subsequence(pairs.skip(1), seen);
    } else {
        let rest = dedup_run(pairs.skip(1), seen.insert(pairs[0].1));
        lemma_dedup_subsequence(pairs.skip(1), seen.insert(pairs[0].1));
        assert(out[0] == pairs[0]);
        assert(out.skip(1) =~= rest);
    }
}

/// Law: no key is emitted twice, and no emitted key was in the seen set the
/// run started from.
pub proof fn lemma_dedup_distinct_keys<T, K>(pairs: Seq<(T, K)>, seen: Set<K>)
    ensures
        ({
            let out = dedup_run(pairs, seen);
            forall|i: int, j: int| 0 <= i < j < out.len() ==> out[i].1 != out[j].1
        }),
        ({
            let out = dedup_run(pairs, seen);
            forall|i: int| 0 <= i < out.len() ==> !seen.contains((#[trigger] out[i]).1)
        }),
    decreases pairs.len(),
{
    let out = dedup_run(pairs, seen);
    if pairs.len() == 0 {
    } else if seen.contains(pairs[0].1) {
        lemma_dedup_distinct_keys(pairs.skip(1), seen);
        let rest = dedup_run(pairs.skip(1), seen);
        assert forall|i: int, j: int| 0 <= i < j < out.len() implies out[i].1 != out[j].1 by {
            assert(out[i] == rest[i] && out[j] == rest[j]);
        }
        assert forall|i: int| 0 <= i < out.len() implies !seen.contains((#[trigger] out[i]).1) by {
            assert(out[i] == rest[i]);
        }
    } else {
        let k = pairs[0].1;
        let rest = dedup_run(pairs.skip(1), seen.insert(k));
        lemma_dedup_distinct_keys(pairs.skip(1), seen.insert(k));
        assert(out[0] == pairs[0]);
        assert forall|i: int, j: int| 0 <= i < j < out.len() implies out[i].1 != out[j].1 by {
            assert(out[j] == rest[j - 1]);
            assert(!seen.insert(k).contains(rest[j - 1].1));
            if i > 0 {
                assert(out[i] == rest[i - 1]);
            }
        }
        assert forall|i: int| 0 <= i < out.len() implies !seen.contains((#[trigger] out[i]).1) by {
            if i > 0 {
                assert(out[i] == rest[i - 1]);
                assert(!seen.insert(k).contains(rest[i - 1].1));
            }
        }
    }
}

/// Law: deduplication is complete — every input pair whose key was not
/// already seen has its key represented in the output.
pub proof fn lemma_dedup_complete<T, K>(pairs: Seq<(T, K)>, seen: Set<K>)
    ensures
        ({
            let out = dedup_run(pairs, seen);
            forall|i: int|
                0 <= i < pairs.len() && !seen.contains((#[trigger] pairs[i]).1) ==> exists|j: int|
                    0 <= j < out.len() && (#[trigger] out[j]).1 == pairs[i].1
        }),
    decreases pairs.len(),
{
    let out = dedup_run(pairs, seen);
    if pairs.len() == 0 {
    } else if seen.contains(pairs[0].1) {
        lemma_dedup_complete(pairs.skip(1), seen);
        let rest = dedup_run(pairs.skip(1), seen);
        assert forall|i: int|
            0 <= i < pairs.len() && !seen.contains((#[trigger] pairs[i]).1) implies exists|j: int|
            0 <= j < out.len() && (#[trigger] out[j]).1 == pairs[i].1 by {
            assert(i >= 1);
            assert(pairs.skip(1)[i - 1] == pairs[i]);
            let j0 = choose|j0: int| 0 <= j0 < rest.len() && (#[trigger] rest[j0]).1 == pairs.skip(
                1,
            )[i - 1].1;
            assert(out[j0].1 == pairs[i].1);
        }
    } else {
        let k = pairs[0].1;
        let rest = dedup_run(pairs.skip(1), seen.insert(k));
        lemma_dedup_complete(pairs.skip(1), seen.insert(k));
        assert forall|i: int|
            0 <= i < pairs.len() && !seen.contains((#[trigger] pairs[i]).1) implies exists|j: int|
            0 <= j < out.len() && (#[trigger] out[j]).1 == pairs[i].1 by {
            if pairs[i].1 == k {
                assert(out[0].1 == pairs[i].1);
            } else {
                assert(i >= 1);
                assert(pairs.skip(1)[i - 1] == pairs[i]);
                assert(!seen.insert(k).contains(pairs.skip(1)[i - 1].1));
                let j0 = choose|j0: int|
                    0 <= j0 < rest.len() && (#[trigger] rest[j0]).1 == pairs.skip(1)[i - 1].1;
                assert(out[j0 + 1] == rest[j0]);
                assert(out[j0 + 1].1 == pairs[i].1);
            }
        }
    }
}

/// Law: each emitted pair is an input pair, its key was not already seen, and
/// it is the first input pair carrying its key — among duplicates, the first
/// arrival is the one retained.
pub proof fn lemma_dedup_first_occurrences<T, K>(pairs: Seq<(T, K)>, seen: Set<K>)
    ensures
        ({
            let out = dedup_run(pairs, seen);
            forall|j: int|
                0 <= j < out.len() ==> exists|i: int|
                    0 <= i < pairs.len() && #[trigger] out[j] == pairs[i] && !seen.contains(
                        pairs[i].1,
                    ) && first_with_its_key(pairs, i)
        }),
    decreases pairs.len(),
{
    let out = dedup_run(pairs, seen);
    if pairs.len() == 0 {
    } else {
        let k = pairs[0].1;
        let tail = pairs.skip(1);
        assert(forall|i2: int| 0 <= i2 < tail.len() ==> #[trigger] tail[i2] == pairs[i2 + 1]);
        if seen.contains(k) {
            lemma_dedup_first_occurrences(tail, seen);
            let rest = dedup_run(tail, seen);
            assert forall|j: int| 0 <= j < out.len() implies exists|i: int|
                0 <= i < pairs.len() && #[trigger] out[j] == pairs[i] && !seen.contains(pairs[i].1)
                    && first_with_its_key(pairs, i) by {
                assert(out[j] == rest[j]);
                assert(exists|i0: int|
                    0 <= i0 < tail.len() && #[trigger] rest[j] == tail[i0] && !seen.contains(
                        tail[i0].1,
                    ) && first_with_its_key(tail, i0));
                let i0 = choose|i0: int|
                    0 <= i0 < tail.len() && #[trigger] rest[j] == tail[i0] && !seen.contains(
                        tail[i0].1,
                    ) && first_with_its_key(tail, i0);
                let i = i0 + 1;
                assert(out[j] == pairs[i]);
                // The head's key is in `seen` while the emitted key is not,
                // so the head cannot carry the same key.
                assert forall|i2: int| 0 <= i2 < i implies (#[trigger] pairs[i2]).1 != pairs[i].1
                    by {
                    if i2 == 0 {
                        assert(pairs[i].1 != k);
                    } else {
                        assert(tail[i2 - 1] == pairs[i2]);
                        assert(tail[i2 - 1].1 != tail[i0].1);
                    }
                }
                assert(first_with_its_key(pairs, i));
                assert(0 <= i < pairs.len() && out[j] == pairs[i] && !seen.contains(pairs[i].1)
                    && first_with_its_key(pairs, i));
            }
        } else {
            let rest = dedup_run(tail, seen.insert(k));
            lemma_dedup_first_occurrences(tail, seen.insert(k));
            assert(forall|j: int| 1 <= j < out.len() ==> #[trigger] out[j] == rest[j - 1]);
            assert forall|j: int| 0 <= j < out.len() implies exists|i: int|
                0 <= i < pairs.len() && #[trigger] out[j] == pairs[i] && !seen.contains(pairs[i].1)
                    && first_with_its_key(pairs, i) by {
                if j == 0 {
                    assert(out[0] == pairs[0]);
                    assert(first_with_its_key(pairs, 0));
                    assert(0 <= 0 < pairs.len() && out[j] == pairs[0] && !seen.contains(pairs[0].1)
                        && first_with_its_key(pairs, 0));
                } else {
                    assert(out[j] == rest[j - 1]);
                    assert(exists|i0: int|
                        0 <= i0 < tail.len() && #[trigger] rest[j - 1] == tail[i0] && !seen.insert(
                            k,
                        ).contains(tail[i0].1) && first_with_its_key(tail, i0));
                    let i0 = choose|i0: int|
                        0 <= i0 < tail.len() && #[trigger] rest[j - 1] == tail[i0] && !seen.insert(
                            k,
                        ).contains(tail[i0].1) && first_with_its_key(tail, i0);
                    let i = i0 + 1;
                    assert(out[j] == pairs[i]);
                    assert(pairs[i].1 != k);
                    assert forall|i2: int| 0 <= i2 < i implies (#[trigger] pairs[i2]).1
                        != pairs[i].1 by {
                        if i2 > 0 {
                            assert(tail[i2 - 1] == pairs[i2]);
                            assert(tail[i2 - 1].1 != tail[i0].1);
                        }
                    }
                    assert(first_with_its_key(pairs, i));
                    assert(0 <= i < pairs.len() && out[j] == pairs[i] && !seen.contains(pairs[i].1)
                        && first_with_its_key(pairs, i));
                }
            }
        }
    }
}

/// Filters repeated keys from a source of `(item, key)` pairs, the key
/// derived from the item by the caller's key function before the pair is
/// offered. Keys are remembered across the whole run in a hash set; lookup is
/// by equality and hash.
pub struct UniqueBy<K> {
    seen: HashSet<K>,
}

impl<K: Eq + Hash> UniqueBy<K> {
    /// The keys observed so far.
    pub closed spec fn seen_keys(self) -> Set<K> {
        self.seen@
    }

    /// The hashing of the key type must agree with its equality; every
    /// primitive integer type qualifies.
    pub open spec fn wf(self) -> bool {
        obeys_key_model::<K>()
    }

    /// A deduplicating adapter with an empty memory.
    pub fn new() -> (s: Self)
        requires
            obeys_key_model::<K>(),
        ensures
            s.wf(),
            s.seen_keys() == Set::<K>::empty(),
    {
        UniqueBy { seen: HashSet::new() }
    }

    /// Digest one source report. A fresh key is recorded and its item
    /// emitted; an already-seen key discards the item and directs the driver
    /// to resume the source again. Suspension and termination pass through,
    /// leaving no partial state behind.
    pub fn step<T>(&mut self, ev: SourceEvent<(T, K)>) -> (r: StepOutcome<T>)
        requires
            old(self).wf(),
        ensures
            final(self).wf(),
            ev is Suspended ==> r is Suspend && final(self).seen_keys() == old(self).seen_keys(),
            ev is End ==> r is End && final(self).seen_keys() == old(self).seen_keys(),
            ev matches SourceEvent::Item(p) ==> if old(self).seen_keys().contains(p.1) {
                r is Again && final(self).seen_keys() == old(self).seen_keys()
            } else {
                r == StepOutcome::<T>::Emit(p.0) && final(self).seen_keys() == old(
                    self,
                ).seen_keys().insert(p.1)
            },
    {
        match ev {
            SourceEvent::Suspended => StepOutcome::Suspend,
            SourceEvent::End => StepOutcome::End,
            SourceEvent::Item((item, key)) => {
                if self.seen.insert(key) {
                    StepOutcome::Emit(item)
                } else {
                    StepOutcome::Again
                }
            },
        }
    }
}

/// Filters repeated items from a source, each item acting as its own key.
pub struct Unique<T> {
    seen: HashSet<T>,
}

impl<T: Eq + Hash + Copy> Unique<T> {
    /// The items observed so far.
    pub closed spec fn seen_keys(self) -> Set<T> {
        self.seen@
    }

    /// The hashing of the item type must agree with its equality.
    pub open spec fn wf(self) -> bool {
        obeys_key_model::<T>()
    }

    /// A deduplicating adapter with an empty memory.
    pub fn new() -> (s: Self)
        requires
            obeys_key_model::<T>(),
        ensures
            s.wf(),
            s.seen_keys() == Set::<T>::empty(),
    {
        Unique { seen: HashSet::new() }
    }

    /// Digest one source report; as [`UniqueBy::step`], with the item itself
    /// as the key.
    pub fn step(&mut self, ev: SourceEvent<T>) -> (r: StepOutcome<T>)
        requires
            old(self).wf(),
        ensures
            final(self).wf(),
            ev is Suspended ==> r is Suspend && final(self).seen_keys() == old(self).seen_keys(),
            ev is End ==> r is End && final(self).seen_keys() == old(self).seen_keys(),
            ev matches SourceEvent::Item(t) ==> if old(self).seen_keys().contains(t) {
                r is Again && final(self).seen_keys() == old(self).seen_keys()
            } else {
                r == StepOutcome::<T>::Emit(t) && final(self).seen_keys() == old(
                    self,
                ).seen_keys().insert(t)
            },
    {
        match ev {
            SourceEvent::Suspended => StepOutcome::Suspend,
            SourceEvent::End => StepOutcome::End,
            SourceEvent::Item(item) => {
                if self.seen.insert(item) {
                    StepOutcome::Emit(item)
                } else {
                    StepOutcome::Again
                }
            },
        }
    }
}

/// Filters repeated success values from a fallible source, keys derived by
/// the caller's key function; errors pass through untouched and are never
/// recorded.
pub struct UniqueByOk<K> {
    seen: HashSet<K>,
}

impl<K: Eq + Hash> UniqueByOk<K> {
    /// The keys observed so far.
    pub closed spec fn seen_keys(self) -> Set<K> {
        self.seen@
    }

    /// The hashing of the key type must agree with its equality.
    pub open spec fn wf(self) -> bool {
        obeys_key_model::<K>()
    }

    /// A deduplicating adapter with an empty memory.
    pub fn new() -> (s: Self)
        requires
            obeys_key_model::<K>(),
        ensures
            s.wf(),
            s.seen_keys() == Set::<K>::empty(),
    {
        UniqueByOk { seen: HashSet::new() }
    }

    /// Digest one source report. Success values are deduplicated by their
    /// key; an error is emitted unchanged, leaving the key memory alone.
    pub fn step<T, E>(&mut self, ev: SourceEvent<Result<(T, K), E>>) -> (r: StepOutcome<
        Result<T, E>,
    >)
        requires
            old(self).wf(),
        ensures
            final(self).wf(),
            ev is Suspended ==> r is Suspend && final(self).seen_keys() == old(self).seen_keys(),
            ev is End ==> r is End && final(self).seen_keys() == old(self).seen_keys(),
            ev matches SourceEvent::Item(Err(e)) ==> r == StepOutcome::<Result<T, E>>::Emit(Err(e))
                && final(self).seen_keys() == old(self).seen_keys(),
            ev matches SourceEvent::Item(Ok(p)) ==> if old(self).seen_keys().contains(p.1) {
                r is Again && final(self).seen_keys() == old(self).seen_keys()
            } else {
                r == StepOutcome::<Result<T, E>>::Emit(Ok(p.0)) && final(self).seen_keys() == old(
                    self,
                ).seen_keys().insert(p.1)
            },
    {
        match ev {
            SourceEvent::Suspended => StepOutcome::Suspend,
            SourceEvent::End => StepOutcome::End,
            SourceEvent::Item(Err(e)) => StepOutcome::Emit(Err(e)),
            SourceEvent::Item(Ok((item, key))) => {
                if self.seen.insert(key) {
                    StepOutcome::Emit(Ok(item))
                } else {
                    StepOutcome::Again
                }
            },
        }
    }
}

/// Filters repeated success values from a fallible source, each success value
/// acting as its own key; errors pass through untouched and are never
/// recorded.
pub struct UniqueOk<T> {
    seen: HashSet<T>,
}

impl<T: Eq + Hash + Copy> UniqueOk<T> {
    /// The success values observed so far.
    pub closed spec fn seen_keys(self) -> Set<T> {
        self.seen@
    }

    /// The hashing of the success type must agree with its equality.
    pub open spec fn wf(self) -> bool {
        obeys_key_model::<T>()
    }

    /// A deduplicating adapter with an empty memory.
    pub fn new() -> (s: Self)
        requires
            obeys_key_model::<T>(),
        ensures
            s.wf(),
            s.seen_keys() == Set::<T>::empty(),
    {
        UniqueOk { seen: HashSet::new() }
    }

    /// Digest one source report; as [`UniqueByOk::step`], with the success
    /// value itself as the key.
    pub fn step<E>(&mut self, ev: SourceEvent<Result<T, E>>) -> (r: StepOutcome<Result<T, E>>)
        requires
            old(self).wf(),
        ensures
            final(self).wf(),
            ev is Suspended ==> r is Suspend && final(self).seen_keys() == old(self).seen_keys(),
            ev is End ==> r is End && final(self).seen_keys() == old(self).seen_keys(),
            ev matches SourceEvent::Item(Err(e)) ==> r == StepOutcome::<Result<T, E>>::Emit(Err(e))
                && final(self).seen_keys() == old(self).seen_keys(),
            ev matches SourceEvent::Item(Ok(t)) ==> if old(self).seen_keys().contains(t) {
                r is Again && final(self).seen_keys() == old(self).seen_keys()
            } else {
                r == StepOutcome::<Result<T, E>>::Emit(Ok(t)) && final(self).seen_keys() == old(
                    self,
                ).seen_keys().insert(t)
            },
    {
        match ev {
            SourceEvent::Suspended => StepOutcome::Suspend,
            SourceEvent::End => StepOutcome::End,
            SourceEvent::Item(Err(e)) => StepOutcome::Emit(Err(e)),
            SourceEvent::Item(Ok(item)) => {
                if self.seen.insert(item) {
                    StepOutcome::Emit(Ok(item))
                } else {
                    StepOutcome::Again
                }
            },
        }
    }
}

} // verus!
