//! Quota-based round-robin merging of two sources.
//!
//! The merge emits up to `nb_first` items from the first source, then up to
//! `nb_second` from the second, repeating. Suspension of the active side
//! never forces a side switch: the same side is resumed next, with its
//! remaining quota preserved. A side that ends before spending its quota is
//! left permanently; the other side then serves alone until it too ends.

use vstd::prelude::*;

use crate::protocol::{SourceEvent, StepOutcome};

verus! {

/// The policy state of a round-robin merge of two sources. The host runtime
/// asks [`MergeRoundRobin::poll_first`] which side to resume, hands the
/// report to [`MergeRoundRobin::step`], and obeys the returned directive.
pub struct MergeRoundRobin {
    first_quota: usize,
    second_quota: usize,
    remaining: usize,
    on_first: bool,
    first_done: bool,
    second_done: bool,
}

impl MergeRoundRobin {
    /// The per-round quota of the first source, fixed at construction.
    pub closed spec fn quota_first(self) -> nat {
        self.first_quota as nat
    }

    /// The per-round quota of the second source, fixed at construction.
    pub closed spec fn quota_second(self) -> nat {
        self.second_quota as nat
    }

    /// How many more items the active side may emit before the side switches.
    pub closed spec fn quota_left(self) -> nat {
        self.remaining as nat
    }

    /// Whether the first source is the active side.
    pub closed spec fn polling_first(self) -> bool {
        self.on_first
    }

    /// Whether the first source has ended.
    pub closed spec fn done_first(self) -> bool {
        self.first_done
    }

    /// Whether the second source has ended.
    pub closed spec fn done_second(self) -> bool {
        self.second_done
    }

    /// Both quotas are positive; while the merge is not finished, the active
    /// side has not ended and holds between one item and a full round of
    /// remaining quota.
    pub open spec fn wf(self) -> bool {
        &&& 1 <= self.quota_first()
        &&& 1 <= self.quota_second()
        &&& !self.finished() ==> {
            &&& if self.polling_first() {
                !self.done_first() && self.quota_left() <= self.quota_first()
            } else {
                !self.done_second() && self.quota_left() <= self.quota_second()
            }
            &&& 1 <= self.quota_left()
        }
    }

    /// The merge has ended: both sources have reported `End`.
    pub open spec fn finished(self) -> bool {
        self.done_first() && self.done_second()
    }

    /// A merge of two sources by positive quotas, starting with a full round
    /// on the first side.
    pub fn new(nb_first: usize, nb_second: usize) -> (s: Self)
        requires
            1 <= nb_first,
            1 <= nb_second,
        ensures
            s.wf(),
            s.quota_first() == nb_first,
            s.quota_second() == nb_second,
            s.quota_left() == nb_first,
            s.polling_first(),
            !s.done_first(),
            !s.done_second(),
    {
        MergeRoundRobin {
            first_quota: nb_first,
            second_quota: nb_second,
            remaining: nb_first,
            on_first: true,
            first_done: false,
            second_done: false,
        }
    }

    /// Which side the driver must resume now: `true` for the first source.
    pub fn poll_first(&self) -> (r: bool)
        requires
            self.wf(),
            !self.finished(),
        ensures
            r == self.polling_first(),
    {
        self.on_first
    }

    /// Whether every later resume is guaranteed to report `End`.
    pub fn is_terminated(&self) -> (r: bool)
        ensures
            r == self.finished(),
    {
        self.first_done && self.second_done
    }

    /// Digest what the active side reported. An item is emitted and counted
    /// against the quota; spending the quota hands the turn to the other
    /// side, which starts a full round — unless that side has ended, in which
    /// case the active side keeps serving. Suspension changes nothing: the
    /// same side is resumed next with its quota preserved. `End` retires the
    /// active side for good; the other side, if alive, is resumed at once
    /// with a full round, and quota lost to the early switch is not carried
    /// over.
    pub fn step<T>(&mut self, ev: SourceEvent<T>) -> (r: StepOutcome<T>)
        requires
            old(self).wf(),
            !old(self).finished(),
        ensures
            final(self).wf(),
            final(self).quota_first() == old(self).quota_first(),
            final(self).quota_second() == old(self).quota_second(),
            ev is Suspended ==> r is Suspend && *final(self) == *old(self),
            ev matches SourceEvent::Item(t) ==> {
                &&& r == StepOutcome::<T>::Emit(t)
                &&& final(self).done_first() == old(self).done_first()
                &&& final(self).done_second() == old(self).done_second()
                &&& if old(self).quota_left() > 1 {
                    final(self).polling_first() == old(self).polling_first() && final(self).quota_left() == old(self).quota_left() - 1
                } else if old(self).polling_first() {
                    if old(self).done_second() {
                        final(self).polling_first() && final(self).quota_left() == old(self).quota_first()
                    } else {
                        !final(self).polling_first() && final(self).quota_left() == old(self).quota_second()
                    }
                } else {
                    if old(self).done_first() {
                        !final(self).polling_first() && final(self).quota_left() == old(self).quota_second()
                    } else {
                        final(self).polling_first() && final(self).quota_left() == old(self).quota_first()
                    }
                }
            },
            ev is End ==> {
                &&& final(self).done_first() == (old(self).done_first() || old(self).polling_first())
                &&& final(self).done_second() == (old(self).done_second() || !old(self).polling_first())
                &&& if final(self).finished() {
                    r is End
                } else {
                    r is Again && final(self).polling_first() == !old(self).polling_first()
                        && final(self).quota_left() == (if final(self).polling_first() {
                        old(self).quota_first()
                    } else {
                        old(self).quota_second()
                    })
                }
            },
    {
        match ev {
            SourceEvent::Suspended => StepOutcome::Suspend,
            SourceEvent::Item(t) => {
                if self.remaining > 1 {
                    self.remaining = self.remaining - 1;
                } else if self.on_first {
                    if self.second_done {
                        self.remaining = self.first_quota;
                    } else {
                        self.on_first = false;
                        self.remaining = self.second_quota;
                    }
                } else {
                    if self.first_done {
                        self.remaining = self.second_quota;
                    } else {
                        self.on_first = true;
                        self.remaining = self.first_quota;
                    }
                }
                StepOutcome::Emit(t)
            },
            SourceEvent::End => {
                if self.on_first {
                    self.first_done = true;
                    if self.second_done {
                        StepOutcome::End
                    } else {
                        self.on_first = false;
                        self.remaining = self.second_quota;
                        StepOutcome::Again
                    }
                } else {
                    self.second_done = true;
                    if self.first_done {
                        StepOutcome::End
                    } else {
                        self.on_first = true;
                        self.remaining = self.first_quota;
                        StepOutcome::Again
                    }
                }
            },
        }
    }

    /// The size estimate of the merged sequence: while both sides are alive,
    /// the saturating sum of the lower bounds and the checked sum of the
    /// upper bounds; a lone surviving side passes its own estimate through;
    /// a finished merge is empty.
    pub fn size_estimate(
        &self,
        first_lower: usize,
        first_upper: Option<usize>,
        second_lower: usize,
        second_upper: Option<usize>,
    ) -> (r: (usize, Option<usize>))
        ensures
            !self.done_first() && !self.done_second() ==> r.0 == first_lower.saturating_add(
                second_lower,
            ) && r.1 == (match (first_upper, second_upper) {
                (Some(x), Some(y)) => x.checked_add(y),
                _ => None,
            }),
            self.done_first() && !self.done_second() ==> r.0 == second_lower && r.1 == second_upper,
            !self.done_first() && self.done_second() ==> r.0 == first_lower && r.1 == first_upper,
            self.done_first() && self.done_second() ==> r.0 == 0 && r.1 == Some(0usize),
    {
        if !self.first_done {
            if !self.second_done {
                (
                    first_lower.saturating_add(second_lower),
                    match (first_upper, second_upper) {
                        (Some(x), Some(y)) => x.checked_add(y),
                        _ => None,
                    },
                )
            } else {
                (first_lower, first_upper)
            }
        } else {
            if !self.second_done {
                (second_lower, second_upper)
            } else {
                (0, Some(0))
            }
        }
    }
}

} // verus!
