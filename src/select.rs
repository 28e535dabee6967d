//! The biased select: poll each source once in a fixed order, take the first
//! that is ready, and yield when none is.
use vstd::prelude::*;

use crate::source::{status_of, Outcome, Polled, Source, Status};

verus! {

/// What one round of a biased select decided.
pub enum Selected<T> {
    /// The source at this position fired with this value.
    Branch(usize, T),
    /// No source fired: yield once, then poll a new round.
    Yield,
    /// Every source has ended (only a fused select says so).
    Complete,
}

/// Sources polled by a biased select, in their declared order.
///
/// The select owns its sources, so that one left unresolved when another
/// branch wins is kept, with whatever it had queued, for the next round.
pub struct Select<S> {
    pub sources: Vec<Polled<S>>,
    /// Which sources a fused select has seen end; those are not polled again.
    pub ended: Vec<bool>,
    /// The shape of what each source gave in the latest round, in order; an
    /// ended source of a fused select counts as `Ended` without being polled.
    pub round: Ghost<Seq<Status>>,
}

impl<S> Select<S> {
    pub open spec fn wf(&self) -> bool {
        self.ended@.len() == self.sources@.len()
    }

    /// A select over `sources`, in order, none of them seen to end yet.
    pub fn new(sources: Vec<S>) -> (r: Self)
        ensures
            r.wf(),
            r.sources@.len() == sources@.len(),
            forall|i: int|
                0 <= i < sources@.len() ==> (#[trigger] r.sources@[i]).inner() == sources@[i]
                    && r.sources@[i].polls() == Seq::<Status>::empty(),
            forall|i: int| 0 <= i < r.ended@.len() ==> !r.ended@[i],
    {
        let ghost given = sources@;
        let mut sources = sources;
        let mut taken: Vec<S> = Vec::new();
        while sources.len() > 0
            invariant
                sources@.len() + taken@.len() == given.len(),
                forall|i: int| 0 <= i < sources@.len() ==> sources@[i] == given[i],
                forall|i: int|
                    0 <= i < taken@.len() ==> taken@[i] == given[given.len() - 1 - i],
            decreases sources@.len(),
        {
            let s = sources.pop().unwrap();
            taken.push(s);
        }
        let mut polled: Vec<Polled<S>> = Vec::new();
        let mut ended: Vec<bool> = Vec::new();
        while taken.len() > 0
            invariant
                polled@.len() + taken@.len() == given.len(),
                ended@.len() == polled@.len(),
                forall|i: int|
                    0 <= i < polled@.len() ==> (#[trigger] polled@[i]).inner() == given[i]
                        && polled@[i].polls() == Seq::<Status>::empty(),
                forall|i: int| 0 <= i < ended@.len() ==> !ended@[i],
                forall|i: int|
                    0 <= i < taken@.len() ==> taken@[i] == given[given.len() - 1 - i],
            decreases taken@.len(),
        {
            let s = taken.pop().unwrap();
            polled.push(Polled::new(s));
            ended.push(false);
        }
        Select { sources: polled, ended, round: Ghost(Seq::empty()) }
    }

    /// One round of the plain select: the first source whose poll is not
    /// pending fires, with its item, or with `None` when it has ended.
    /// When every poll is pending the round says `Yield`.
    pub fn poll_round<C>(&mut self, cx: &mut C) -> (r: Selected<Option<S::Item>>)
        where
            S: Source<C>,
        requires
            old(self).wf(),
        ensures
            final(self).wf(),
            final(self).sources@.len() == old(self).sources@.len(),
            final(self).ended@ == old(self).ended@,
            final(self).round@.len() <= old(self).sources@.len(),
            forall|j: int|
                0 <= j < final(self).round@.len() - 1 ==> final(self).round@[j] == Status::Pending,
            r is Yield <==> (final(self).round@.len() == old(self).sources@.len() && forall|j: int|
                0 <= j < final(self).round@.len() ==> final(self).round@[j] == Status::Pending),
            !(r is Complete),
            forall|k: int|
                0 <= k < final(self).round@.len() ==> final(self).sources@[k].polls() == old(self).sources@[k].polls().push(final(self).round@[k]),
            forall|k: int|
                final(self).round@.len() <= k < old(self).sources@.len() ==> final(self).sources@[k] == old(self).sources@[k],
            r matches Selected::Branch(i, item) ==> {
                &&& i == final(self).round@.len() - 1
                &&& final(self).round@[i as int] != Status::Pending
                &&& (item is Some <==> final(self).round@[i as int] == Status::Ready)
            },
    {
        let n = self.sources.len();
        self.round = Ghost(Seq::empty());
        let mut i: usize = 0;
        while i < n
            invariant
                self.wf(),
                n == self.sources@.len(),
                n == old(self).sources@.len(),
                self.ended@ == old(self).ended@,
                self.round@.len() == i,
                i <= n,
                forall|j: int| 0 <= j < i ==> self.round@[j] == Status::Pending,
                forall|j: int|
                    0 <= j < i ==> self.sources@[j].polls() == old(self).sources@[j].polls().push(
                        self.round@[j],
                    ),
                forall|j: int| i <= j < n ==> self.sources@[j] == old(self).sources@[j],
            decreases n - i,
        {
            let polled = self.sources[i].poll(cx);
            let ghost before = self.round@;
            self.round = Ghost(self.round@.push(status_of(polled)));
            assert forall|j: int| 0 <= j < i implies self.round@[j] == before[j] by {}
            match polled {
                Outcome::Ready(item) => {
                    return Selected::Branch(i, Some(item));
                },
                Outcome::Ended => {
                    return Selected::Branch(i, None);
                },
                Outcome::Pending => {},
            }
            i = i + 1;
        }
        Selected::Yield
    }

    /// One round of the fused select: sources seen to end are skipped; the
    /// first source that hands out an item fires. When none does, the round
    /// says `Complete` if every source has ended, `Yield` otherwise.
    pub fn poll_fused<C>(&mut self, cx: &mut C) -> (r: Selected<S::Item>)
        where
            S: Source<C>,
        requires
            old(self).wf(),
        ensures
            final(self).wf(),
            final(self).sources@.len() == old(self).sources@.len(),
            final(self).round@.len() <= old(self).sources@.len(),
            forall|j: int|
                0 <= j < final(self).round@.len() - 1 ==> final(self).round@[j] != Status::Ready,
            forall|j: int|
                0 <= j < final(self).round@.len() ==> (old(self).ended@[j]
                    ==> final(self).round@[j] == Status::Ended),
            forall|j: int|
                0 <= j < final(self).ended@.len() ==> #[trigger] final(self).ended@[j] == (old(self).ended@[j]
                    || (j < final(self).round@.len() && final(self).round@[j] == Status::Ended)),
            forall|k: int|
                0 <= k < final(self).round@.len() ==> if old(self).ended@[k] {
                    final(self).sources@[k] == old(self).sources@[k]
                } else {
                    final(self).sources@[k].polls() == old(self).sources@[k].polls().push(
                        final(self).round@[k],
                    )
                },
            forall|k: int|
                final(self).round@.len() <= k < old(self).sources@.len() ==> final(self).sources@[k] == old(self).sources@[k],
            r matches Selected::Branch(i, _) ==> i == final(self).round@.len() - 1
                && final(self).round@[i as int] == Status::Ready,
            r is Complete <==> (final(self).round@.len() == old(self).sources@.len() && forall|
                j: int,
            | 0 <= j < final(self).round@.len() ==> final(self).round@[j] == Status::Ended),
            r is Yield <==> (final(self).round@.len() == old(self).sources@.len() && (forall|
                j: int,
            | 0 <= j < final(self).round@.len() ==> final(self).round@[j] != Status::Ready)
                && exists|j: int|
                0 <= j < final(self).round@.len() && final(self).round@[j] == Status::Pending),
    {
        let n = self.sources.len();
        self.round = Ghost(Seq::empty());
        let ghost ended0 = self.ended@;
        let mut pending = false;
        let mut i: usize = 0;
        while i < n
            invariant
                self.wf(),
                n == self.sources@.len(),
                n == old(self).sources@.len(),
                ended0 == old(self).ended@,
                ended0.len() == n,
                self.round@.len() == i,
                i <= n,
                forall|j: int| 0 <= j < i ==> self.round@[j] != Status::Ready,
                forall|j: int| 0 <= j < i ==> (ended0[j] ==> self.round@[j] == Status::Ended),
                forall|j: int|
                    0 <= j < n ==> #[trigger] self.ended@[j] == (ended0[j] || (j < i && self.round@[j]
                        == Status::Ended)),
                pending == exists|j: int| 0 <= j < i && self.round@[j] == Status::Pending,
                forall|j: int|
                    0 <= j < i ==> if ended0[j] {
                        self.sources@[j] == old(self).sources@[j]
                    } else {
                        self.sources@[j].polls() == old(self).sources@[j].polls().push(
                            self.round@[j],
                        )
                    },
                forall|j: int| i <= j < n ==> self.sources@[j] == old(self).sources@[j],
            decreases n - i,
        {
            let ghost before = self.round@;
            let ghost ended_before = self.ended@;
            assert(ended_before[i as int] == ended0[i as int]);
            if self.ended[i] {
                self.round = Ghost(self.round@.push(Status::Ended));
                assert forall|j: int| 0 <= j < i implies self.round@[j] == before[j] by {}
            } else {
                let polled = self.sources[i].poll(cx);
                assert(self.ended@ == ended_before);
                self.round = Ghost(self.round@.push(status_of(polled)));
                assert forall|j: int| 0 <= j < i implies self.round@[j] == before[j] by {}
                assert(self.round@[i as int] == status_of(polled));
                match polled {
                    Outcome::Ready(item) => {
                        assert(self.round@[i as int] == Status::Ready);
                        assert forall|j: int| 0 <= j < n implies self.ended@[j] == (ended0[j]
                            || (j < i + 1 && self.round@[j] == Status::Ended)) by {
                            assert(self.ended@[j] == ended_before[j]);
                            assert(ended_before[j] == (ended0[j] || (j < i && before[j] == Status::Ended)));
                            if j < i {
                                assert(self.round@[j] == before[j]);
                            }
                        }
                        return Selected::Branch(i, item);
                    },
                    Outcome::Ended => {
                        self.ended.set(i, true);
                    },
                    Outcome::Pending => {
                        pending = true;
                        assert(self.round@[i as int] == Status::Pending);
                    },
                }
            }
            assert forall|j: int| 0 <= j < n implies self.ended@[j] == (ended0[j] || (j < i + 1
                && self.round@[j] == Status::Ended)) by {
                if j < i {
                    assert(self.round@[j] == before[j]);
                }
            }
            proof {
                if pending && self.round@[i as int] != Status::Pending {
                    let j = choose|j: int| 0 <= j < i && before[j] == Status::Pending;
                    assert(self.round@[j] == before[j]);
                }
            }
            assert forall|j: int| 0 <= j < i + 1 && self.round@[j] == Status::Pending
                && !pending implies false by {
                if j < i {
                    assert(before[j] == Status::Pending);
                }
            }
            i = i + 1;
        }
        if pending {
            Selected::Yield
        } else {
            Selected::Complete
        }
    }
}

} // verus!
