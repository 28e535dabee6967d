//! Sources of work and what one poll of them can give.
use vstd::prelude::*;

verus! {

/// What one poll of a source of items gave.
pub enum Outcome<T> {
    /// The source handed out an item.
    Ready(T),
    /// The source is exhausted and will hand out nothing more.
    Ended,
    /// The source has nothing at the moment; it wakes its task when it has.
    Pending,
}

/// The shape of an [`Outcome`], without its item.
#[derive(PartialEq, Eq, Structural, Clone, Copy, Debug)]
pub enum Status {
    Ready,
    Ended,
    Pending,
}

/// The shape of an outcome.
pub open spec fn status_of<T>(o: Outcome<T>) -> Status {
    match o {
        Outcome::Ready(_) => Status::Ready,
        Outcome::Ended => Status::Ended,
        Outcome::Pending => Status::Pending,
    }
}

impl<T> Outcome<T> {
    /// The shape of this outcome.
    pub fn status(&self) -> (r: Status)
        ensures
            r == status_of(*self),
    {
        match self {
            Outcome::Ready(_) => Status::Ready,
            Outcome::Ended => Status::Ended,
            Outcome::Pending => Status::Pending,
        }
    }

    /// Whether the source handed out an item.
    pub fn is_ready(&self) -> (r: bool)
        ensures
            r == (*self is Ready),
    {
        match self {
            Outcome::Ready(_) => true,
            _ => false,
        }
    }
}

/// A source of items that can be polled once without blocking: a queue
/// receiver, a signal, a stealer into another worker's queue.
///
/// `C` is what a poll needs from its caller, such as the task context through
/// which the source wakes the polling task later. Nothing is promised of what a
/// poll returns: the scheduler is correct for every answer.
pub trait Source<C> {
    type Item;

    fn poll_next(&mut self, cx: &mut C) -> Outcome<Self::Item>;
}

/// A source together with the record of what its polls gave. The record is
/// private: only [`Polled::poll`], which polls the source, extends it, so what
/// a selector states over the records is what its sources answered.
pub struct Polled<S> {
    source: S,
    log: Ghost<Seq<Status>>,
}

impl<S> Polled<S> {
    /// The shape of what each poll gave, oldest first.
    pub closed spec fn polls(&self) -> Seq<Status> {
        self.log@
    }

    /// The source itself.
    pub closed spec fn inner(&self) -> S {
        self.source
    }

    /// A source not polled yet.
    pub fn new(source: S) -> (r: Self)
        ensures
            r.inner() == source,
            r.polls() == Seq::<Status>::empty(),
    {
        Polled { source, log: Ghost(Seq::empty()) }
    }

    /// Polls the source once, and records the shape of what it gave.
    pub fn poll<C>(&mut self, cx: &mut C) -> (r: Outcome<S::Item>)
        where
            S: Source<C>,
        ensures
            final(self).polls() == old(self).polls().push(status_of(r)),
    {
        let r = self.source.poll_next(cx);
        self.log = Ghost(self.log@.push(status_of(r)));
        r
    }

    /// The source, for reading.
    pub fn source(&self) -> (r: &S)
        ensures
            *r == self.inner(),
    {
        &self.source
    }

    /// The source, to reconfigure it; its record stays as it is.
    pub fn source_mut(&mut self) -> (r: &mut S)
        ensures
            *r == old(self).inner(),
            final(self).inner() == *final(r),
            final(self).polls() == old(self).polls(),
    {
        &mut self.source
    }

    /// Gives the source back.
    pub fn into_inner(self) -> (r: S)
        ensures
            r == self.inner(),
    {
        self.source
    }
}

impl<C, S: Source<C>> Source<C> for Polled<S> {
    type Item = S::Item;

    fn poll_next(&mut self, cx: &mut C) -> Outcome<S::Item> {
        self.poll(cx)
    }
}

/// `after` is `before` polled once, with the shape `s`: same id, and the
/// source's record grown by `s`.
pub open spec fn polled_once<I, S>(before: (I, Polled<S>), after: (I, Polled<S>), s: Status) -> bool {
    &&& after.0 == before.0
    &&& after.1.polls() == before.1.polls().push(s)
}

/// The shape that a whole round of polls settles on: `Ready` when the last
/// poll handed out an item, otherwise `Pending` when any poll was pending, and
/// `Ended` when every poll (possibly none) found its source exhausted.
pub open spec fn settled(polls: Seq<Status>) -> Status {
    if polls.len() > 0 && polls.last() == Status::Ready {
        Status::Ready
    } else if exists|i: int| 0 <= i < polls.len() && polls[i] == Status::Pending {
        Status::Pending
    } else {
        Status::Ended
    }
}

/// A round polls sources in order and stops at the first that is ready:
/// every poll but the last found nothing, and all of `n` sources were polled
/// unless one was ready.
pub open spec fn is_round(polls: Seq<Status>, n: nat) -> bool {
    &&& polls.len() <= n
    &&& forall|i: int| 0 <= i < polls.len() - 1 ==> polls[i] != Status::Ready
    &&& (polls.len() < n ==> polls.len() > 0 && polls.last() == Status::Ready)
}

} // verus!
