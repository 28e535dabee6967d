//! One round of a worker's main loop: which source it serves next.
use vstd::prelude::*;

use crate::source::{status_of, Outcome, Polled, Source, Status};

verus! {

/// The sources that a worker's select polls.
#[derive(PartialEq, Eq, Structural, Clone, Copy, Debug)]
pub enum Slot {
    /// The executor's shutdown flag.
    Shutdown,
    /// The management broadcast.
    Management,
    /// The computation that the loop runs for: the root computation of the
    /// main worker, or the computation of a nested `block_on`.
    Root,
    /// The worker's own queues.
    Queue,
    /// The injector and the peers' queues.
    Stealer,
}

/// Which loop a worker is running.
#[derive(PartialEq, Eq, Structural, Clone, Copy, Debug)]
pub enum Stage {
    /// A plain worker, with no root computation.
    Worker,
    /// The main worker, which also runs the root computation.
    Main,
    /// A worker inside a nested `block_on`, which also waits for the blocked
    /// computation.
    Blocked,
}

/// What a round of the worker's select decided.
pub enum Event<T, R> {
    /// The shutdown flag is set: leave the loop.
    Shutdown,
    /// A management message arrived.
    Management,
    /// The root or blocked computation finished with this result.
    Root(R),
    /// A unit of work to run.
    Task(T),
    /// A source that must live as long as the executor has ended.
    Closed,
    /// No source was ready: yield once and select again.
    Idle,
}

/// The order in which a stage polls its sources: the shutdown flag always
/// first; the main worker's root computation right after it; a nested
/// `block_on`'s computation after the management broadcast; then the worker's
/// own queues, then stealing.
pub open spec fn order_of(stage: Stage) -> Seq<Slot> {
    match stage {
        Stage::Worker => seq![Slot::Shutdown, Slot::Management, Slot::Queue, Slot::Stealer],
        Stage::Main => seq![
            Slot::Shutdown,
            Slot::Root,
            Slot::Management,
            Slot::Queue,
            Slot::Stealer,
        ],
        Stage::Blocked => seq![
            Slot::Shutdown,
            Slot::Management,
            Slot::Root,
            Slot::Queue,
            Slot::Stealer,
        ],
    }
}

/// The polling order of a stage.
pub fn order(stage: Stage) -> (r: Vec<Slot>)
    ensures
        r@ == order_of(stage),
{
    let r = match stage {
        Stage::Worker => vec![Slot::Shutdown, Slot::Management, Slot::Queue, Slot::Stealer],
        Stage::Main => vec![
            Slot::Shutdown,
            Slot::Root,
            Slot::Management,
            Slot::Queue,
            Slot::Stealer,
        ],
        Stage::Blocked => vec![
            Slot::Shutdown,
            Slot::Management,
            Slot::Root,
            Slot::Queue,
            Slot::Stealer,
        ],
    };
    assert(r@ =~= order_of(stage));
    r
}

/// A round that polled the slots of `order` in turn, stopping at the first
/// that was not pending.
pub open spec fn is_worker_round(round: Seq<(Slot, Status)>, order: Seq<Slot>) -> bool {
    &&& 0 < round.len() <= order.len()
    &&& forall|j: int| 0 <= j < round.len() ==> (#[trigger] round[j]).0 == order[j]
    &&& forall|j: int| 0 <= j < round.len() - 1 ==> (#[trigger] round[j]).1 == Status::Pending
    &&& (round.len() < order.len() ==> round.last().1 != Status::Pending)
}

/// The event that a round settles on, from what its last poll gave.
pub open spec fn event_matches<T, R>(e: Event<T, R>, last: (Slot, Status)) -> bool {
    match e {
        Event::Shutdown => last == (Slot::Shutdown, Status::Ready),
        Event::Management => last == (Slot::Management, Status::Ready),
        Event::Root(_) => last == (Slot::Root, Status::Ready),
        Event::Task(_) => last.1 == Status::Ready && (last.0 == Slot::Queue || last.0
            == Slot::Stealer),
        Event::Closed => last.1 == Status::Ended,
        Event::Idle => last.1 == Status::Pending,
    }
}

/// Where `slot` stands in the polling order of `stage`; a slot that the stage
/// does not poll stands past the end.
pub open spec fn position(stage: Stage, slot: Slot) -> int {
    match (stage, slot) {
        (_, Slot::Shutdown) => 0,
        (Stage::Main, Slot::Root) => 1,
        (Stage::Main, Slot::Management) => 2,
        (Stage::Worker, Slot::Root) => 4,
        (_, Slot::Management) => 1,
        (_, Slot::Root) => 2,
        (Stage::Worker, Slot::Queue) => 2,
        (Stage::Worker, Slot::Stealer) => 3,
        (_, Slot::Queue) => 3,
        (_, Slot::Stealer) => 4,
    }
}

/// A source polled at position `pos` of a round: polled once, with the shape
/// that the round records, when the round reached `pos`; untouched otherwise.
pub open spec fn stepped<S>(
    before: Polled<S>,
    after: Polled<S>,
    round: Seq<(Slot, Status)>,
    pos: int,
) -> bool {
    if pos < round.len() {
        after.polls() == before.polls().push(round[pos].1)
    } else {
        after == before
    }
}

/// The sources of a worker, polled by a biased select.
pub struct Selector<F, M, Q, S> {
    pub shutdown: Polled<F>,
    pub management: Polled<M>,
    pub queue: Polled<Q>,
    pub stealer: Polled<S>,
    /// The slots polled in the latest round, with what each gave.
    pub round: Ghost<Seq<(Slot, Status)>>,
}

impl<F, M, Q, S> Selector<F, M, Q, S> {
    pub fn new(shutdown: F, management: M, queue: Q, stealer: S) -> (r: Self)
        ensures
            r.shutdown.inner() == shutdown,
            r.management.inner() == management,
            r.queue.inner() == queue,
            r.stealer.inner() == stealer,
    {
        Selector {
            shutdown: Polled::new(shutdown),
            management: Polled::new(management),
            queue: Polled::new(queue),
            stealer: Polled::new(stealer),
            round: Ghost(Seq::empty()),
        }
    }

    /// One round of the worker's biased select: polls the sources in the
    /// stage's order, each at most once, and settles on the first that is not
    /// pending; the sources after it are not polled. The shutdown flag is
    /// polled first in every stage, so a round on which it answers `Ready`
    /// settles on `Shutdown` and touches no other source.
    pub fn select<C, B>(&mut self, stage: Stage, root: &mut Polled<B>, cx: &mut C) -> (r: Event<
        Q::Item,
        B::Item,
    >) where F: Source<C>, M: Source<C>, Q: Source<C>, S: Source<C, Item = Q::Item>, B: Source<C>
        ensures
            is_worker_round(final(self).round@, order_of(stage)),
            event_matches(r, final(self).round@.last()),
            final(self).round@[0].0 == Slot::Shutdown,
            final(self).round@[0].1 == Status::Ready ==> r is Shutdown,
            stepped(
                old(self).shutdown,
                final(self).shutdown,
                final(self).round@,
                position(stage, Slot::Shutdown),
            ),
            stepped(
                old(self).management,
                final(self).management,
                final(self).round@,
                position(stage, Slot::Management),
            ),
            stepped(*old(root), *final(root), final(self).round@, position(stage, Slot::Root)),
            stepped(
                old(self).queue,
                final(self).queue,
                final(self).round@,
                position(stage, Slot::Queue),
            ),
            stepped(
                old(self).stealer,
                final(self).stealer,
                final(self).round@,
                position(stage, Slot::Stealer),
            ),
    {
        let slots = order(stage);
        let n = slots.len();
        self.round = Ghost(Seq::empty());
        let mut i: usize = 0;
        while i < n
            invariant
                slots@ == order_of(stage),
                n == slots@.len(),
                i <= n,
                self.round@.len() == i,
                forall|j: int| 0 <= j < i ==> (#[trigger] self.round@[j]).1 == Status::Pending,
                forall|j: int| 0 <= j < i ==> (#[trigger] self.round@[j]).0 == slots@[j],
                stepped(
                    old(self).shutdown,
                    self.shutdown,
                    self.round@,
                    position(stage, Slot::Shutdown),
                ),
                stepped(
                    old(self).management,
                    self.management,
                    self.round@,
                    position(stage, Slot::Management),
                ),
                stepped(*old(root), *root, self.round@, position(stage, Slot::Root)),
                stepped(
                    old(self).queue,
                    self.queue,
                    self.round@,
                    position(stage, Slot::Queue),
                ),
                stepped(
                    old(self).stealer,
                    self.stealer,
                    self.round@,
                    position(stage, Slot::Stealer),
                ),
            decreases n - i,
        {
            let slot = slots[i];
            assert(position(stage, slot) == i);
            let ghost before = self.round@;
            let status = match slot {
                Slot::Shutdown => status_from(self.shutdown.poll(cx)),
                Slot::Management => status_from(self.management.poll(cx)),
                Slot::Root => match root.poll(cx) {
                    Outcome::Ready(result) => {
                        self.round = Ghost(self.round@.push((slot, Status::Ready)));
                        return Event::Root(result);
                    },
                    Outcome::Ended => {
                        self.round = Ghost(self.round@.push((slot, Status::Ended)));
                        return Event::Closed;
                    },
                    Outcome::Pending => Status::Pending,
                },
                Slot::Queue => match self.queue.poll(cx) {
                    Outcome::Ready(task) => {
                        self.round = Ghost(self.round@.push((slot, Status::Ready)));
                        return Event::Task(task);
                    },
                    Outcome::Ended => {
                        self.round = Ghost(self.round@.push((slot, Status::Ended)));
                        return Event::Closed;
                    },
                    Outcome::Pending => Status::Pending,
                },
                Slot::Stealer => match self.stealer.poll(cx) {
                    Outcome::Ready(task) => {
                        self.round = Ghost(self.round@.push((slot, Status::Ready)));
                        return Event::Task(task);
                    },
                    Outcome::Ended => {
                        self.round = Ghost(self.round@.push((slot, Status::Ended)));
                        return Event::Closed;
                    },
                    Outcome::Pending => Status::Pending,
                },
            };
            self.round = Ghost(self.round@.push((slot, status)));
            assert forall|j: int| 0 <= j < i implies self.round@[j] == before[j] by {}
            match status {
                Status::Ready => {
                    if slot == Slot::Shutdown {
                        return Event::Shutdown;
                    } else {
                        return Event::Management;
                    }
                },
                Status::Ended => {
                    return Event::Closed;
                },
                Status::Pending => {},
            }
            i = i + 1;
        }
        Event::Idle
    }
}

/// The shape of an outcome, for a source whose item the round drops.
fn status_from<T>(o: Outcome<T>) -> (r: Status)
    ensures
        r == status_of(o),
{
    match o {
        Outcome::Ready(_) => Status::Ready,
        Outcome::Ended => Status::Ended,
        Outcome::Pending => Status::Pending,
    }
}

/// The root of a plain worker's loop: there is none, so it is always pending.
pub struct NoRoot;

impl NoRoot {
    pub fn new() -> (r: Self) {
        NoRoot
    }
}

impl<C> Source<C> for NoRoot {
    type Item = ();

    fn poll_next(&mut self, cx: &mut C) -> Outcome<()> {
        Outcome::Pending
    }
}

/// What a worker does after a round of its select.
pub enum Action<T, R> {
    /// Run this unit of work, then check whether the executor is quiescent.
    Run(T),
    /// Leave the loop with the root computation's result.
    Finish(R),
    /// Leave the loop, cancelling the root computation.
    Cancel,
    /// Leave the loop of a plain worker.
    Exit,
    /// Select again.
    Continue,
    /// Yield once, then select again.
    Yield,
}

/// The worker's decision on the event of a round. The shutdown flag, and a
/// source that must live as long as the executor ending, both end the loop:
/// a loop with a root computation cancels it.
pub fn decide<T, R>(stage: Stage, event: Event<T, R>) -> (r: Action<T, R>)
    ensures
        match event {
            Event::Shutdown | Event::Closed => if stage == Stage::Worker {
                r is Exit
            } else {
                r is Cancel
            },
            Event::Management => r is Continue,
            Event::Root(v) => r == Action::<T, R>::Finish(v),
            Event::Task(t) => r == Action::<T, R>::Run(t),
            Event::Idle => r is Yield,
        },
{
    match event {
        Event::Shutdown | Event::Closed => if stage == Stage::Worker {
            Action::Exit
        } else {
            Action::Cancel
        },
        Event::Management => Action::Continue,
        Event::Root(v) => Action::Finish(v),
        Event::Task(t) => Action::Run(t),
        Event::Idle => Action::Yield,
    }
}

} // verus!
