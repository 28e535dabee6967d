//! The selector of a worker: priority levels, each a rotating group of sources.
use vstd::prelude::*;

use crate::source::{is_round, polled_once, settled, status_of, Outcome, Polled, Source, Status};

verus! {

/// An identifier shared by the sources of one group, compared by value.
pub trait GroupId: Copy {
    fn same(&self, other: &Self) -> (r: bool)
        ensures
            r == (*self == *other),
    ;
}

/// A rotating sequence of `(id, source)` pairs of equal priority.
///
/// A poll tries the sources in their current order; the first that hands out
/// an item moves to the end, so that sources of equal standing take turns.
pub struct Group<I, S> {
    pub entries: Vec<(I, Polled<S>)>,
    /// What each poll of the latest round gave, in order.
    pub round: Ghost<Seq<Status>>,
}

impl<I, S> Group<I, S> {
    /// An empty group.
    pub fn new() -> (r: Self)
        ensures
            r.entries@.len() == 0,
    {
        Group { entries: Vec::new(), round: Ghost(Seq::empty()) }
    }

    /// Appends each of `sources`, in order, under `id`.
    pub fn extend(&mut self, id: I, sources: Vec<S>)
        where
            I: Copy,
        ensures
            final(self).entries@.len() == old(self).entries@.len() + sources@.len(),
            forall|i: int|
                0 <= i < old(self).entries@.len() ==> final(self).entries@[i] == old(
                    self,
                ).entries@[i],
            forall|j: int|
                old(self).entries@.len() <= j < final(self).entries@.len() ==> fresh(
                    #[trigger] final(self).entries@[j],
                    id,
                    sources@[j - old(self).entries@.len()],
                ),
    {
        let mut sources = sources;
        let ghost added = sources@;
        let ghost start = self.entries@;
        let mut taken: Vec<S> = Vec::new();
        // take the sources out back to front, then push them front to back
        while sources.len() > 0
            invariant
                sources@.len() + taken@.len() == added.len(),
                forall|i: int| 0 <= i < sources@.len() ==> sources@[i] == added[i],
                forall|i: int|
                    0 <= i < taken@.len() ==> taken@[i] == added[added.len() - 1 - i],
            decreases sources@.len(),
        {
            let s = sources.pop().unwrap();
            taken.push(s);
        }
        let ghost n = self.entries@.len();
        while taken.len() > 0
            invariant
                n == start.len(),
                n <= self.entries@.len(),
                self.entries@.len() + taken@.len() == n + added.len(),
                forall|i: int| 0 <= i < n ==> self.entries@[i] == start[i],
                forall|i: int|
                    n <= i < self.entries@.len() ==> {
                        let e = #[trigger] self.entries@[i];
                        &&& e.0 == id
                        &&& e.1.inner() == added[i - n]
                        &&& e.1.polls() == Seq::<Status>::empty()
                    },
                forall|i: int|
                    0 <= i < taken@.len() ==> taken@[i] == added[added.len() - 1 - i],
            decreases taken@.len(),
        {
            let s = taken.pop().unwrap();
            self.entries.push((id, Polled::new(s)));
        }
    }

    /// Drops every entry whose id is `id`, keeping the order of the others.
    pub fn remove(&mut self, id: I)
        where
            I: GroupId,
        ensures
            final(self).entries@ == old(self).entries@.filter(|e: (I, Polled<S>)| e.0 != id),
    {
        let ghost start = self.entries@;
        let mut kept: Vec<(I, Polled<S>)> = Vec::new();
        let mut rest: Vec<(I, Polled<S>)> = Vec::new();
        std::mem::swap(&mut rest, &mut self.entries);
        let mut backwards: Vec<(I, Polled<S>)> = Vec::new();
        while rest.len() > 0
            invariant
                rest@.len() + backwards@.len() == start.len(),
                forall|i: int| 0 <= i < rest@.len() ==> rest@[i] == start[i],
                forall|i: int|
                    0 <= i < backwards@.len() ==> backwards@[i] == start[start.len() - 1 - i],
            decreases rest@.len(),
        {
            let e = rest.pop().unwrap();
            backwards.push(e);
        }
        let ghost done: int = 0;
        while backwards.len() > 0
            invariant
                done + backwards@.len() == start.len(),
                0 <= done <= start.len(),
                kept@ == start.subrange(0, done).filter(|e: (I, Polled<S>)| e.0 != id),
                forall|i: int|
                    0 <= i < backwards@.len() ==> backwards@[i] == start[start.len() - 1 - i],
            decreases backwards@.len(),
        {
            let e = backwards.pop().unwrap();
            proof {
                reveal(Seq::filter);
                assert(start.subrange(0, done + 1).drop_last() == start.subrange(0, done));
                assert(e == start[done]);
            }
            if !e.0.same(&id) {
                kept.push(e);
            }
            proof {
                done = done + 1;
            }
        }
        proof {
            assert(start.subrange(0, start.len() as int) == start);
        }
        self.entries = kept;
    }

    /// Polls the sources once each in rotation order, stopping at the first
    /// that hands out an item; that source moves to the end of the rotation
    /// and the others keep their order. Settles on `Ended` only when every
    /// source has ended; when no source is ready, every source was polled once
    /// and the rotation stays as it was.
    pub fn select_next<C>(&mut self, cx: &mut C) -> (r: Outcome<S::Item>)
        where
            S: Source<C>,
        ensures
            is_round(final(self).round@, old(self).entries@.len()),
            status_of(r) == settled(final(self).round@),
            final(self).entries@.len() == old(self).entries@.len(),
            r is Ready ==> {
                let n = old(self).entries@.len() as int;
                let w = final(self).round@.len() - 1;
                &&& forall|p: int|
                    0 <= p < w ==> polled_once(
                        old(self).entries@[p],
                        final(self).entries@[moved(p, w, n)],
                        final(self).round@[p],
                    )
                &&& polled_once(
                    old(self).entries@[w],
                    final(self).entries@[moved(w, w, n)],
                    Status::Ready,
                )
                &&& forall|p: int|
                    w < p < n ==> final(self).entries@[moved(p, w, n)] == old(self).entries@[p]
            },
            !(r is Ready) ==> forall|p: int|
                0 <= p < old(self).entries@.len() ==> polled_once(
                    old(self).entries@[p],
                    final(self).entries@[p],
                    final(self).round@[p],
                ),
    {
        let n = self.entries.len();
        let ghost start = self.entries@;
        self.round = Ghost(Seq::empty());
        let mut pending = false;
        let mut i: usize = 0;
        while i < n
            invariant
                n == self.entries@.len(),
                n == start.len(),
                start == old(self).entries@,
                self.round@.len() == i,
                i <= n,
                forall|j: int| 0 <= j < i ==> self.round@[j] != Status::Ready,
                forall|j: int|
                    0 <= j < i ==> polled_once(
                        start[j],
                        self.entries@[j],
                        self.round@[j],
                    ),
                forall|j: int| i <= j < n ==> self.entries@[j] == start[j],
                pending == exists|j: int| 0 <= j < i && self.round@[j] == Status::Pending,
            decreases n - i,
        {
            let polled = self.entries[i].1.poll(cx);
            let ghost before = self.round@;
            self.round = Ghost(self.round@.push(status_of(polled)));
            assert forall|j: int| 0 <= j < i implies polled_once(
                start[j],
                self.entries@[j],
                self.round@[j],
            ) by {
                assert(self.round@[j] == before[j]);
            }
            match polled {
                Outcome::Ready(item) => {
                    let ghost mid = self.entries@;
                    let e = self.entries.remove(i);
                    self.entries.push(e);
                    proof {
                        let w = i as int;
                        assert forall|p: int| 0 <= p < w implies polled_once(
                            start[p],
                            self.entries@[moved(p, w, n as int)],
                            self.round@[p],
                        ) by {
                            assert(self.entries@[p] == mid[p]);
                        }
                        assert(self.entries@[n - 1] == mid[w]);
                        assert forall|p: int| w < p < n implies self.entries@[moved(
                            p,
                            w,
                            n as int,
                        )] == start[p] by {
                            assert(self.entries@[p - 1] == mid[p]);
                        }
                    }
                    return Outcome::Ready(item);
                },
                Outcome::Pending => {
                    pending = true;
                    assert(self.round@[i as int] == Status::Pending);
                },
                Outcome::Ended => {
                    assert forall|j: int| 0 <= j < i + 1 && self.round@[j] == Status::Pending
                        implies 0 <= j < i && before[j] == Status::Pending by {}
                },
            }
            i = i + 1;
        }
        if pending {
            Outcome::Pending
        } else {
            Outcome::Ended
        }
    }
}

/// Where the entry at position `p` of a rotation of `n` entries stands after the
/// entry at `k` moved to the end.
pub open spec fn moved(p: int, k: int, n: int) -> int {
    if p == k {
        n - 1
    } else if p > k {
        p - 1
    } else {
        p
    }
}

/// Where the entry at position `p` stands after rounds that served, in turn,
/// the entries at the positions `picks`.
pub open spec fn position_after(p: int, picks: Seq<int>, n: int) -> int
    decreases picks.len(),
{
    if picks.len() == 0 {
        p
    } else {
        moved(position_after(p, picks.drop_last(), n), picks.last(), n)
    }
}

/// While `y` stands ahead of `x` and each round serves a position ahead of `y`,
/// `y` stays ahead of `x`.
proof fn lemma_stays_ahead(n: int, picks: Seq<int>, x: int, y: int)
    requires
        0 <= y < x < n,
        forall|t: int| 0 <= t < picks.len() ==> 0 <= #[trigger] picks[t] < n,
        forall|t: int|
            0 <= t < picks.len() ==> #[trigger] picks[t] < position_after(y, picks.take(t), n),
    ensures
        0 <= position_after(y, picks, n) < position_after(x, picks, n) < n,
    decreases picks.len(),
{
    if picks.len() > 0 {
        let before = picks.drop_last();
        assert forall|t: int| 0 <= t < before.len() implies #[trigger] before[t]
            < position_after(y, before.take(t), n) by {
            assert(before.take(t) =~= picks.take(t));
            assert(before[t] == picks[t]);
        }
        assert forall|t: int| 0 <= t < before.len() implies 0 <= #[trigger] before[t] < n by {
            assert(before[t] == picks[t]);
        }
        lemma_stays_ahead(n, before, x, y);
        let t = picks.len() - 1;
        assert(picks.take(t) =~= before);
        assert(picks[t] < position_after(y, before, n));
    }
}

/// Round-robin within a group: once an entry has been served it stands
/// behind every other entry, so an entry that is ready on every later round is
/// served before the first one is served again.
///
/// Positions are those of [`Group::select_next`], which moves the entry at `p`
/// to `moved(p, w, n)` when it serves the entry at `w`.
///
/// `x` is where the served entry stands (the end of the rotation of `n`), `y`
/// any other position; `picks` are the positions served by the rounds that
/// follow, none of them `y`. As each round serves the first ready entry and `y`
/// is ready on each, every pick stands ahead of `y`; then none of them is `x`.
pub proof fn lemma_round_robin(n: int, picks: Seq<int>, x: int, y: int)
    requires
        x == n - 1,
        0 <= y < n,
        y != x,
        forall|t: int| 0 <= t < picks.len() ==> 0 <= #[trigger] picks[t] < n,
        forall|t: int|
            0 <= t < picks.len() ==> #[trigger] picks[t] <= position_after(y, picks.take(t), n),
        forall|t: int|
            0 <= t < picks.len() ==> #[trigger] picks[t] != position_after(y, picks.take(t), n),
    ensures
        forall|t: int|
            0 <= t < picks.len() ==> #[trigger] picks[t] != position_after(x, picks.take(t), n),
{
    assert forall|t: int| 0 <= t < picks.len() implies #[trigger] picks[t] != position_after(
        x,
        picks.take(t),
        n,
    ) by {
        let before = picks.take(t);
        assert forall|u: int| 0 <= u < before.len() implies 0 <= #[trigger] before[u] < n by {
            assert(before[u] == picks[u]);
        }
        assert forall|u: int| 0 <= u < before.len() implies #[trigger] before[u]
            < position_after(y, before.take(u), n) by {
            assert(before.take(u) =~= picks.take(u));
            assert(before[u] == picks[u]);
        }
        lemma_stays_ahead(n, before, x, y);
    }
}

impl<C, I, S: Source<C>> Source<C> for Group<I, S> {
    type Item = S::Item;

    fn poll_next(&mut self, cx: &mut C) -> Outcome<S::Item> {
        self.select_next(cx)
    }
}

/// A level or entry just made from `source`, not polled yet.
pub open spec fn fresh<K, S>(e: (K, Polled<S>), key: K, source: S) -> bool {
    &&& e.0 == key
    &&& e.1.inner() == source
    &&& e.1.polls() == Seq::<Status>::empty()
}

/// Sources by priority level; a lower number is a higher priority.
///
/// Each level holds one source, most often a [`Group`]. A poll tries the levels
/// in ascending order and hands out the first item found.
pub struct Priority<S> {
    /// The levels, by strictly ascending priority number.
    pub levels: Vec<(usize, Polled<S>)>,
    /// What the poll of each level gave in the latest round, in order.
    pub round: Ghost<Seq<Status>>,
}

impl<S> Priority<S> {
    /// The priority numbers of the levels, in polling order.
    pub open spec fn keys(&self) -> Seq<usize> {
        self.levels@.map_values(|l: (usize, Polled<S>)| l.0)
    }

    /// The levels are ordered by strictly ascending priority number.
    pub open spec fn wf(&self) -> bool {
        forall|i: int, j: int|
            0 <= i < j < self.levels@.len() ==> self.levels@[i].0 < self.levels@[j].0
    }

    /// A selector with a single level.
    pub fn single(priority: usize, source: S) -> (r: Self)
        ensures
            r.wf(),
            r.levels@.len() == 1,
            fresh(r.levels@[0], priority, source),
    {
        let mut levels = Vec::new();
        levels.push((priority, Polled::new(source)));
        Priority { levels, round: Ghost(Seq::empty()) }
    }

    /// Polls the levels once each in ascending priority order, stopping at the
    /// first that hands out an item: a level is never polled, let alone
    /// served, while a level of a smaller number had an item on the same
    /// round. Levels after the one served are left as they were.
    pub fn select_next<C>(&mut self, cx: &mut C) -> (r: Outcome<S::Item>)
        where
            S: Source<C>,
        ensures
            is_round(final(self).round@, old(self).levels@.len()),
            status_of(r) == settled(final(self).round@),
            final(self).levels@.len() == old(self).levels@.len(),
            forall|k: int|
                0 <= k < final(self).round@.len() ==> polled_once(
                    old(self).levels@[k],
                    final(self).levels@[k],
                    final(self).round@[k],
                ),
            forall|k: int|
                final(self).round@.len() <= k < old(self).levels@.len() ==> final(self).levels@[k]
                    == old(self).levels@[k],
    {
        let n = self.levels.len();
        let ghost start = self.levels@;
        self.round = Ghost(Seq::empty());
        let mut pending = false;
        let mut i: usize = 0;
        while i < n
            invariant
                n == self.levels@.len(),
                n == start.len(),
                start == old(self).levels@,
                self.round@.len() == i,
                i <= n,
                forall|j: int| 0 <= j < i ==> self.round@[j] != Status::Ready,
                forall|j: int|
                    0 <= j < i ==> polled_once(
                        start[j],
                        self.levels@[j],
                        self.round@[j],
                    ),
                forall|j: int| i <= j < n ==> self.levels@[j] == start[j],
                pending == exists|j: int| 0 <= j < i && self.round@[j] == Status::Pending,
            decreases n - i,
        {
            let polled = self.levels[i].1.poll(cx);
            let ghost before = self.round@;
            self.round = Ghost(self.round@.push(status_of(polled)));
            assert forall|j: int| 0 <= j < i implies polled_once(
                start[j],
                self.levels@[j],
                self.round@[j],
            ) by {
                assert(self.round@[j] == before[j]);
            }
            match polled {
                Outcome::Ready(item) => {
                    return Outcome::Ready(item);
                },
                Outcome::Pending => {
                    pending = true;
                    assert(self.round@[i as int] == Status::Pending);
                },
                Outcome::Ended => {
                    assert forall|j: int| 0 <= j < i + 1 && self.round@[j] == Status::Pending
                        implies 0 <= j < i && before[j] == Status::Pending by {}
                },
            }
            i = i + 1;
        }
        if pending {
            Outcome::Pending
        } else {
            Outcome::Ended
        }
    }

    /// Where a level of number `priority` stands or would stand: the first
    /// position whose number is not smaller.
    fn position(&self, priority: usize) -> (r: usize)
        requires
            self.wf(),
        ensures
            r <= self.levels@.len(),
            forall|i: int| 0 <= i < r ==> self.levels@[i].0 < priority,
            forall|i: int| r <= i < self.levels@.len() ==> self.levels@[i].0 >= priority,
    {
        let mut i: usize = 0;
        while i < self.levels.len() && self.levels[i].0 < priority
            invariant
                self.wf(),
                i <= self.levels@.len(),
                forall|j: int| 0 <= j < i ==> self.levels@[j].0 < priority,
            decreases self.levels@.len() - i,
        {
            i = i + 1;
        }
        if i < self.levels.len() {
            assert forall|j: int| i <= j < self.levels@.len() implies self.levels@[j].0
                >= priority by {
                if j > i {
                    assert(self.levels@[i as int].0 < self.levels@[j].0);
                }
            }
        }
        i
    }

    /// Sets the source of level `priority`, replacing the one it had.
    pub fn extend(&mut self, priority: usize, source: S)
        requires
            old(self).wf(),
        ensures
            final(self).wf(),
            exists|k: int, e: (usize, Polled<S>)|
                fresh(e, priority, source) && 0 <= k <= old(self).levels@.len() && (forall|i: int|
                    0 <= i < k ==> old(self).levels@[i].0 < priority) && (if k < old(
                    self,
                ).levels@.len() && old(self).levels@[k].0 == priority {
                    final(self).levels@ == old(self).levels@.update(k, e)
                } else {
                    &&& final(self).levels@ == old(self).levels@.insert(k, e)
                    &&& forall|i: int|
                        k <= i < old(self).levels@.len() ==> old(self).levels@[i].0 > priority
                }),
    {
        let k = self.position(priority);
        let e = (priority, Polled::new(source));
        if k < self.levels.len() && self.levels[k].0 == priority {
            self.levels.set(k, e);
        } else {
            self.levels.insert(k, e);
        }
    }

    /// Drops level `priority`, if there is one.
    pub fn remove(&mut self, priority: usize)
        requires
            old(self).wf(),
        ensures
            final(self).wf(),
            !final(self).keys().contains(priority),
            old(self).keys().contains(priority) ==> exists|k: int|
                0 <= k < old(self).levels@.len() && old(self).levels@[k].0 == priority
                    && final(self).levels@ == old(self).levels@.remove(k),
            !old(self).keys().contains(priority) ==> final(self).levels@ == old(self).levels@,
    {
        let k = self.position(priority);
        let ghost start = self.levels@;
        if k < self.levels.len() && self.levels[k].0 == priority {
            proof {
                assert forall|i: int| k < i < start.len() implies start[i].0 > priority by {
                    assert(start[k as int].0 < start[i].0);
                }
            }
            let _ = self.levels.remove(k);
            proof {
                assert(start.map_values(|l: (usize, Polled<S>)| l.0)[k as int] == priority);
                if self.keys().contains(priority) {
                    let i = choose|i: int| 0 <= i < self.keys().len() && self.keys()[i] == priority;
                    if i < k {
                        assert(start[i].0 < priority);
                    } else {
                        assert(start[i + 1].0 > priority);
                    }
                }
            }
        } else {
            proof {
                if self.keys().contains(priority) {
                    let i = choose|i: int| 0 <= i < self.keys().len() && self.keys()[i] == priority;
                    assert(self.levels@[i].0 == priority);
                    if i < k {
                        assert(start[i].0 < priority);
                    } else if i == k {
                    } else {
                        assert(start[k as int].0 < start[i].0);
                    }
                }
            }
        }
    }

    /// The source of level `priority`, to reconfigure it.
    pub fn groups(&mut self, priority: usize) -> (r: Option<&mut Polled<S>>)
        requires
            old(self).wf(),
        ensures
            old(self).keys().contains(priority) <==> r is Some,
            r matches Some(g) ==> exists|k: int|
                0 <= k < old(self).levels@.len() && old(self).levels@[k] == (priority, *g)
                    && final(self).levels@ == old(self).levels@.update(k, (priority, *final(g))),
            r is None ==> final(self).levels@ == old(self).levels@,
    {
        let k = self.position(priority);
        if k < self.levels.len() && self.levels[k].0 == priority {
            assert(self.keys()[k as int] == priority);
            Some(&mut self.levels[k].1)
        } else {
            proof {
                if self.keys().contains(priority) {
                    let i = choose|i: int| 0 <= i < self.keys().len() && self.keys()[i] == priority;
                    assert(self.levels@[i].0 == priority);
                    if i > k {
                        assert(self.levels@[k as int].0 < self.levels@[i].0);
                    }
                }
            }
            None
        }
    }
}

impl<C, S: Source<C>> Source<C> for Priority<S> {
    type Item = S::Item;

    fn poll_next(&mut self, cx: &mut C) -> Outcome<S::Item> {
        self.select_next(cx)
    }
}

/// Where a source of a worker's own queue selector comes from.
#[derive(PartialEq, Eq, Structural, Clone, Copy, Debug)]
pub enum Queue {
    /// The shareable queue of the numbered group.
    Group(usize),
    /// The worker's thread-local queue.
    Local,
}

/// Where a source of a worker's stealer selector comes from.
#[derive(PartialEq, Eq, Structural, Clone, Copy, Debug)]
pub enum Steal {
    /// The executor's injector of the numbered group.
    Injector(usize),
    /// A peer worker's queue of the numbered group.
    Stealer(usize),
}

impl GroupId for Queue {
    fn same(&self, other: &Self) -> (r: bool) {
        *self == *other
    }
}

impl GroupId for Steal {
    fn same(&self, other: &Self) -> (r: bool) {
        *self == *other
    }
}

/// A queue that a worker owns: its thread-local queue or a shareable one.
pub enum Queues<L, G> {
    Group(G),
    Local(L),
}

/// A unit of work taken from a queue, tagged by the kind of queue it came from.
pub enum Runnables<L, G> {
    Local(L),
    Group(G),
}

impl<C, L: Source<C>, G: Source<C>> Source<C> for Queues<L, G> {
    type Item = Runnables<L::Item, G::Item>;

    fn poll_next(&mut self, cx: &mut C) -> Outcome<Self::Item> {
        match self {
            Queues::Group(queue) => match queue.poll_next(cx) {
                Outcome::Ready(item) => Outcome::Ready(Runnables::Group(item)),
                Outcome::Ended => Outcome::Ended,
                Outcome::Pending => Outcome::Pending,
            },
            Queues::Local(queue) => match queue.poll_next(cx) {
                Outcome::Ready(item) => Outcome::Ready(Runnables::Local(item)),
                Outcome::Ended => Outcome::Ended,
                Outcome::Pending => Outcome::Pending,
            },
        }
    }
}

/// The queue selector that a worker starts with: one level, priority 0, whose
/// group polls the thread-local queue before the shareable queue of group 0.
pub fn new_queue<L, G>(local: L, queue: G) -> (r: Priority<Group<Queue, Queues<L, G>>>)
    ensures
        r.wf(),
        r.levels@.len() == 1,
        r.levels@[0].0 == 0,
        r.levels@[0].1.inner().entries@.len() == 2,
        fresh(r.levels@[0].1.inner().entries@[0], Queue::Local, Queues::<L, G>::Local(local)),
        fresh(r.levels@[0].1.inner().entries@[1], Queue::Group(0), Queues::<L, G>::Group(queue)),
{
    let mut entries = Vec::new();
    entries.push((Queue::Local, Polled::new(Queues::Local(local))));
    entries.push((Queue::Group(0), Polled::new(Queues::Group(queue))));
    Priority::single(
        0,
        Group { entries, round: Ghost(Seq::empty()) },
    )
}

/// The stealer selector that a worker starts with: one level, priority 0,
/// whose group takes turns between the injector of group 0 and each peer's
/// queue of group 0, in the order given.
pub fn new_stealer<R>(injector: R, stealers: Vec<R>) -> (r: Priority<Group<Steal, R>>)
    ensures
        r.wf(),
        r.levels@.len() == 1,
        r.levels@[0].0 == 0,
        r.levels@[0].1.inner().entries@.len() == stealers@.len() + 1,
        fresh(r.levels@[0].1.inner().entries@[0], Steal::Injector(0), injector),
        forall|i: int|
            0 <= i < stealers@.len() ==> fresh(
                #[trigger] r.levels@[0].1.inner().entries@[i + 1],
                Steal::Stealer(0),
                stealers@[i],
            ),
{
    let mut group = Group::new();
    let mut first = Vec::new();
    first.push(injector);
    assert(first@[0] == injector);
    group.extend(Steal::Injector(0), first);
    assert(fresh(group.entries@[0], Steal::Injector(0), injector));
    group.extend(Steal::Stealer(0), stealers);
    assert forall|i: int| 0 <= i < stealers@.len() implies fresh(
        #[trigger] group.entries@[i + 1],
        Steal::Stealer(0),
        stealers@[i],
    ) by {
        assert(fresh(group.entries@[i + 1], Steal::Stealer(0), stealers@[(i + 1) - 1]));
    }
    Priority::single(0, group)
}

} // verus!
