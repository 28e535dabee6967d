//! The management broadcast: every message sent reaches every receiver that
//! is subscribed at the time, in the order sent.
use vstd::prelude::*;

use crate::source::Outcome;

verus! {

/// One subscribed receiver: its name, whether its owner still holds it, and
/// the messages it has not taken yet, oldest first.
pub struct Subscriber<T> {
    pub id: u64,
    pub open: bool,
    pub inbox: Vec<T>,
}

/// A subscriber as plain values.
pub open spec fn subscriber_view<T>(s: Subscriber<T>) -> (u64, bool, Seq<T>) {
    (s.id, s.open, s.inbox@)
}

/// A subscriber's entry after a send of `m`.
pub open spec fn delivered<T>(s: (u64, bool, Seq<T>), m: T) -> (u64, bool, Seq<T>) {
    (s.0, s.1, s.2.push(m))
}

/// The sending side of a broadcast channel, with each subscriber's inbox.
pub struct Broadcast<T> {
    subscribers: Vec<Subscriber<T>>,
    next: u64,
}

impl<T: Copy> Broadcast<T> {
    /// The subscribers, in the order they subscribed.
    pub closed spec fn view(&self) -> Seq<(u64, bool, Seq<T>)> {
        self.subscribers@.map_values(|s: Subscriber<T>| subscriber_view(s))
    }

    pub closed spec fn next_spec(&self) -> u64 {
        self.next
    }

    /// Subscribers are named in ascending order, each below `next`.
    pub closed spec fn wf(&self) -> bool {
        &&& forall|i: int, j: int|
            0 <= i < j < self.subscribers@.len() ==> self.subscribers@[i].id
                < self.subscribers@[j].id
        &&& forall|i: int|
            0 <= i < self.subscribers@.len() ==> self.subscribers@[i].id < self.next
    }

    /// A broadcast with no subscribers.
    pub fn new() -> (r: Self)
        ensures
            r.wf(),
            r@ == Seq::<(u64, bool, Seq<T>)>::empty(),
            r.next_spec() == 0,
    {
        Broadcast { subscribers: Vec::new(), next: 0 }
    }

    /// Whether one more receiver can be named.
    pub fn can_subscribe(&self) -> (r: bool)
        ensures
            r == (self.next_spec() < u64::MAX),
    {
        self.next < u64::MAX
    }

    /// Attaches a fresh receiver, which sees every message sent from now on.
    pub fn subscribe(&mut self) -> (id: u64)
        requires
            old(self).wf(),
            old(self).next_spec() < u64::MAX,
        ensures
            final(self).wf(),
            final(self)@ == old(self)@.push((id, true, Seq::empty())),
            forall|i: int| 0 <= i < old(self)@.len() ==> old(self)@[i].0 != id,
            final(self).next_spec() == old(self).next_spec() + 1,
    {
        let id = self.next;
        self.next = self.next + 1;
        self.subscribers.push(Subscriber { id, open: true, inbox: Vec::new() });
        assert(self@ =~= old(self)@.push((id, true, Seq::empty())));
        id
    }

    /// Where the subscriber named `id` stands.
    fn find(&self, id: u64) -> (r: Option<usize>)
        requires
            self.wf(),
        ensures
            r matches Some(i) ==> i < self@.len() && self@[i as int].0 == id,
            r is None ==> forall|i: int| 0 <= i < self@.len() ==> self@[i].0 != id,
    {
        let mut i: usize = 0;
        while i < self.subscribers.len()
            invariant
                i <= self.subscribers@.len(),
                forall|k: int| 0 <= k < i ==> self@[k].0 != id,
            decreases self.subscribers@.len() - i,
        {
            if self.subscribers[i].id == id {
                return Some(i);
            }
            i = i + 1;
        }
        None
    }

    /// The owner of receiver `id` let it go; it is dropped at the next send.
    pub fn unsubscribe(&mut self, id: u64)
        requires
            old(self).wf(),
        ensures
            final(self).wf(),
            final(self).next_spec() == old(self).next_spec(),
            final(self)@.len() == old(self)@.len(),
            forall|i: int|
                0 <= i < old(self)@.len() ==> final(self)@[i] == if old(self)@[i].0 == id {
                    (id, false, old(self)@[i].2)
                } else {
                    old(self)@[i]
                },
    {
        match self.find(id) {
            Some(i) => {
                let mut s = self.subscribers.remove(i);
                s.open = false;
                self.subscribers.insert(i, s);
                assert forall|k: int| 0 <= k < old(self)@.len() && k != i implies old(
                    self,
                )@[k].0 != id by {
                    if k < i {
                        assert(old(self).subscribers@[k].id < old(self).subscribers@[i as int].id);
                    } else {
                        assert(old(self).subscribers@[i as int].id < old(self).subscribers@[k].id);
                    }
                }
            },
            None => {},
        }
    }

    /// Delivers `m` to every open subscriber, at the end of its inbox, and
    /// drops the subscribers whose owners let them go.
    pub fn send(&mut self, m: T)
        requires
            old(self).wf(),
        ensures
            final(self).wf(),
            final(self).next_spec() == old(self).next_spec(),
            final(self)@ == old(self)@.filter(|s: (u64, bool, Seq<T>)| s.1).map_values(
                |s: (u64, bool, Seq<T>)| delivered(s, m),
            ),
    {
        let ghost start = self@;
        let ghost start_subs = self.subscribers@;
        let mut rest: Vec<Subscriber<T>> = Vec::new();
        std::mem::swap(&mut rest, &mut self.subscribers);
        let mut backwards: Vec<Subscriber<T>> = Vec::new();
        while rest.len() > 0
            invariant
                rest@.len() + backwards@.len() == start_subs.len(),
                forall|i: int| 0 <= i < rest@.len() ==> rest@[i] == start_subs[i],
                forall|i: int|
                    0 <= i < backwards@.len() ==> backwards@[i] == start_subs[start_subs.len()
                        - 1 - i],
            decreases rest@.len(),
        {
            let s = rest.pop().unwrap();
            backwards.push(s);
        }
        let ghost done: int = 0;
        let mut kept: Vec<Subscriber<T>> = Vec::new();
        while backwards.len() > 0
            invariant
                start == start_subs.map_values(|s: Subscriber<T>| subscriber_view(s)),
                done + backwards@.len() == start_subs.len(),
                0 <= done <= start_subs.len(),
                kept@.map_values(|s: Subscriber<T>| subscriber_view(s)) == start.subrange(
                    0,
                    done,
                ).filter(|s: (u64, bool, Seq<T>)| s.1).map_values(
                    |s: (u64, bool, Seq<T>)| delivered(s, m),
                ),
                forall|i: int| 0 <= i < kept@.len() ==> kept@[i].id < self.next,
                forall|i: int, j: int|
                    0 <= i < j < kept@.len() ==> kept@[i].id < kept@[j].id,
                forall|i: int, k: int|
                    0 <= i < kept@.len() && done <= k < start_subs.len() ==> #[trigger] kept@[i].id
                        < #[trigger] start_subs[k].id,
                forall|i: int, j: int|
                    0 <= i < j < start_subs.len() ==> start_subs[i].id < start_subs[j].id,
                forall|i: int| 0 <= i < start_subs.len() ==> start_subs[i].id < self.next,
                forall|i: int|
                    0 <= i < backwards@.len() ==> backwards@[i] == start_subs[start_subs.len()
                        - 1 - i],
            decreases backwards@.len(),
        {
            let mut s = backwards.pop().unwrap();
            proof {
                reveal(Seq::filter);
                assert(start.subrange(0, done + 1).drop_last() == start.subrange(0, done));
                assert(s == start_subs[done]);
                assert(start.subrange(0, done + 1).last() == subscriber_view(s));
            }
            if s.open {
                s.inbox.push(m);
                let ghost before = kept@;
                kept.push(s);
                proof {
                    assert(kept@.map_values(|s: Subscriber<T>| subscriber_view(s)) =~= before.map_values(
                        |s: Subscriber<T>| subscriber_view(s),
                    ).push(subscriber_view(s)));
                    assert forall|i: int, k: int|
                        0 <= i < kept@.len() && done + 1 <= k < start_subs.len() implies kept@[i].id
                        < start_subs[k].id by {
                        if i < kept@.len() - 1 {
                            assert(kept@[i] == before[i]);
                        }
                    }
                }
            }
            proof {
                done = done + 1;
            }
        }
        proof {
            assert(start.subrange(0, start.len() as int) == start);
        }
        self.subscribers = kept;
    }

    /// One poll of receiver `id`: its oldest message, if it has one; `Ended`
    /// when no such receiver is subscribed.
    pub fn recv(&mut self, id: u64) -> (r: Outcome<T>)
        requires
            old(self).wf(),
        ensures
            final(self).wf(),
            final(self).next_spec() == old(self).next_spec(),
            (forall|i: int| 0 <= i < old(self)@.len() ==> old(self)@[i].0 != id) ==> (r is Ended
                && final(self)@ == old(self)@),
            forall|i: int|
                0 <= i < old(self)@.len() && old(self)@[i].0 == id ==> {
                    let s = old(self)@[i];
                    if s.2.len() == 0 {
                        r is Pending && final(self)@ == old(self)@
                    } else {
                        r == Outcome::Ready(s.2[0]) && final(self)@ == old(self)@.update(
                            i,
                            (s.0, s.1, s.2.drop_first()),
                        )
                    }
                },
    {
        match self.find(id) {
            None => Outcome::Ended,
            Some(i) => {
                proof {
                    assert forall|k: int| 0 <= k < old(self)@.len() && k != i implies old(
                        self,
                    )@[k].0 != id by {
                        if k < i {
                            assert(old(self).subscribers@[k].id < old(
                                self,
                            ).subscribers@[i as int].id);
                        } else {
                            assert(old(self).subscribers@[i as int].id < old(
                                self,
                            ).subscribers@[k].id);
                        }
                    }
                }
                if self.subscribers[i].inbox.len() == 0 {
                    Outcome::Pending
                } else {
                    let mut s = self.subscribers.remove(i);
                    let m = s.inbox.remove(0);
                    self.subscribers.insert(i, s);
                    assert(self@ =~= old(self)@.update(
                        i as int,
                        (old(self)@[i as int].0, old(self)@[i as int].1, old(self)@[i as int].2.drop_first()),
                    ));
                    Outcome::Ready(m)
                }
            },
        }
    }
}

/// Subscribing and then sending `m` puts exactly one copy of `m` in the new
/// subscriber's inbox; each later send appends its message after it, so the
/// subscriber sees the messages in the order sent.
pub proof fn lemma_broadcast_delivers<T>(
    subs: Seq<(u64, bool, Seq<T>)>,
    id: u64,
    m: T,
    later: T,
)
    ensures
        ({
            let once = subs.push((id, true, Seq::<T>::empty())).filter(
                |s: (u64, bool, Seq<T>)| s.1,
            ).map_values(|s: (u64, bool, Seq<T>)| delivered(s, m));
            let twice = once.filter(|s: (u64, bool, Seq<T>)| s.1).map_values(
                |s: (u64, bool, Seq<T>)| delivered(s, later),
            );
            &&& once.last() == (id, true, seq![m])
            &&& twice.last() == (id, true, seq![m, later])
        }),
{
    reveal(Seq::filter);
    let f = |s: (u64, bool, Seq<T>)| s.1;
    let pushed = subs.push((id, true, Seq::<T>::empty()));
    assert(pushed.drop_last() == subs);
    let filtered = pushed.filter(f);
    assert(filtered.last() == (id, true, Seq::<T>::empty()));
    let once = filtered.map_values(|s: (u64, bool, Seq<T>)| delivered(s, m));
    assert(once.last() == delivered((id, true, Seq::<T>::empty()), m));
    assert(seq![m] =~= Seq::<T>::empty().push(m));
    assert(once.last() == (id, true, seq![m]));
    assert(once.len() > 0);
    let f2 = once.filter(f);
    assert(f2.last() == once.last());
    assert(seq![m, later] =~= seq![m].push(later));
}

} // verus!
