use std::cell::RefCell;
use std::collections::VecDeque;
use std::rc::Rc;

use allochronic::queues::{new_queue, new_stealer, Group, Priority, Queue, Queues, Runnables, Steal};
use allochronic::source::{Outcome, Source, Status};

/// A queue that tests fill from outside, shared with the selector.
#[derive(Clone)]
struct Shared(Rc<RefCell<VecDeque<u32>>>);

impl Shared {
    fn new() -> Self {
        Shared(Rc::new(RefCell::new(VecDeque::new())))
    }

    fn push(&self, item: u32) {
        self.0.borrow_mut().push_back(item);
    }
}

impl Source<()> for Shared {
    type Item = u32;

    fn poll_next(&mut self, _cx: &mut ()) -> Outcome<u32> {
        match self.0.borrow_mut().pop_front() {
            Some(item) => Outcome::Ready(item),
            None => Outcome::Pending,
        }
    }
}

/// A source that always has an item: its own number.
struct Always(u32);

impl Source<()> for Always {
    type Item = u32;

    fn poll_next(&mut self, _cx: &mut ()) -> Outcome<u32> {
        Outcome::Ready(self.0)
    }
}

struct Ended;

impl Source<()> for Ended {
    type Item = u32;

    fn poll_next(&mut self, _cx: &mut ()) -> Outcome<u32> {
        Outcome::Ended
    }
}

fn ready(o: Outcome<u32>) -> u32 {
    match o {
        Outcome::Ready(item) => item,
        Outcome::Ended => panic!("ended"),
        Outcome::Pending => panic!("pending"),
    }
}

#[test]
fn round_robin_within_group() {
    let mut group = Group::new();
    group.extend(Steal::Stealer(0), vec![Always(0), Always(1), Always(2)]);
    let mut counts = [0_u32; 3];
    for _ in 0..300 {
        counts[ready(group.select_next(&mut ())) as usize] += 1;
    }
    for count in counts {
        assert!((99..=101).contains(&count));
    }
    assert_eq!(counts, [100, 100, 100]);
}

#[test]
fn group_serves_first_ready_and_rotates_it_back() {
    let a = Shared::new();
    let b = Shared::new();
    let mut group = Group::new();
    group.extend(Queue::Local, vec![a.clone()]);
    group.extend(Queue::Group(0), vec![b.clone()]);
    b.push(20);
    b.push(21);
    a.push(10);
    // `a` stands first, so it is served first, then moves behind `b`
    assert_eq!(ready(group.select_next(&mut ())), 10);
    a.push(11);
    assert_eq!(ready(group.select_next(&mut ())), 20);
    assert_eq!(ready(group.select_next(&mut ())), 11);
    assert_eq!(ready(group.select_next(&mut ())), 21);
    assert!(matches!(group.select_next(&mut ()), Outcome::Pending));
}

#[test]
fn group_ends_only_when_every_source_ended() {
    let mut group = Group::new();
    group.extend(Queue::Local, vec![Ended, Ended]);
    assert!(matches!(group.select_next(&mut ()), Outcome::Ended));
    let mut empty: Group<Queue, Ended> = Group::new();
    assert!(matches!(empty.select_next(&mut ()), Outcome::Ended));
}

#[test]
fn group_remove_keeps_the_order_of_the_rest() {
    let mut group = Group::new();
    group.extend(Steal::Injector(0), vec![Always(0)]);
    group.extend(Steal::Stealer(0), vec![Always(1), Always(2)]);
    group.extend(Steal::Injector(1), vec![Always(3)]);
    group.remove(Steal::Stealer(0));
    let ids: Vec<Steal> = group.entries.iter().map(|e| e.0).collect();
    assert_eq!(ids, vec![Steal::Injector(0), Steal::Injector(1)]);
    assert_eq!(ready(group.select_next(&mut ())), 0);
    assert_eq!(ready(group.select_next(&mut ())), 3);
}

#[test]
fn higher_priority_runs_first() {
    // task A pushes into priority 1 before task B pushes into priority 0
    let low = Shared::new();
    let high = Shared::new();
    let mut priority = Priority::single(1, low.clone());
    priority.extend(0, high.clone());
    low.push(1);
    high.push(0);
    assert_eq!(ready(priority.select_next(&mut ())), 0);
    assert_eq!(ready(priority.select_next(&mut ())), 1);
    assert!(matches!(priority.select_next(&mut ()), Outcome::Pending));
}

#[test]
fn priority_levels_stay_sorted_and_can_be_removed() {
    let mut priority = Priority::single(5, Always(5));
    priority.extend(2, Always(2));
    priority.extend(9, Always(9));
    priority.extend(5, Always(55));
    let keys: Vec<usize> = priority.levels.iter().map(|l| l.0).collect();
    assert_eq!(keys, vec![2, 5, 9]);
    assert_eq!(ready(priority.select_next(&mut ())), 2);
    priority.remove(2);
    assert_eq!(ready(priority.select_next(&mut ())), 55);
    assert!(priority.groups(5).is_some());
    assert!(priority.groups(2).is_none());
    *priority.groups(9).unwrap().source_mut() = Always(99);
    priority.remove(5);
    assert_eq!(ready(priority.select_next(&mut ())), 99);
}

#[test]
fn priority_pending_beats_ended() {
    let mut ended = Priority::single(0, Ended);
    assert!(matches!(ended.select_next(&mut ()), Outcome::Ended));
    let mut group = Group::new();
    group.extend(Queue::Local, vec![Shared::new()]);
    let mut priority = Priority::single(0, group);
    assert!(matches!(priority.select_next(&mut ()), Outcome::Pending));
    assert_eq!(Outcome::<u32>::Pending.status(), Status::Pending);
    assert!(Outcome::Ready(1_u32).is_ready());
}

#[test]
fn queue_selector_prefers_the_local_queue() {
    let local = Shared::new();
    let shared = Shared::new();
    let mut selector = new_queue(local.clone(), shared.clone());
    shared.push(2);
    local.push(1);
    match ready_runnable(selector.select_next(&mut ())) {
        Runnables::Local(item) => assert_eq!(item, 1),
        Runnables::Group(_) => panic!("expected the local queue"),
    }
    match ready_runnable(selector.select_next(&mut ())) {
        Runnables::Group(item) => assert_eq!(item, 2),
        Runnables::Local(_) => panic!("expected the group queue"),
    }
    let ids: Vec<Queue> = selector.levels[0].1.source().entries.iter().map(|e| e.0).collect();
    assert_eq!(ids, vec![Queue::Local, Queue::Group(0)]);
    assert!(matches!(selector.levels[0].1.source().entries[0].1.source(), Queues::Local(_)));
}

fn ready_runnable(o: Outcome<Runnables<u32, u32>>) -> Runnables<u32, u32> {
    match o {
        Outcome::Ready(item) => item,
        _ => panic!("no item"),
    }
}

#[test]
fn idle_worker_steals_from_its_peer() {
    // worker 0 queues 100 tasks in its group queue; worker 1 steals through
    // its stealer selector, which reads worker 0's queue
    let injector = Shared::new();
    let worker0 = Shared::new();
    for task in 0..100 {
        worker0.push(task);
    }
    let mut stealer = new_stealer(injector.clone(), vec![worker0.clone()]);
    let mut stolen = 0;
    while let Outcome::Ready(_) = stealer.select_next(&mut ()) {
        stolen += 1;
    }
    assert!(stolen >= 1);
    assert_eq!(stolen, 100);
    let ids: Vec<Steal> = stealer.levels[0].1.source().entries.iter().map(|e| e.0).collect();
    assert_eq!(ids.len(), 2);
    assert!(ids.contains(&Steal::Injector(0)));
    assert!(ids.contains(&Steal::Stealer(0)));
}

#[test]
fn stealer_takes_turns_between_injector_and_peers() {
    let injector = Shared::new();
    let peer = Shared::new();
    let mut stealer = new_stealer(injector.clone(), vec![peer.clone()]);
    injector.push(1);
    injector.push(2);
    peer.push(10);
    assert_eq!(ready(stealer.select_next(&mut ())), 1);
    assert_eq!(ready(stealer.select_next(&mut ())), 10);
    assert_eq!(ready(stealer.select_next(&mut ())), 2);
}
