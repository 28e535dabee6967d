use std::ops::RangeInclusive;

use allochronic::future::{poll, yield_now, PollOnce, Yield};
use allochronic::select::{Select, Selected};
use allochronic::source::{Outcome, Source};

struct Scripted {
    next: Box<dyn FnMut() -> Outcome<usize>>,
}

impl Source<()> for Scripted {
    type Item = usize;

    fn poll_next(&mut self, _cx: &mut ()) -> Outcome<usize> {
        (self.next)()
    }
}

fn iter(range: RangeInclusive<usize>) -> Scripted {
    let mut range = range;
    Scripted {
        next: Box::new(move || match range.next() {
            Some(item) => Outcome::Ready(item),
            None => Outcome::Ended,
        }),
    }
}

fn ready_once(value: usize) -> Scripted {
    let mut done = false;
    Scripted {
        next: Box::new(move || {
            if done {
                Outcome::Ended
            } else {
                done = true;
                Outcome::Ready(value)
            }
        }),
    }
}

fn pending_first(start: usize) -> Scripted {
    let mut iteration = 0_usize;
    let mut counter = start;
    Scripted {
        next: Box::new(move || {
            iteration += 1;
            match iteration {
                1..=10 => Outcome::Pending,
                11..=20 => {
                    counter += 1;
                    Outcome::Ready(counter)
                }
                _ => Outcome::Ended,
            }
        }),
    }
}

#[test]
fn select_stream() {
    let mut counter = 0;
    let mut select = Select::new(vec![iter(1..=10)]);
    loop {
        match select.poll_round(&mut ()) {
            Selected::Branch(_, Some(result)) => {
                counter += 1;
                assert_eq!(counter, result);
            }
            Selected::Branch(_, None) => break,
            _ => unreachable!(),
        }
    }
    assert_eq!(counter, 10);
}

#[test]
fn select_streams() {
    let mut counter = 0;
    let mut select = Select::new(vec![iter(1..=10), iter(11..=20)]);
    loop {
        match select.poll_round(&mut ()) {
            Selected::Branch(_, Some(result)) => {
                counter += 1;
                assert_eq!(counter, result);
            }
            Selected::Branch(_, None) => break,
            _ => unreachable!(),
        }
    }
    assert_eq!(counter, 10);
}

#[test]
fn select_future_fused() {
    let mut counter = 0;
    let mut select = Select::new(vec![ready_once(1)]);
    loop {
        match select.poll_fused(&mut ()) {
            Selected::Branch(_, result) => {
                counter += 1;
                assert_eq!(counter, result);
            }
            Selected::Yield => unreachable!(),
            Selected::Complete => break,
        }
    }
    assert_eq!(counter, 1);
}

#[test]
fn select_futures_fused() {
    let mut counter = 0;
    let mut select = Select::new(vec![ready_once(1), ready_once(2)]);
    loop {
        match select.poll_fused(&mut ()) {
            Selected::Branch(_, result) => {
                counter += 1;
                assert_eq!(counter, result);
            }
            Selected::Yield => unreachable!(),
            Selected::Complete => break,
        }
    }
    assert_eq!(counter, 2);
}

#[test]
fn select_stream_fused() {
    let mut counter = 0;
    let mut select = Select::new(vec![iter(1..=10)]);
    loop {
        match select.poll_fused(&mut ()) {
            Selected::Branch(_, result) => {
                counter += 1;
                assert_eq!(counter, result);
            }
            Selected::Yield => unreachable!(),
            Selected::Complete => break,
        }
    }
    assert_eq!(counter, 10);
}

#[test]
fn select_streams_fused() {
    let mut counter = 0;
    let mut select = Select::new(vec![iter(1..=10), iter(11..=20)]);
    loop {
        match select.poll_fused(&mut ()) {
            Selected::Branch(_, result) => {
                counter += 1;
                assert_eq!(counter, result);
            }
            Selected::Yield => unreachable!(),
            Selected::Complete => break,
        }
    }
    assert_eq!(counter, 20);
}

#[test]
fn select_yield_1() {
    let mut counter = 0;
    let mut yields = 0_usize;
    let mut select = Select::new(vec![pending_first(0)]);
    loop {
        match select.poll_fused(&mut ()) {
            Selected::Branch(_, result) => {
                counter += 1;
                assert_eq!(counter, result);
            }
            Selected::Yield => yields += 1,
            Selected::Complete => break,
        }
    }
    assert_eq!(counter, 10);
    assert_eq!(yields, 10);
}

#[test]
fn select_yield_2() {
    let mut counter = 0;
    let mut yields = 0_usize;
    let mut select = Select::new(vec![pending_first(10), iter(1..=10)]);
    loop {
        match select.poll_fused(&mut ()) {
            Selected::Branch(_, result) => {
                counter += 1;
                assert_eq!(counter, result);
            }
            Selected::Yield => yields += 1,
            Selected::Complete => break,
        }
    }
    assert_eq!(counter, 20);
    assert_eq!(yields, 0);
}

#[test]
fn plain_select_yields_when_all_pending() {
    let mut select = Select::new(vec![pending_first(0), pending_first(0)]);
    assert!(matches!(select.poll_round(&mut ()), Selected::Yield));
    assert_eq!(select.sources.len(), 2);
}

#[test]
fn fused_select_with_no_sources_is_complete() {
    let mut select: Select<Scripted> = Select::new(Vec::new());
    assert!(matches!(select.poll_fused(&mut ()), Selected::Complete));
}

#[test]
fn fused_select_skips_an_ended_source() {
    let mut select = Select::new(vec![ready_once(7), iter(1..=1)]);
    assert!(matches!(select.poll_fused(&mut ()), Selected::Branch(0, 7)));
    assert!(matches!(select.poll_fused(&mut ()), Selected::Branch(1, 1)));
    assert_eq!(select.ended, vec![true, false]);
    assert!(matches!(select.poll_fused(&mut ()), Selected::Complete));
    assert_eq!(select.ended, vec![true, true]);
}

#[test]
fn yield_is_pending_once_then_ready() {
    let mut y = Yield::new();
    assert!(!y.step());
    assert!(y.step());
    assert!(y.step());
    let mut z = yield_now();
    assert!(!z.polled);
    assert!(!z.step());
    assert!(z.polled);
}

#[test]
fn poll_once_wraps_the_future() {
    let p: PollOnce<std::future::Ready<u8>> = poll(std::future::ready(3));
    assert_eq!(p.future.into_inner(), 3);
    let q = PollOnce::new(std::future::ready(4));
    assert_eq!(q.future.into_inner(), 4);
}
