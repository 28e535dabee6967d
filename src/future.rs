//! The state of the small futures used by the select idiom; their `Future`
//! impls stand beside the executor that polls them.
use vstd::prelude::*;

verus! {

/// Polls a future a single time, handing out what that poll gave.
#[derive(Debug)]
pub struct PollOnce<F> {
    pub future: F,
}

impl<F> PollOnce<F> {
    /// Builds a new [`PollOnce`].
    pub fn new(future: F) -> (r: Self)
        ensures
            r.future == future,
    {
        PollOnce { future }
    }
}

/// Polls `future` a single time when awaited, handing out what that poll gave.
pub fn poll<F>(future: F) -> (r: PollOnce<F>)
    ensures
        r.future == future,
{
    PollOnce::new(future)
}

/// A future that is pending on its first poll, waking its task at once, and
/// ready on every later one: it hands the thread to other work for one turn.
#[derive(Debug)]
pub struct Yield {
    pub polled: bool,
}

impl Yield {
    /// Builds a new [`Yield`], not yet polled.
    pub fn new() -> (r: Self)
        ensures
            !r.polled,
    {
        Yield { polled: false }
    }

    /// One poll: `false` (pending) the first time, `true` (ready) after.
    pub fn step(&mut self) -> (ready: bool)
        ensures
            ready == old(self).polled,
            final(self).polled,
    {
        if self.polled {
            true
        } else {
            self.polled = true;
            false
        }
    }
}

/// Yields to the executor once; see [`Yield`].
pub fn yield_now() -> (r: Yield)
    ensures
        !r.polled,
{
    Yield::new()
}

} // verus!
