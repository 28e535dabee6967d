//! The error kinds that callers of the executor and its tasks can see.
use vstd::prelude::*;

verus! {

/// Errors of running an executor.
#[derive(PartialEq, Eq, Structural, Clone, Copy, Debug)]
pub enum Executor {
    /// The executor was shut down before the root computation finished.
    Cancelled,
}

/// A blocked computation was cancelled, most often by the executor's shutdown.
#[derive(PartialEq, Eq, Structural, Clone, Copy, Debug)]
pub struct Cancelled;

/// The sending half of a one-shot channel was dropped before it sent.
#[derive(PartialEq, Eq, Structural, Clone, Copy, Debug)]
pub struct Canceled;

impl Executor {
    /// The message that describes the error.
    pub fn message(&self) -> (r: &'static str)
        ensures
            r@ == "Executor was shutdown before finishing"@,
    {
        "Executor was shutdown before finishing"
    }
}

impl Cancelled {
    /// The message that describes the error.
    pub fn message(&self) -> (r: &'static str)
        ensures
            r@ == "`Task` was cancelled"@,
    {
        "`Task` was cancelled"
    }
}

impl Canceled {
    /// The message that describes the error.
    pub fn message(&self) -> (r: &'static str)
        ensures
            r@ == "`Sender` was dropped"@,
    {
        "`Sender` was dropped"
    }
}

impl From<Cancelled> for Executor {
    fn from(c: Cancelled) -> (r: Executor) {
        Executor::Cancelled
    }
}

impl vstd::std_specs::convert::FromSpecImpl<Cancelled> for Executor {
    open spec fn obeys_from_spec() -> bool {
        true
    }

    open spec fn from_spec(c: Cancelled) -> Executor {
        Executor::Cancelled
    }
}

} // verus!
