//! The state machines of the executor's two signals: a set-once flag and an
//! edge-triggered notification. Each remembers whether tasks wait on it, so
//! that a signal wakes every task that a poll left waiting; the wakers
//! themselves are kept beside the state by whoever shares it.
use vstd::prelude::*;

verus! {

/// A boolean that turns true once and stays true; awaiting it completes once
/// it is set.
#[derive(PartialEq, Eq, Structural, Clone, Copy, Debug)]
pub struct Flag {
    pub set: bool,
    /// Polls that found the flag unset left their tasks waiting; the next
    /// signal wakes all of them.
    pub waiting: bool,
}

/// The flag after `signal`.
pub open spec fn signalled(f: Flag) -> Flag {
    Flag { set: true, waiting: false }
}

/// The flag after a poll: a poll of an unset flag leaves its task waiting.
pub open spec fn flag_polled(f: Flag) -> Flag {
    if f.set {
        f
    } else {
        Flag { set: false, waiting: true }
    }
}

impl Flag {
    /// An unset flag that nobody waits on.
    pub fn new() -> (r: Self)
        ensures
            !r.set,
            !r.waiting,
    {
        Flag { set: false, waiting: false }
    }

    /// Sets the flag. Says whether waiting tasks are to be woken: all of them.
    pub fn signal(&mut self) -> (wake: bool)
        ensures
            *final(self) == signalled(*old(self)),
            wake == old(self).waiting,
    {
        let wake = self.waiting;
        self.set = true;
        self.waiting = false;
        wake
    }

    /// One poll of an await on the flag: ready exactly when it is set.
    pub fn poll(&mut self) -> (ready: bool)
        ensures
            ready == old(self).set,
            *final(self) == flag_polled(*old(self)),
    {
        if self.set {
            true
        } else {
            self.waiting = true;
            false
        }
    }

    /// Whether the flag is set.
    pub fn is_set(&self) -> (r: bool)
        ensures
            r == self.set,
    {
        self.set
    }
}

/// Signalling a flag twice leaves it as signalling it once, and the second
/// signal wakes nobody; any await on a signalled flag, however often polled,
/// is ready at once.
pub proof fn lemma_flag_idempotent(f: Flag)
    ensures
        signalled(signalled(f)) == signalled(f),
        !signalled(f).waiting,
        signalled(f).set,
        flag_polled(signalled(f)) == signalled(f),
{
}

/// No lost wakeup on a flag: a signal that comes before an await begins makes
/// the await's first poll ready (a poll is ready exactly when the flag is
/// set); a poll that finds the flag unset leaves its task waiting, so that the
/// signal that follows wakes it (a signal wakes exactly when a task waits).
pub proof fn lemma_flag_no_lost_wakeup(f: Flag)
    ensures
        signalled(f).set,
        !f.set ==> flag_polled(f).waiting,
{
}

/// A set/reset status that a poll consumes: awaiting it completes once it has
/// been notified, and clears it.
#[derive(PartialEq, Eq, Structural, Clone, Copy, Debug)]
pub struct Notify {
    pub status: bool,
    /// Tasks have polled and are registered to be woken; the next notify
    /// wakes all of them.
    pub waiting: bool,
}

/// The state after `notify`.
pub open spec fn notified(n: Notify) -> Notify {
    Notify { status: true, waiting: false }
}

/// The state after a poll: the task registers, and the status is consumed.
pub open spec fn notify_polled(n: Notify) -> Notify {
    Notify { status: false, waiting: true }
}

impl Notify {
    /// A status not yet notified, that nobody waits on.
    pub fn new() -> (r: Self)
        ensures
            !r.status,
            !r.waiting,
    {
        Notify { status: false, waiting: false }
    }

    /// Sets the status. Says whether registered tasks are to be woken: all of
    /// them.
    pub fn notify(&mut self) -> (wake: bool)
        ensures
            *final(self) == notified(*old(self)),
            wake == old(self).waiting,
    {
        let wake = self.waiting;
        self.status = true;
        self.waiting = false;
        wake
    }

    /// Clears the status.
    pub fn reset(&mut self)
        ensures
            !final(self).status,
            final(self).waiting == old(self).waiting,
    {
        self.status = false;
    }

    /// One poll of an await: registers the task, then tests and clears the
    /// status; ready exactly when it was set.
    pub fn poll(&mut self) -> (ready: bool)
        ensures
            ready == old(self).status,
            *final(self) == notify_polled(*old(self)),
    {
        let ready = self.status;
        self.waiting = true;
        self.status = false;
        ready
    }
}

/// A notification is consumed by one await: after `notify`, an await's poll
/// is ready; a second await's poll with no notify in between is pending and
/// leaves its task registered, so that the next notify wakes it.
pub proof fn lemma_notify_once(n: Notify)
    ensures
        notified(n).status,
        !notify_polled(notified(n)).status,
        notify_polled(notify_polled(notified(n))).waiting,
{
}

} // verus!
