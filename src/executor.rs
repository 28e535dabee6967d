//! Executor-wide bookkeeping: the outstanding-task counter behind `wait`, the
//! layout of workers over cores, where new work is sent, and how a blocked
//! computation's end becomes a result.
use vstd::prelude::*;

use crate::error::{Cancelled, Executor};

verus! {

/// Names a task for the outstanding-task counter.
#[derive(PartialEq, Eq, Structural, Clone, Copy, Debug)]
pub struct TaskId(pub u64);

/// The outstanding-task counter: tasks spawned whose computation has not yet
/// finished. `wait` resumes when it reads zero.
pub struct Tasks {
    outstanding: usize,
    next: u64,
    alive: Ghost<Set<u64>>,
}

impl Tasks {
    /// The tasks spawned and not yet finished.
    pub closed spec fn alive(&self) -> Set<u64> {
        self.alive@
    }

    /// The counter agrees with the tasks alive, each named below `next`.
    pub closed spec fn wf(&self) -> bool {
        &&& self.alive@.finite()
        &&& self.outstanding@ == self.alive@.len()
        &&& forall|id: u64| self.alive@.contains(id) ==> id < self.next@
    }

    pub closed spec fn outstanding_spec(&self) -> nat {
        self.outstanding as nat
    }

    pub closed spec fn next_spec(&self) -> u64 {
        self.next
    }

    /// No task outstanding.
    pub fn new() -> (r: Self)
        ensures
            r.wf(),
            r.alive() == Set::<u64>::empty(),
            r.alive().finite(),
            r.next_spec() == 0,
    {
        Tasks { outstanding: 0, next: 0, alive: Ghost(Set::empty()) }
    }

    /// The number of tasks outstanding.
    pub fn outstanding(&self) -> (r: usize)
        requires
            self.wf(),
        ensures
            r == self.alive().len(),
            self.alive().finite(),
    {
        self.outstanding
    }

    /// Whether no task is outstanding: `wait` returns exactly then.
    pub fn is_quiescent(&self) -> (r: bool)
        requires
            self.wf(),
        ensures
            r == (self.alive().len() == 0),
    {
        self.outstanding == 0
    }

    /// Whether one more task can be counted and named.
    pub fn can_spawn(&self) -> (r: bool)
        requires
            self.wf(),
        ensures
            r == (self.alive().len() < usize::MAX && self.next_spec() < u64::MAX),
    {
        self.outstanding < usize::MAX && self.next < u64::MAX
    }

    /// Counts a task that is being spawned, and names it.
    pub fn spawned(&mut self) -> (id: TaskId)
        requires
            old(self).wf(),
            old(self).alive().len() < usize::MAX,
            old(self).next_spec() < u64::MAX,
        ensures
            final(self).wf(),
            !old(self).alive().contains(id.0),
            final(self).alive() == old(self).alive().insert(id.0),
            final(self).alive().finite(),
            final(self).alive().len() == old(self).alive().len() + 1,
            final(self).next_spec() == old(self).next_spec() + 1,
    {
        let id = self.next;
        self.next = self.next + 1;
        self.outstanding = self.outstanding + 1;
        self.alive = Ghost(self.alive@.insert(id));
        TaskId(id)
    }

    /// Counts a task whose computation finished. Says whether no task is
    /// outstanding any more, in which case the waiters of `wait` are notified.
    pub fn completed(&mut self, id: TaskId) -> (quiescent: bool)
        requires
            old(self).wf(),
            old(self).alive().contains(id.0),
        ensures
            final(self).wf(),
            final(self).alive() == old(self).alive().remove(id.0),
            final(self).alive().finite(),
            final(self).alive().len() == old(self).alive().len() - 1,
            final(self).next_spec() == old(self).next_spec(),
            quiescent == (final(self).alive().len() == 0),
    {
        proof {
            assert(self.alive@.len() > 0) by {
                vstd::set_lib::lemma_set_empty_equivalency_len(self.alive@);
            }
        }
        self.outstanding = self.outstanding - 1;
        self.alive = Ghost(self.alive@.remove(id.0));
        self.outstanding == 0
    }
}

/// What `wait` does after reading the counter.
#[derive(PartialEq, Eq, Structural, Clone, Copy, Debug)]
pub enum WaitStep {
    /// The counter was zero: return.
    Done,
    /// Tasks are outstanding: await the `finished` notification, then read
    /// again.
    Sleep,
}

/// One turn of `wait`: it returns exactly when it reads zero. It is a
/// snapshot: tasks spawned later make the counter non-zero again.
pub fn wait_step(tasks: &Tasks) -> (r: WaitStep)
    requires
        tasks.wf(),
    ensures
        r == WaitStep::Done <==> tasks.alive().len() == 0,
{
    if tasks.is_quiescent() {
        WaitStep::Done
    } else {
        WaitStep::Sleep
    }
}

/// Where the runnable of a task goes when it is scheduled.
#[derive(PartialEq, Eq, Structural, Clone, Copy, Debug)]
pub enum Route {
    /// The shareable queue of group 0 of the worker of the current thread.
    Worker,
    /// The executor's global injector of group 0.
    Injector,
}

/// Routes a scheduled runnable: to the current thread's worker when the
/// thread is one, else to the global injector, which every worker steals from.
pub fn route(on_worker: bool) -> (r: Route)
    ensures
        r == Route::Worker <==> on_worker,
        r == Route::Injector <==> !on_worker,
{
    if on_worker {
        Route::Worker
    } else {
        Route::Injector
    }
}

/// The positions `0..n` but `i`, ascending: the peers that worker `i` steals
/// from.
pub open spec fn peers(n: nat, i: nat) -> Seq<usize> {
    Seq::new((n - 1) as nat, |j: int| if j < i { j as usize } else { (j + 1) as usize })
}

/// What a worker thread starts with.
pub struct WorkerPlan {
    /// The core to pin the thread to, if the platform lists cores.
    pub core: Option<usize>,
    /// The workers whose queues this one steals from.
    pub stealers: Vec<usize>,
}

/// The number of workers: one per listed core, or, where the platform lists
/// none, one per physical CPU.
pub open spec fn worker_count(core_ids: Seq<usize>, physical: nat) -> nat {
    if core_ids.len() > 0 {
        core_ids.len()
    } else {
        physical
    }
}

/// Plans the worker threads: worker `i` is pinned to the `i`-th listed core
/// (unpinned where none are listed) and steals from every other worker, in
/// ascending order. Worker 0 is the main worker.
pub fn plan_workers(core_ids: Vec<usize>, physical: usize) -> (r: Vec<WorkerPlan>)
    requires
        core_ids@.len() > 0 || physical > 0,
    ensures
        r@.len() == worker_count(core_ids@, physical as nat),
        forall|i: int|
            0 <= i < r@.len() ==> (#[trigger] r@[i]).core == (if core_ids@.len() > 0 {
                Some(core_ids@[i])
            } else {
                None
            }),
        forall|i: int|
            0 <= i < r@.len() ==> (#[trigger] r@[i]).stealers@ == peers(
                r@.len() as nat,
                i as nat,
            ),
{
    let pinned = core_ids.len() > 0;
    let n = if pinned {
        core_ids.len()
    } else {
        physical
    };
    let mut plans: Vec<WorkerPlan> = Vec::new();
    let mut i: usize = 0;
    while i < n
        invariant
            n == worker_count(core_ids@, physical as nat),
            n > 0,
            pinned == (core_ids@.len() > 0),
            i <= n,
            plans@.len() == i,
            forall|k: int|
                0 <= k < i ==> (#[trigger] plans@[k]).core == (if pinned {
                    Some(core_ids@[k])
                } else {
                    None
                }),
            forall|k: int|
                0 <= k < i ==> (#[trigger] plans@[k]).stealers@ == peers(n as nat, k as nat),
        decreases n - i,
    {
        let mut stealers: Vec<usize> = Vec::new();
        let mut j: usize = 0;
        while j < n
            invariant
                n > 0,
                i < n,
                j <= n,
                stealers@.len() == if j <= i {
                    j as int
                } else {
                    j - 1
                },
                forall|k: int|
                    0 <= k < stealers@.len() ==> stealers@[k] == peers(n as nat, i as nat)[k],
            decreases n - j,
        {
            if j != i {
                stealers.push(j);
            }
            j = j + 1;
        }
        assert(stealers@ =~= peers(n as nat, i as nat));
        let core = if pinned {
            Some(core_ids[i])
        } else {
            None
        };
        plans.push(WorkerPlan { core, stealers });
        i = i + 1;
    }
    plans
}

/// How a blocked computation ended.
pub enum Finished<R> {
    /// It ran to completion with this output.
    Output(R),
    /// It was cancelled before it finished.
    Cancelled,
}

impl<R> Finished<R> {
    /// The output, or `Cancelled` when the computation was cancelled.
    pub fn into_result(self) -> (r: Result<R, Cancelled>)
        ensures
            self matches Finished::Output(v) ==> r == Ok::<R, Cancelled>(v),
            self is Cancelled ==> r == Err::<R, Cancelled>(Cancelled),
    {
        match self {
            Finished::Output(v) => Ok(v),
            Finished::Cancelled => Err(Cancelled),
        }
    }
}

/// The result of an executor's run from the result of its root computation.
pub fn executor_result<R>(root: Result<R, Cancelled>) -> (r: Result<R, Executor>)
    ensures
        root matches Ok(v) ==> r == Ok::<R, Executor>(v),
        root is Err ==> r == Err::<R, Executor>(Executor::Cancelled),
{
    match root {
        Ok(v) => Ok(v),
        Err(c) => Err(Executor::from(c)),
    }
}

} // verus!
