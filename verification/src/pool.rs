//! The bookkeeping of a fixed pool of workers that share one queue of jobs.
//!
//! The pool holds the jobs that wait and knows what each worker is doing. Whoever
//! owns the threads asks it what to do next: a worker that is free calls `take`, a
//! worker that is done calls `finish`, and tearing the pool down starts with
//! `shutdown`. Jobs leave the queue in the order in which they came, one per call,
//! and once the pool is shut every further step brings the end nearer.

use std::collections::VecDeque;
use vstd::prelude::*;

verus! {

/// What a worker is doing.
#[derive(Clone, Copy, PartialEq, Eq, Structural, Debug)]
pub enum WorkerState {
    /// Free to take the next job.
    Idle,
    /// Running a job that it took.
    Busy,
    /// Out of its loop for good.
    Stopped,
}

/// One worker of the pool: its number and what it is doing.
#[derive(Clone, Copy, Debug)]
pub struct Worker {
    pub id: usize,
    pub state: WorkerState,
}

impl Worker {
    /// A worker with the given number, free to take a job.
    pub fn new(id: usize) -> (worker: Worker)
        ensures
            worker.id == id,
            worker.state == WorkerState::Idle,
    {
        Worker { id, state: WorkerState::Idle }
    }
}

/// The workers of a new pool: numbered from zero, all idle.
pub open spec fn idle_workers(size: nat) -> Seq<Worker> {
    Seq::new(size, |i: int| Worker { id: i as usize, state: WorkerState::Idle })
}

/// What a worker that asked for work is told.
pub enum Dispatch<J> {
    /// Run this job, then report back.
    Run(J),
    /// Nothing waits, but more may come: ask again later.
    Wait,
    /// Nothing waits and nothing will come: leave the loop.
    Exit,
}

/// The steps that one worker still has before it, at most, once the pool is shut:
/// a busy worker has to finish and then to be told to leave, an idle one only to
/// be told.
pub open spec fn steps_of(state: WorkerState) -> nat {
    match state {
        WorkerState::Busy => 2,
        WorkerState::Idle => 1,
        WorkerState::Stopped => 0,
    }
}

/// The steps that a list of workers still has before it.
pub open spec fn steps_of_all(workers: Seq<Worker>) -> nat
    decreases workers.len(),
{
    if workers.len() == 0 {
        0
    } else {
        steps_of_all(workers.drop_last()) + steps_of(workers.last().state)
    }
}

/// Changing one worker changes the steps of all by the change of its own.
pub proof fn lemma_steps_update(workers: Seq<Worker>, i: int, worker: Worker)
    requires
        0 <= i < workers.len(),
    ensures
        steps_of_all(workers.update(i, worker)) + steps_of(workers[i].state) == steps_of_all(
            workers,
        ) + steps_of(worker.state),
    decreases workers.len(),
{
    let changed = workers.update(i, worker);
    if i == workers.len() - 1 {
        assert(changed.drop_last() =~= workers.drop_last());
    } else {
        lemma_steps_update(workers.drop_last(), i, worker);
        assert(changed.drop_last() =~= workers.drop_last().update(i, worker));
    }
}

/// No steps are left exactly when every worker has stopped.
pub proof fn lemma_steps_zero(workers: Seq<Worker>)
    ensures
        steps_of_all(workers) == 0 <==> forall|i: int|
            0 <= i < workers.len() ==> workers[i].state == WorkerState::Stopped,
    decreases workers.len(),
{
    if workers.len() > 0 {
        let front = workers.drop_last();
        lemma_steps_zero(front);
        if steps_of_all(workers) == 0 {
            assert forall|i: int| 0 <= i < workers.len() implies workers[i].state
                == WorkerState::Stopped by {
                if i < front.len() {
                    assert(workers[i] == front[i]);
                }
            }
        } else if steps_of_all(front) != 0 {
            let i = choose|i: int| 0 <= i < front.len() && front[i].state != WorkerState::Stopped;
            assert(workers[i] == front[i]);
        }
    }
}

/// A pool of a fixed number of workers and the jobs that wait for them.
pub struct ThreadPool<J> {
    workers: Vec<Worker>,
    queue: VecDeque<J>,
    open: bool,
}

impl<J> ThreadPool<J> {
    /// The workers, in the order of their numbers.
    pub closed spec fn workers(&self) -> Seq<Worker> {
        self.workers@
    }

    /// The jobs that wait, the oldest first.
    pub closed spec fn pending(&self) -> Seq<J> {
        self.queue@
    }

    /// Whether the pool still takes jobs.
    pub closed spec fn is_open(&self) -> bool {
        self.open
    }

    /// The number of workers.
    pub open spec fn size(&self) -> nat {
        self.workers().len()
    }

    /// What the worker with the given number is doing.
    pub open spec fn state_of(&self, id: int) -> WorkerState {
        self.workers()[id].state
    }

    /// There is at least one worker, and each stands at the place of its number.
    /// `new` makes a pool so, and every method keeps it so.
    pub open spec fn wf(&self) -> bool {
        &&& self.size() > 0
        &&& forall|i: int| 0 <= i < self.size() ==> (#[trigger] self.workers()[i]).id == i
    }

    /// An upper bound on the calls of `take` and `finish` that can still follow once
    /// the pool is shut.
    pub open spec fn steps_left(&self) -> nat {
        2 * self.pending().len() + steps_of_all(self.workers())
    }

    /// The pool is shut, no job waits, and every worker has stopped.
    pub open spec fn drained(&self) -> bool {
        &&& !self.is_open()
        &&& self.pending().len() == 0
        &&& forall|i: int| 0 <= i < self.size() ==> self.state_of(i) == WorkerState::Stopped
    }

    /// `self` differs from `before` in nothing but the state of worker `id`.
    pub open spec fn same_but_worker(&self, before: &Self, id: int, state: WorkerState) -> bool {
        &&& self.workers() == before.workers().update(id, Worker { id: id as usize, state })
        &&& self.is_open() == before.is_open()
    }

    /// A pool of `size` workers, numbered from zero, all idle, with no job waiting.
    pub fn new(size: usize) -> (pool: Self)
        requires
            size > 0,
        ensures
            pool.wf(),
            pool.workers() == idle_workers(size as nat),
            pool.is_open(),
            pool.pending() == Seq::<J>::empty(),
    {
        let mut workers: Vec<Worker> = Vec::with_capacity(size);
        let mut id: usize = 0;
        while id < size
            invariant
                0 <= id <= size,
                workers@.len() == id,
                forall|i: int|
                    0 <= i < id ==> (#[trigger] workers@[i]).id == i && workers@[i].state
                        == WorkerState::Idle,
            decreases size - id,
        {
            workers.push(Worker::new(id));
            id += 1;
        }
        assert(workers@ =~= idle_workers(size as nat));
        ThreadPool { workers, queue: VecDeque::new(), open: true }
    }

    /// Puts a job at the end of the queue. The job is not run here, and nothing
    /// is said of when it will be.
    pub fn execute(&mut self, job: J)
        requires
            old(self).wf(),
            old(self).is_open(),
        ensures
            final(self).wf(),
            final(self).pending() == old(self).pending().push(job),
            final(self).workers() == old(self).workers(),
            final(self).is_open(),
    {
        self.queue.push_back(job);
    }

    /// Worker `id`, which is idle, asks for work. It gets the oldest waiting job and
    /// is busy from then on; or, where none waits, it is told to wait while the pool
    /// is open and to leave once it is shut, and then it has stopped.
    pub fn take(&mut self, id: usize) -> (told: Dispatch<J>)
        requires
            old(self).wf(),
            id < old(self).size(),
            old(self).state_of(id as int) == WorkerState::Idle,
        ensures
            final(self).wf(),
            old(self).pending().len() > 0 ==> {
                &&& told == Dispatch::Run(old(self).pending()[0])
                &&& final(self).pending() == old(self).pending().drop_first()
                &&& final(self).same_but_worker(old(self), id as int, WorkerState::Busy)
            },
            old(self).pending().len() == 0 && old(self).is_open() ==> {
                &&& told is Wait
                &&& final(self).pending() == old(self).pending()
                &&& final(self).workers() == old(self).workers()
                &&& final(self).is_open()
            },
            old(self).pending().len() == 0 && !old(self).is_open() ==> {
                &&& told is Exit
                &&& final(self).pending() == old(self).pending()
                &&& final(self).same_but_worker(old(self), id as int, WorkerState::Stopped)
            },
            !(told is Wait) ==> final(self).steps_left() < old(self).steps_left(),
    {
        let ghost before = self.workers@;
        match self.queue.pop_front() {
            Some(job) => {
                self.workers.set(id, Worker { id, state: WorkerState::Busy });
                proof {
                    lemma_steps_update(before, id as int, Worker { id, state: WorkerState::Busy });
                    assert(self.queue@ =~= old(self).queue@.drop_first());
                }
                Dispatch::Run(job)
            },
            None => {
                if self.open {
                    Dispatch::Wait
                } else {
                    self.workers.set(id, Worker { id, state: WorkerState::Stopped });
                    proof {
                        lemma_steps_update(
                            before,
                            id as int,
                            Worker { id, state: WorkerState::Stopped },
                        );
                    }
                    Dispatch::Exit
                }
            },
        }
    }

    /// Worker `id` reports that the job it ran is done: it is idle again.
    pub fn finish(&mut self, id: usize)
        requires
            old(self).wf(),
            id < old(self).size(),
            old(self).state_of(id as int) == WorkerState::Busy,
        ensures
            final(self).wf(),
            final(self).pending() == old(self).pending(),
            final(self).same_but_worker(old(self), id as int, WorkerState::Idle),
            final(self).steps_left() < old(self).steps_left(),
    {
        let ghost before = self.workers@;
        self.workers.set(id, Worker { id, state: WorkerState::Idle });
        proof {
            lemma_steps_update(before, id as int, Worker { id, state: WorkerState::Idle });
        }
    }

    /// Shuts the pool: no job can be added from now on, the jobs that wait are
    /// still handed out, and a worker that finds the queue empty is told to leave.
    /// The result lists the workers in the order in which to wait for them.
    pub fn shutdown(&mut self) -> (order: Vec<usize>)
        requires
            old(self).wf(),
        ensures
            final(self).wf(),
            !final(self).is_open(),
            final(self).pending() == old(self).pending(),
            final(self).workers() == old(self).workers(),
            order@ == Seq::new(old(self).size(), |i: int| i as usize),
    {
        self.open = false;
        let mut order: Vec<usize> = Vec::with_capacity(self.workers.len());
        let mut i: usize = 0;
        while i < self.workers.len()
            invariant
                0 <= i <= self.workers@.len(),
                self.wf(),
                order@ == Seq::new(i as nat, |k: int| k as usize),
            decreases self.workers@.len() - i,
        {
            order.push(self.workers[i].id);
            assert(order@ =~= Seq::new((i + 1) as nat, |k: int| k as usize));
            i += 1;
        }
        order
    }

    /// The number of workers.
    pub fn worker_count(&self) -> (count: usize)
        ensures
            count == self.size(),
    {
        self.workers.len()
    }

    /// The number of jobs that wait.
    pub fn pending_count(&self) -> (count: usize)
        ensures
            count == self.pending().len(),
    {
        self.queue.len()
    }

    /// Whether the pool still takes jobs.
    pub fn accepts_jobs(&self) -> (open: bool)
        ensures
            open == self.is_open(),
    {
        self.open
    }

    /// What worker `id` is doing; `None` where the pool has no such worker.
    pub fn worker_state(&self, id: usize) -> (state: Option<WorkerState>)
        ensures
            id < self.size() ==> state == Some(self.state_of(id as int)),
            id >= self.size() ==> state is None,
    {
        if id < self.workers.len() {
            Some(self.workers[id].state)
        } else {
            None
        }
    }
}

/// Once no step is left, the pool is drained; and a drained pool has no step left.
pub proof fn lemma_drained<J>(pool: &ThreadPool<J>)
    requires
        !pool.is_open(),
    ensures
        pool.steps_left() == 0 <==> pool.drained(),
{
    let workers = pool.workers();
    lemma_steps_zero(workers);
    if pool.drained() {
        assert forall|i: int| 0 <= i < workers.len() implies workers[i].state
            == WorkerState::Stopped by {
            assert(pool.state_of(i) == WorkerState::Stopped);
        }
    }
    if pool.steps_left() == 0 {
        assert forall|i: int| 0 <= i < pool.size() implies pool.state_of(i)
            == WorkerState::Stopped by {
            assert(workers[i].state == WorkerState::Stopped);
        }
    }
}

} // verus!
