//! The state of a worker pool and the rules by which it changes.
//!
//! A pool is a queue of jobs, a termination flag and one status per
//! worker. The host keeps a [`ThreadPool`] behind its lock and runs one
//! thread per worker; each thread asks [`ThreadPool::next_job`] what to do,
//! sleeps on `Wait`, runs the job outside the lock on `Run`, and ends on
//! `Exit`. The type itself starts no thread and never blocks.

use vstd::prelude::*;

verus! {

/// What a worker of the pool is doing.
#[derive(Clone, Copy, Debug, PartialEq, Eq, Structural)]
pub enum WorkerStatus {
    /// It has no job: it has not asked yet, or was told to wait.
    Idle,
    /// It was handed a job and has not come back for the next.
    Busy,
    /// It was told to exit.
    Exited,
}

/// What a worker is told when it asks for work.
#[derive(Debug)]
pub enum WorkerAction<J> {
    /// Nothing is queued and the pool is not shutting down: sleep until
    /// woken, then ask again.
    Wait,
    /// Run this job, then ask again.
    Run(J),
    /// Nothing is queued and the pool is shutting down: end.
    Exit,
}

/// Whom the host is to wake after a call that gives the workers something
/// to look at.
#[derive(Clone, Copy, Debug, PartialEq, Eq, Structural)]
#[must_use]
pub enum Wake {
    /// One sleeping worker, if any sleeps.
    One,
    /// Every sleeping worker.
    All,
}

/// A [`ThreadPool`] as mathematical values.
pub struct PoolView<J> {
    /// The queued jobs, oldest first.
    pub queue: Seq<J>,
    /// Whether shutdown has begun.
    pub terminating: bool,
    /// The status of each worker.
    pub workers: Seq<WorkerStatus>,
}

impl<J> PoolView<J> {
    /// A pool of `size` workers right after its start.
    pub open spec fn new(size: nat) -> PoolView<J> {
        PoolView {
            queue: Seq::empty(),
            terminating: false,
            workers: Seq::new(size, |i: int| WorkerStatus::Idle),
        }
    }

    /// Whether the pool has a worker `worker` that has not exited.
    pub open spec fn is_live(self, worker: int) -> bool {
        0 <= worker < self.workers.len() && self.workers[worker] != WorkerStatus::Exited
    }

    /// Whether every worker has exited.
    pub open spec fn all_exited(self) -> bool {
        forall|w: int| 0 <= w < self.workers.len() ==> self.workers[w] == WorkerStatus::Exited
    }

    /// The pool with `job` queued behind the others.
    pub open spec fn execute(self, job: J) -> PoolView<J> {
        PoolView { queue: self.queue.push(job), ..self }
    }

    /// The pool with `jobs` queued behind the others, in their order.
    pub open spec fn execute_all(self, jobs: Seq<J>) -> PoolView<J> {
        PoolView { queue: self.queue + jobs, ..self }
    }

    /// The pool with shutdown begun.
    pub open spec fn shutdown(self) -> PoolView<J> {
        PoolView { terminating: true, ..self }
    }

    /// The pool with worker `worker` in `status`.
    pub open spec fn with_status(self, worker: int, status: WorkerStatus) -> PoolView<J> {
        PoolView { workers: self.workers.update(worker, status), ..self }
    }

    /// The pool after worker `worker` asked for work, and what it was told.
    ///
    /// A live worker gets the newest queued job if there is one; with an
    /// empty queue it waits, or exits once shutdown has begun. A worker
    /// that has exited, or that the pool does not have, is told to exit and
    /// changes nothing.
    pub open spec fn poll(self, worker: int) -> (PoolView<J>, WorkerAction<J>) {
        if !self.is_live(worker) {
            (self, WorkerAction::Exit)
        } else if self.queue.len() > 0 {
            (
                PoolView { queue: self.queue.drop_last(), ..self }.with_status(
                    worker,
                    WorkerStatus::Busy,
                ),
                WorkerAction::Run(self.queue.last()),
            )
        } else if self.terminating {
            (self.with_status(worker, WorkerStatus::Exited), WorkerAction::Exit)
        } else {
            (self.with_status(worker, WorkerStatus::Idle), WorkerAction::Wait)
        }
    }
}

/// The shared state of a pool of workers that run jobs of type `J`.
#[derive(Debug)]
pub struct ThreadPool<J> {
    queue: Vec<J>,
    terminating: bool,
    workers: Vec<WorkerStatus>,
}

impl<J> View for ThreadPool<J> {
    type V = PoolView<J>;

    closed spec fn view(&self) -> PoolView<J> {
        PoolView { queue: self.queue@, terminating: self.terminating, workers: self.workers@ }
    }
}

impl<J> ThreadPool<J> {
    /// A pool of `size` idle workers with nothing queued.
    pub fn new(size: usize) -> (pool: ThreadPool<J>)
        requires
            size > 0,
        ensures
            pool@ == PoolView::<J>::new(size as nat),
    {
        let mut workers: Vec<WorkerStatus> = Vec::new();
        while workers.len() < size
            invariant
                workers.len() <= size,
                forall|i: int| 0 <= i < workers.len() ==> workers[i] == WorkerStatus::Idle,
            decreases size - workers.len(),
        {
            workers.push(WorkerStatus::Idle);
        }
        let pool = ThreadPool { queue: Vec::new(), terminating: false, workers };
        assert(pool@.workers =~= PoolView::<J>::new(size as nat).workers);
        pool
    }

    /// Number of workers, exited ones included.
    pub fn size(&self) -> (size: usize)
        ensures
            size == self@.workers.len(),
    {
        self.workers.len()
    }

    /// Number of queued jobs.
    pub fn pending(&self) -> (pending: usize)
        ensures
            pending == self@.queue.len(),
    {
        self.queue.len()
    }

    /// Whether shutdown has begun.
    pub fn is_terminating(&self) -> (terminating: bool)
        ensures
            terminating == self@.terminating,
    {
        self.terminating
    }

    /// The status of worker `worker`, if the pool has one.
    pub fn status(&self, worker: usize) -> (status: Option<WorkerStatus>)
        ensures
            status == if worker < self@.workers.len() {
                Some(self@.workers[worker as int])
            } else {
                None
            },
    {
        if worker < self.workers.len() {
            Some(self.workers[worker])
        } else {
            None
        }
    }

    /// Whether every worker has exited: shutdown is complete.
    pub fn all_exited(&self) -> (done: bool)
        ensures
            done == self@.all_exited(),
    {
        let mut i: usize = 0;
        while i < self.workers.len()
            invariant
                i <= self.workers.len(),
                forall|w: int| 0 <= w < i ==> self.workers[w] == WorkerStatus::Exited,
            decreases self.workers.len() - i,
        {
            match self.workers[i] {
                WorkerStatus::Exited => {},
                _ => {
                    return false;
                },
            }
            i = i + 1;
        }
        true
    }

    /// Queues `job` behind the jobs already queued. One worker is enough to
    /// run it: the host wakes one.
    pub fn execute(&mut self, job: J) -> (wake: Wake)
        ensures
            final(self)@ == old(self)@.execute(job),
            wake == Wake::One,
    {
        self.queue.push(job);
        Wake::One
    }

    /// Queues all of `jobs`, in their order, behind the jobs already
    /// queued. The host wakes every worker.
    pub fn execute_all(&mut self, jobs: Vec<J>) -> (wake: Wake)
        ensures
            final(self)@ == old(self)@.execute_all(jobs@),
            wake == Wake::All,
    {
        let mut jobs = jobs;
        self.queue.append(&mut jobs);
        Wake::All
    }

    /// Begins shutdown. Every worker has to see it: the host wakes them
    /// all, and then waits until all have exited.
    pub fn shutdown(&mut self) -> (wake: Wake)
        ensures
            final(self)@ == old(self)@.shutdown(),
            wake == Wake::All,
    {
        self.terminating = true;
        Wake::All
    }

    /// Tells worker `worker` what to do next.
    pub fn next_job(&mut self, worker: usize) -> (action: WorkerAction<J>)
        ensures
            (final(self)@, action) == old(self)@.poll(worker as int),
    {
        if worker >= self.workers.len() {
            return WorkerAction::Exit;
        }
        match self.workers[worker] {
            WorkerStatus::Exited => {
                return WorkerAction::Exit;
            },
            _ => {},
        }
        match self.queue.pop() {
            Some(job) => {
                self.workers.set(worker, WorkerStatus::Busy);
                WorkerAction::Run(job)
            },
            None => {
                if self.terminating {
                    self.workers.set(worker, WorkerStatus::Exited);
                    WorkerAction::Exit
                } else {
                    self.workers.set(worker, WorkerStatus::Idle);
                    WorkerAction::Wait
                }
            },
        }
    }
}

} // verus!
