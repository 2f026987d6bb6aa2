//! What a pool does over time: which jobs it was given, which of them its
//! workers hold, which are done, and which workers sleep.
//!
//! An [`Execution`] follows a pool through a sequence of events and keeps
//! the books that the pool itself does not keep. The laws proved of it say
//! that no job is lost or run twice, that work never waits while every
//! worker sleeps, and that once every worker has exited all jobs are done.

use crate::threadpool::{PoolView, WorkerAction, WorkerStatus};
use vstd::multiset::{lemma_multiset_empty_len, Multiset};
use vstd::prelude::*;
use vstd::seq_lib::{lemma_multiset_commutative, to_multiset_build, to_multiset_len};

verus! {

/// Something that happens to a pool.
pub enum PoolEvent<J> {
    /// A job is submitted, and the host wakes one worker: the worker
    /// `woken`, where that is a worker that sleeps.
    Execute { job: J, woken: int },
    /// Jobs are submitted in one go, and the host wakes every worker.
    ExecuteAll(Seq<J>),
    /// Shutdown begins, and the host wakes every worker.
    Shutdown,
    /// The worker of this number comes back from what it was doing and
    /// asks for work. It goes to sleep where it is told to wait.
    Poll(int),
    /// The worker of this number wakes up though nobody woke it.
    Rouse(int),
}

/// The job that a worker holds, as a bag of at most one job.
pub open spec fn bag_of<J>(held: Option<J>) -> Multiset<J> {
    match held {
        Some(job) => Multiset::singleton(job),
        None => Multiset::empty(),
    }
}

/// The jobs that the workers hold, all together.
pub open spec fn in_flight<J>(running: Seq<Option<J>>) -> Multiset<J>
    decreases running.len(),
{
    if running.len() == 0 {
        Multiset::empty()
    } else {
        in_flight(running.drop_last()).add(bag_of(running.last()))
    }
}

/// Whether no job is submitted after shutdown has begun.
pub open spec fn orderly<J>(events: Seq<PoolEvent<J>>) -> bool {
    forall|i: int, j: int|
        #![trigger events[i], events[j]]
        0 <= i < j < events.len() && events[i] is Shutdown ==> !(events[j] is Execute)
            && !(events[j] is ExecuteAll)
}

/// A pool together with the history of its jobs.
pub struct Execution<J> {
    /// The pool as it stands.
    pub pool: PoolView<J>,
    /// Every job submitted so far.
    pub submitted: Multiset<J>,
    /// For each worker the job it is running, if any.
    pub running: Seq<Option<J>>,
    /// Every job that a worker has run to its end.
    pub completed: Multiset<J>,
    /// For each worker whether it sleeps.
    pub asleep: Seq<bool>,
}

impl<J> Execution<J> {
    /// A pool of `size` workers right after its start: every worker is up
    /// and about to ask for work.
    pub open spec fn start(size: nat) -> Execution<J> {
        Execution {
            pool: PoolView::new(size),
            submitted: Multiset::empty(),
            running: Seq::new(size, |i: int| None),
            completed: Multiset::empty(),
            asleep: Seq::new(size, |i: int| false),
        }
    }

    /// Whether worker `worker` sleeps.
    pub open spec fn sleeps(self, worker: int) -> bool {
        0 <= worker < self.asleep.len() && self.asleep[worker]
    }

    /// The execution with worker `worker` up, if it slept.
    pub open spec fn woken(self, worker: int) -> Execution<J> {
        if self.sleeps(worker) {
            Execution { asleep: self.asleep.update(worker, false), ..self }
        } else {
            self
        }
    }

    /// The execution with every worker up.
    pub open spec fn all_woken(self) -> Execution<J> {
        Execution { asleep: Seq::new(self.asleep.len(), |i: int| false), ..self }
    }

    /// Whether `event` can happen: waking one worker wakes a worker that
    /// sleeps where any does, and a worker that sleeps asks for nothing.
    pub open spec fn permits(self, event: PoolEvent<J>) -> bool {
        match event {
            PoolEvent::Execute { job, woken } => self.sleeps(woken) || forall|w: int|
                !self.sleeps(w),
            PoolEvent::Poll(worker) => !self.sleeps(worker),
            _ => true,
        }
    }

    /// The execution after `event`.
    ///
    /// A worker asks for work only when it has nothing left to do: the job
    /// it held, if any, is done at that moment.
    pub open spec fn after(self, event: PoolEvent<J>) -> Execution<J> {
        match event {
            PoolEvent::Execute { job, woken } => Execution {
                pool: self.pool.execute(job),
                submitted: self.submitted.insert(job),
                ..self
            }.woken(woken),
            PoolEvent::ExecuteAll(jobs) => Execution {
                pool: self.pool.execute_all(jobs),
                submitted: self.submitted.add(jobs.to_multiset()),
                ..self
            }.all_woken(),
            PoolEvent::Shutdown => Execution { pool: self.pool.shutdown(), ..self }.all_woken(),
            PoolEvent::Poll(worker) => if self.pool.is_live(worker) {
                Execution {
                    pool: self.pool.poll(worker).0,
                    running: self.running.update(
                        worker,
                        match self.pool.poll(worker).1 {
                            WorkerAction::Run(job) => Some(job),
                            _ => None,
                        },
                    ),
                    completed: self.completed.add(bag_of(self.running[worker])),
                    asleep: self.asleep.update(worker, self.pool.poll(worker).1 is Wait),
                    ..self
                }
            } else {
                self
            },
            PoolEvent::Rouse(worker) => self.woken(worker),
        }
    }

    /// The execution after each of `events` in turn.
    pub open spec fn run(self, events: Seq<PoolEvent<J>>) -> Execution<J>
        decreases events.len(),
    {
        if events.len() == 0 {
            self
        } else {
            self.run(events.drop_last()).after(events.last())
        }
    }

    /// Whether each of `events` can happen when its turn comes.
    pub open spec fn allows(self, events: Seq<PoolEvent<J>>) -> bool
        decreases events.len(),
    {
        events.len() > 0 ==> self.allows(events.drop_last()) && self.run(
            events.drop_last(),
        ).permits(events.last())
    }

    /// Whether the books fit the pool: a worker holds a job exactly while
    /// it is busy, and sleeps only while it is idle.
    pub open spec fn well_formed(self) -> bool {
        &&& self.running.len() == self.pool.workers.len()
        &&& self.asleep.len() == self.pool.workers.len()
        &&& forall|w: int|
            0 <= w < self.running.len() ==> (#[trigger] self.running[w] is Some
                <==> self.pool.workers[w] == WorkerStatus::Busy)
        &&& forall|w: int|
            0 <= w < self.asleep.len() && #[trigger] self.asleep[w] ==> self.pool.workers[w]
                == WorkerStatus::Idle
    }

    /// Whether every submitted job is in exactly one place: queued, held by
    /// a worker, or done.
    pub open spec fn conserved(self) -> bool {
        self.submitted =~= self.pool.queue.to_multiset().add(in_flight(self.running)).add(
            self.completed,
        )
    }

    /// Whether a worker has exited only with shutdown begun and nothing
    /// queued.
    pub open spec fn exits_were_due(self) -> bool {
        (exists|w: int| 0 <= w < self.pool.workers.len() && self.pool.workers[w]
            == WorkerStatus::Exited) ==> self.pool.terminating && self.pool.queue.len() == 0
    }

    /// Whether there is something for a worker to see: a queued job, or
    /// that shutdown has begun.
    pub open spec fn has_work(self) -> bool {
        self.pool.queue.len() > 0 || self.pool.terminating
    }

    /// Whether some worker that has not exited is up.
    pub open spec fn someone_is_up(self) -> bool {
        exists|w: int| #[trigger] self.pool.is_live(w) && !self.sleeps(w)
    }

    /// Whether work is seen to: where there is something to see, some
    /// worker is up to see it, unless all have exited; and once shutdown
    /// has begun no worker sleeps.
    pub open spec fn attended(self) -> bool {
        &&& self.has_work() ==> self.someone_is_up() || self.pool.all_exited()
        &&& self.pool.terminating ==> forall|w: int| !self.sleeps(w)
    }
}

/// An empty queue holds no job.
proof fn lemma_empty_queue<J>(queue: Seq<J>)
    requires
        queue.len() == 0,
    ensures
        queue.to_multiset() =~= Multiset::empty(),
{
    to_multiset_len(queue);
    lemma_multiset_empty_len(queue.to_multiset());
}

/// While no worker holds a job, none is in flight.
proof fn lemma_nothing_in_flight<J>(running: Seq<Option<J>>)
    requires
        forall|w: int| 0 <= w < running.len() ==> running[w] is None,
    ensures
        in_flight(running) =~= Multiset::empty(),
    decreases running.len(),
{
    if running.len() > 0 {
        lemma_nothing_in_flight(running.drop_last());
    }
}

/// Giving worker `worker` another job, or none, changes what is in flight
/// by just that.
proof fn lemma_in_flight_update<J>(running: Seq<Option<J>>, worker: int, held: Option<J>)
    requires
        0 <= worker < running.len(),
    ensures
        in_flight(running.update(worker, held)).add(bag_of(running[worker])) =~= in_flight(
            running,
        ).add(bag_of(held)),
    decreases running.len(),
{
    let updated = running.update(worker, held);
    let rest = running.drop_last();
    if worker == running.len() - 1 {
        assert(updated.drop_last() =~= rest);
        assert(in_flight(rest).add(bag_of(held)).add(bag_of(running[worker])) =~= in_flight(
            rest,
        ).add(bag_of(running[worker])).add(bag_of(held)));
    } else {
        lemma_in_flight_update(rest, worker, held);
        assert(updated.drop_last() =~= rest.update(worker, held));
        let moved = in_flight(rest.update(worker, held));
        assert(moved.add(bag_of(running.last())).add(bag_of(running[worker])) =~= moved.add(
            bag_of(running[worker]),
        ).add(bag_of(running.last())));
    }
}

/// One event keeps the books in order.
pub proof fn lemma_event_keeps_books<J>(before: Execution<J>, event: PoolEvent<J>)
    requires
        before.well_formed(),
        before.conserved(),
    ensures
        before.after(event).well_formed(),
        before.after(event).conserved(),
{
    let after = before.after(event);
    match event {
        PoolEvent::Execute { job, woken } => {
            to_multiset_build(before.pool.queue, job);
        },
        PoolEvent::ExecuteAll(jobs) => {
            lemma_multiset_commutative(before.pool.queue, jobs);
        },
        PoolEvent::Poll(worker) => {
            if before.pool.is_live(worker) {
                // The job that the worker held is done, and the job that
                // it is handed leaves the queue for its hands.
                let held = match before.pool.poll(worker).1 {
                    WorkerAction::Run(job) => Some(job),
                    _ => None,
                };
                lemma_in_flight_update(before.running, worker, held);
                if before.pool.queue.len() > 0 {
                    let queue = before.pool.queue;
                    to_multiset_build(queue.drop_last(), queue.last());
                    assert(queue.drop_last().push(queue.last()) =~= queue);
                }
                assert(after.pool.queue.to_multiset().add(in_flight(after.running)).add(
                    after.completed,
                ) =~= after.pool.queue.to_multiset().add(
                    in_flight(after.running).add(bag_of(before.running[worker])),
                ).add(before.completed));
            }
        },
        PoolEvent::Shutdown | PoolEvent::Rouse(_) => {},
    }
}

/// No job is lost and none is run twice: whatever happens to a pool, every
/// job that was submitted is queued, held by one worker, or done, and is so
/// once for each time it was submitted.
pub proof fn lemma_jobs_are_conserved<J>(size: nat, events: Seq<PoolEvent<J>>)
    ensures
        Execution::<J>::start(size).run(events).well_formed(),
        Execution::<J>::start(size).run(events).conserved(),
    decreases events.len(),
{
    let start = Execution::<J>::start(size);
    if events.len() == 0 {
        lemma_nothing_in_flight(start.running);
        lemma_empty_queue(start.pool.queue);
    } else {
        lemma_jobs_are_conserved::<J>(size, events.drop_last());
        lemma_event_keeps_books(start.run(events.drop_last()), events.last());
    }
}

/// Unless every worker has exited, there is one that has not.
proof fn lemma_somebody_is_left<J>(pool: PoolView<J>) -> (worker: int)
    requires
        !pool.all_exited(),
    ensures
        pool.is_live(worker),
{
    choose|w: int| 0 <= w < pool.workers.len() && pool.workers[w] != WorkerStatus::Exited
}

/// One event that can happen keeps work seen to.
pub proof fn lemma_event_keeps_work_attended<J>(before: Execution<J>, event: PoolEvent<J>)
    requires
        before.well_formed(),
        before.attended(),
        before.permits(event),
    ensures
        before.after(event).attended(),
{
    let after = before.after(event);
    // Once shutdown has begun nobody sleeps: nobody slept before, and only
    // a worker that is told to wait goes to sleep.
    assert forall|w: int| after.pool.terminating implies !after.sleeps(w) by {
        if before.pool.terminating {
            assert(!before.sleeps(w));
        }
    }
    if after.has_work() && !after.pool.all_exited() {
        // Some worker that is left is up.
        match event {
            PoolEvent::Execute { job, woken } => {
                if before.sleeps(woken) {
                    assert(after.pool.is_live(woken) && !after.sleeps(woken));
                } else {
                    // Nobody sleeps: whoever is left is up.
                    let w = lemma_somebody_is_left(before.pool);
                    assert(!before.sleeps(w));
                    assert(after.pool.is_live(w) && !after.sleeps(w));
                }
            },
            PoolEvent::ExecuteAll(_) | PoolEvent::Shutdown => {
                // Everybody is woken.
                let w = lemma_somebody_is_left(before.pool);
                assert(after.pool.is_live(w) && !after.sleeps(w));
            },
            PoolEvent::Poll(worker) => {
                if !before.pool.is_live(worker) {
                    let w = choose|w: int| #[trigger]
                        before.pool.is_live(w) && !before.sleeps(w);
                    assert(after.pool.is_live(w) && !after.sleeps(w));
                } else if before.pool.poll(worker).1 is Run {
                    assert(after.pool.is_live(worker) && !after.sleeps(worker));
                } else {
                    // The worker has exited, which it does only once
                    // shutdown has begun: whoever is left is up.
                    let w = lemma_somebody_is_left(after.pool);
                    assert(after.pool.is_live(w) && !after.sleeps(w));
                }
            },
            PoolEvent::Rouse(_) => {
                let w = choose|w: int| #[trigger] before.pool.is_live(w) && !before.sleeps(w);
                assert(after.pool.is_live(w) && !after.sleeps(w));
            },
        }
    }
}

/// No wake-up is lost: as long as the host wakes whom the pool says and a
/// sleeping worker asks for nothing, there is never a job queued or a
/// shutdown begun while every worker that is left sleeps.
pub proof fn lemma_work_is_attended<J>(size: nat, events: Seq<PoolEvent<J>>)
    requires
        Execution::<J>::start(size).allows(events),
    ensures
        Execution::<J>::start(size).run(events).attended(),
    decreases events.len(),
{
    if events.len() > 0 {
        lemma_work_is_attended::<J>(size, events.drop_last());
        lemma_jobs_are_conserved::<J>(size, events.drop_last());
        lemma_event_keeps_work_attended(
            Execution::<J>::start(size).run(events.drop_last()),
            events.last(),
        );
    }
}

/// A worker that asks while there is something to see is never told to
/// wait: it is handed a job, which leaves one job fewer in the queue, or it
/// exits, which it does only with nothing queued and shutdown begun.
pub proof fn lemma_poll_with_work_makes_progress<J>(pool: PoolView<J>, worker: int)
    requires
        pool.is_live(worker),
        pool.queue.len() > 0 || pool.terminating,
    ensures
        !(pool.poll(worker).1 is Wait),
        pool.poll(worker).1 is Run ==> pool.poll(worker).0.queue.len() == pool.queue.len() - 1
            && pool.poll(worker).0.is_live(worker),
        pool.poll(worker).1 is Exit ==> pool.queue.len() == 0 && pool.terminating
            && !pool.poll(worker).0.is_live(worker),
        pool.poll(worker).0.terminating == pool.terminating,
{
}

/// The termination flag is set by shutdown only, and never cleared.
pub proof fn lemma_terminating_after_shutdown<J>(size: nat, events: Seq<PoolEvent<J>>)
    ensures
        Execution::<J>::start(size).run(events).pool.terminating <==> exists|i: int|
            0 <= i < events.len() && #[trigger] events[i] is Shutdown,
    decreases events.len(),
{
    if events.len() > 0 {
        let earlier = events.drop_last();
        lemma_terminating_after_shutdown::<J>(size, earlier);
        if Execution::<J>::start(size).run(earlier).pool.terminating {
            let i = choose|i: int| 0 <= i < earlier.len() && #[trigger] earlier[i] is Shutdown;
            assert(events[i] is Shutdown);
        }
        if exists|i: int| 0 <= i < events.len() && #[trigger] events[i] is Shutdown {
            let i = choose|i: int| 0 <= i < events.len() && #[trigger] events[i] is Shutdown;
            if i < earlier.len() {
                assert(earlier[i] is Shutdown);
            }
        }
    }
}

/// Where no job is submitted after shutdown has begun, a worker exits only
/// when nothing is queued, and nothing is queued from then on.
pub proof fn lemma_exits_are_due<J>(size: nat, events: Seq<PoolEvent<J>>)
    requires
        orderly(events),
    ensures
        Execution::<J>::start(size).run(events).exits_were_due(),
        Execution::<J>::start(size).run(events).pool.workers.len() == size,
    decreases events.len(),
{
    if events.len() > 0 {
        let earlier = events.drop_last();
        assert(orderly(earlier)) by {
            assert forall|i: int, j: int|
                #![trigger earlier[i], earlier[j]]
                0 <= i < j < earlier.len() && earlier[i] is Shutdown implies !(earlier[j]
                    is Execute) && !(earlier[j] is ExecuteAll) by {
                assert(earlier[i] == events[i] && earlier[j] == events[j]);
            }
        }
        lemma_exits_are_due::<J>(size, earlier);
        let before = Execution::<J>::start(size).run(earlier);
        let after = before.after(events.last());
        match events.last() {
            PoolEvent::Execute { .. } | PoolEvent::ExecuteAll(_) => {
                // Shutdown has not begun, so no worker has exited.
                lemma_terminating_after_shutdown::<J>(size, earlier);
                if before.pool.terminating {
                    let i = choose|i: int|
                        0 <= i < earlier.len() && #[trigger] earlier[i] is Shutdown;
                    assert(events[i] is Shutdown && !(events[events.len() - 1] is Execute) && !(
                    events[events.len() - 1] is ExecuteAll));
                }
            },
            PoolEvent::Poll(worker) => {
                // A worker that is handed a job or told to wait finds that
                // no worker has exited, and does not exit itself.
                if before.pool.is_live(worker) && (before.pool.queue.len() > 0
                    || !before.pool.terminating) {
                    assert forall|w: int| 0 <= w < after.pool.workers.len() implies #[trigger]
                        after.pool.workers[w] != WorkerStatus::Exited by {
                        assert(w != worker ==> after.pool.workers[w] == before.pool.workers[w]);
                    }
                }
            },
            PoolEvent::Shutdown | PoolEvent::Rouse(_) => {},
        }
    }
}

/// Shutdown drains the pool: where no job is submitted after shutdown has
/// begun, then once every worker has exited nothing is queued, no worker
/// holds a job, and every job that was ever submitted has been run to its
/// end.
pub proof fn lemma_shutdown_drains<J>(size: nat, events: Seq<PoolEvent<J>>)
    requires
        size > 0,
        orderly(events),
        Execution::<J>::start(size).run(events).pool.all_exited(),
    ensures
        Execution::<J>::start(size).run(events).pool.terminating,
        Execution::<J>::start(size).run(events).pool.queue.len() == 0,
        in_flight(Execution::<J>::start(size).run(events).running) =~= Multiset::empty(),
        Execution::<J>::start(size).run(events).completed =~= Execution::<J>::start(size).run(
            events,
        ).submitted,
{
    let end = Execution::<J>::start(size).run(events);
    lemma_exits_are_due::<J>(size, events);
    lemma_jobs_are_conserved::<J>(size, events);
    // The first worker has exited, so nothing is queued; and no worker is
    // busy, so none holds a job.
    assert(end.pool.workers[0] == WorkerStatus::Exited);
    lemma_nothing_in_flight(end.running);
    lemma_empty_queue(end.pool.queue);
}

} // verus!
