//! A whole batch over time: a pool whose jobs are the files of the batch,
//! and the context that the jobs report to.
//!
//! A job is the number of a file. A worker that is handed a job looks at
//! the cancellation signal first: where it is set the job ends at once and
//! records nothing; where it is clear the file is analysed and the outcome,
//! whatever it is, recorded. The laws proved here say how many records a
//! batch ends up with.

use crate::analysis::FileAnalysisView;
use crate::context::ContextView;
use crate::execution::{
    lemma_event_keeps_books, lemma_jobs_are_conserved, lemma_shutdown_drains, orderly, Execution,
    PoolEvent,
};
use vstd::prelude::*;
use vstd::multiset::lemma_multiset_empty_len;
use vstd::seq_lib::to_multiset_len;

verus! {

/// Something that happens to a batch.
pub enum BatchEvent {
    /// This many files are dispatched, as the jobs 0, 1, 2 and so on.
    Dispatch(nat),
    /// The cancellation signal is set.
    Cancel,
    /// Shutdown of the pool begins.
    Shutdown,
    /// A worker comes back from what it was doing and asks for work. Where
    /// it has analysed a file, `outcome` is the record it hands in.
    Poll { worker: int, outcome: FileAnalysisView },
    /// A worker wakes up though nobody woke it.
    Rouse(int),
}

/// The jobs of a batch of `files` files.
pub open spec fn jobs_of(files: nat) -> Seq<nat> {
    Seq::new(files, |i: int| i as nat)
}

/// What `event` is to the pool, where it is anything to it.
pub open spec fn pool_event(event: BatchEvent) -> Option<PoolEvent<nat>> {
    match event {
        BatchEvent::Dispatch(files) => Some(PoolEvent::ExecuteAll(jobs_of(files))),
        BatchEvent::Cancel => None,
        BatchEvent::Shutdown => Some(PoolEvent::Shutdown),
        BatchEvent::Poll { worker, outcome } => Some(PoolEvent::Poll(worker)),
        BatchEvent::Rouse(worker) => Some(PoolEvent::Rouse(worker)),
    }
}

/// What `events` are to the pool.
pub open spec fn pool_events(events: Seq<BatchEvent>) -> Seq<PoolEvent<nat>>
    decreases events.len(),
{
    if events.len() == 0 {
        Seq::empty()
    } else {
        match pool_event(events.last()) {
            Some(event) => pool_events(events.drop_last()).push(event),
            None => pool_events(events.drop_last()),
        }
    }
}

/// Whether files are dispatched in the course of `events`.
pub open spec fn dispatched_in(events: Seq<BatchEvent>) -> bool {
    exists|i: int| 0 <= i < events.len() && #[trigger] events[i] is Dispatch
}

/// Whether `events` are of no more than one batch, of `files` files: files
/// are dispatched at most once, then `files` of them, and not once
/// shutdown has begun.
pub open spec fn at_most_one_batch(events: Seq<BatchEvent>, files: nat) -> bool {
    &&& forall|i: int|
        0 <= i < events.len() && #[trigger] events[i] is Dispatch ==> events[i]
            == BatchEvent::Dispatch(files)
    &&& forall|i: int, j: int|
        #![trigger events[i], events[j]]
        0 <= i < j < events.len() && (events[i] is Dispatch || events[i] is Shutdown) ==> !(
        events[j] is Dispatch)
}

/// Whether `events` are the life of one batch of `files` files.
pub open spec fn one_batch(events: Seq<BatchEvent>, files: nat) -> bool {
    at_most_one_batch(events, files) && dispatched_in(events)
}

/// A pool, the context of its batch, and what the workers know.
pub struct Batch {
    /// The pool and the history of its jobs.
    pub execution: Execution<nat>,
    /// The context that the jobs report to.
    pub context: ContextView,
    /// For each worker whether the job in its hands found the signal clear
    /// when it started.
    pub admitted: Seq<bool>,
}

impl Batch {
    /// A pool of `size` workers and a fresh context.
    pub open spec fn start(size: nat) -> Batch {
        Batch {
            execution: Execution::start(size),
            context: ContextView::new(),
            admitted: Seq::new(size, |i: int| false),
        }
    }

    /// Whether worker `worker` has a record to hand in: it holds a job, and
    /// that job found the signal clear.
    pub open spec fn reports(self, worker: int) -> bool {
        0 <= worker < self.admitted.len() && self.execution.running[worker] is Some
            && self.admitted[worker]
    }

    /// The batch after `event`.
    pub open spec fn after(self, event: BatchEvent) -> Batch {
        match event {
            BatchEvent::Dispatch(files) => Batch {
                execution: self.execution.after(PoolEvent::ExecuteAll(jobs_of(files))),
                context: self.context.dispatched(files),
                ..self
            },
            BatchEvent::Cancel => Batch { context: self.context.cancel(), ..self },
            BatchEvent::Shutdown => Batch {
                execution: self.execution.after(PoolEvent::Shutdown),
                ..self
            },
            BatchEvent::Poll { worker, outcome } => if self.execution.pool.is_live(worker) {
                Batch {
                    execution: self.execution.after(PoolEvent::Poll(worker)),
                    context: if self.reports(worker) {
                        self.context.recorded(outcome)
                    } else {
                        self.context
                    },
                    admitted: self.admitted.update(worker, !self.context.cancelled),
                }
            } else {
                self
            },
            BatchEvent::Rouse(worker) => Batch {
                execution: self.execution.after(PoolEvent::Rouse(worker)),
                ..self
            },
        }
    }

    /// The batch after each of `events` in turn.
    pub open spec fn run(self, events: Seq<BatchEvent>) -> Batch
        decreases events.len(),
    {
        if events.len() == 0 {
            self
        } else {
            self.run(events.drop_last()).after(events.last())
        }
    }

    /// Whether the records fit the history of the jobs: there is at most
    /// one record for each job that was run to its end, and exactly one
    /// for each as long as the signal is clear.
    pub open spec fn accounted(self) -> bool {
        &&& self.execution.well_formed()
        &&& self.execution.conserved()
        &&& self.context.well_formed()
        &&& self.admitted.len() == self.execution.pool.workers.len()
        &&& self.context.results.len() <= self.execution.completed.len()
        &&& !self.context.cancelled ==> {
            &&& self.context.results.len() == self.execution.completed.len()
            &&& forall|w: int|
                0 <= w < self.admitted.len() && self.execution.running[w] is Some
                    ==> #[trigger] self.admitted[w]
        }
    }
}

/// One event keeps the records in line with the history of the jobs.
pub proof fn lemma_event_keeps_account(before: Batch, event: BatchEvent)
    requires
        before.accounted(),
    ensures
        before.after(event).accounted(),
        before.context.cancelled ==> before.after(event).context.cancelled,
{
    if let Some(to_pool) = pool_event(event) {
        lemma_event_keeps_books(before.execution, to_pool);
    }
}

/// The pool of a batch goes through what the batch's events are to it.
pub proof fn lemma_pool_of_batch(size: nat, events: Seq<BatchEvent>)
    ensures
        Batch::start(size).run(events).execution == Execution::<nat>::start(size).run(
            pool_events(events),
        ),
    decreases events.len(),
{
    if events.len() > 0 {
        lemma_pool_of_batch(size, events.drop_last());
        let earlier = pool_events(events.drop_last());
        if let Some(event) = pool_event(events.last()) {
            assert(earlier.push(event).drop_last() =~= earlier);
            if let BatchEvent::Poll { worker, outcome } = events.last() {
                let before = Batch::start(size).run(events.drop_last());
                if !before.execution.pool.is_live(worker) {
                    assert(before.execution.after(PoolEvent::Poll(worker)) == before.execution);
                }
            }
        }
    }
}

/// Whatever happens to a batch, its records stay in line with the history
/// of its jobs.
pub proof fn lemma_batch_is_accounted(size: nat, events: Seq<BatchEvent>)
    ensures
        Batch::start(size).run(events).accounted(),
    decreases events.len(),
{
    if events.len() == 0 {
        lemma_jobs_are_conserved::<nat>(size, Seq::empty());
    } else {
        lemma_batch_is_accounted(size, events.drop_last());
        lemma_event_keeps_account(Batch::start(size).run(events.drop_last()), events.last());
    }
}

/// A batch submits its files to the pool, once it is dispatched, and
/// nothing else, so nothing after shutdown has begun; and its signal is set
/// exactly when it was cancelled.
proof fn lemma_batch_submits_its_files(size: nat, events: Seq<BatchEvent>, files: nat)
    requires
        at_most_one_batch(events, files),
    ensures
        Batch::start(size).run(events).execution.submitted.len() == if dispatched_in(events) {
            files
        } else {
            0
        },
        Batch::start(size).run(events).context.total_files == if dispatched_in(events) {
            files
        } else {
            0
        },
        orderly(pool_events(events)),
        Batch::start(size).run(events).context.cancelled <==> exists|i: int|
            0 <= i < events.len() && #[trigger] events[i] is Cancel,
    decreases events.len(),
{
    if events.len() > 0 {
        let earlier = events.drop_last();
        let last = events.len() - 1;
        assert(at_most_one_batch(earlier, files)) by {
            assert(forall|i: int| 0 <= i < earlier.len() ==> earlier[i] == events[i]);
        }
        lemma_batch_submits_its_files(size, earlier, files);
        // What was dispatched before stays dispatched, and is all that is
        // dispatched unless the last event dispatches.
        if dispatched_in(earlier) {
            let i = choose|i: int| 0 <= i < earlier.len() && #[trigger] earlier[i] is Dispatch;
            assert(events[i] is Dispatch && !(events[last] is Dispatch));
        }
        if dispatched_in(events) && !(events[last] is Dispatch) {
            let i = choose|i: int| 0 <= i < events.len() && #[trigger] events[i] is Dispatch;
            assert(earlier[i] is Dispatch);
        }
        if events[last] is Dispatch {
            to_multiset_len(jobs_of(files));
            lemma_batch_is_accounted(size, earlier);
            lemma_multiset_empty_len(Batch::start(size).run(earlier).execution.submitted);
        }
        // Nothing is submitted once shutdown has begun.
        let to_pool_earlier = pool_events(earlier);
        let to_pool = pool_events(events);
        if pool_event(events.last()) is Some {
            lemma_shutdown_is_shutdown(earlier);
            assert forall|i: int, j: int|
                #![trigger to_pool[i], to_pool[j]]
                0 <= i < j < to_pool.len() && to_pool[i] is Shutdown implies !(to_pool[j]
                    is Execute) && !(to_pool[j] is ExecuteAll) by {
                if j < to_pool_earlier.len() {
                    assert(!(to_pool_earlier[j] is Execute) && !(to_pool_earlier[j]
                        is ExecuteAll));
                } else if events[last] is Dispatch {
                    let k = choose|k: int|
                        0 <= k < earlier.len() && #[trigger] earlier[k] is Shutdown;
                    assert(events[k] is Shutdown);
                }
            }
        }
        // The signal is set if it was set before, or is set now.
        if Batch::start(size).run(earlier).context.cancelled {
            let i = choose|i: int| 0 <= i < earlier.len() && #[trigger] earlier[i] is Cancel;
            assert(events[i] is Cancel);
        }
        if exists|i: int| 0 <= i < events.len() && #[trigger] events[i] is Cancel {
            let i = choose|i: int| 0 <= i < events.len() && #[trigger] events[i] is Cancel;
            if i < earlier.len() {
                assert(earlier[i] is Cancel);
            }
        }
    }
}

/// What is a shutdown to the pool is a shutdown of the batch.
proof fn lemma_shutdown_is_shutdown(events: Seq<BatchEvent>)
    ensures
        (exists|i: int| 0 <= i < pool_events(events).len() && #[trigger] pool_events(events)[i]
            is Shutdown) ==> exists|k: int| 0 <= k < events.len() && #[trigger] events[k]
            is Shutdown,
    decreases events.len(),
{
    if events.len() > 0 {
        let earlier = events.drop_last();
        lemma_shutdown_is_shutdown(earlier);
        let to_pool = pool_events(events);
        if exists|i: int| 0 <= i < to_pool.len() && #[trigger] to_pool[i] is Shutdown {
            let i = choose|i: int| 0 <= i < to_pool.len() && #[trigger] to_pool[i] is Shutdown;
            if i < pool_events(earlier).len() {
                assert(pool_events(earlier)[i] is Shutdown);
                let k = choose|k: int|
                    0 <= k < earlier.len() && #[trigger] earlier[k] is Shutdown;
                assert(events[k] is Shutdown);
            } else {
                assert(events[events.len() - 1] is Shutdown);
            }
        }
    }
}

/// A batch never holds more records than it has files.
pub proof fn lemma_no_more_records_than_files(size: nat, events: Seq<BatchEvent>, files: nat)
    requires
        at_most_one_batch(events, files),
    ensures
        Batch::start(size).run(events).context.results.len() <= files,
        Batch::start(size).run(events).context.files_completed <= files,
{
    let end = Batch::start(size).run(events);
    lemma_batch_is_accounted(size, events);
    lemma_batch_submits_its_files(size, events, files);
    // What is done was submitted.
    assert(end.execution.completed.len() <= end.execution.submitted.len());
}

/// Every file gets its record: where the files of a batch are dispatched
/// to a pool, the signal is never set, and the pool is shut down, then once
/// every worker has exited the batch is complete, with exactly one record
/// and one count for each of its files.
pub proof fn lemma_drained_batch_is_complete(size: nat, events: Seq<BatchEvent>, files: nat)
    requires
        size > 0,
        one_batch(events, files),
        forall|i: int| 0 <= i < events.len() ==> !(#[trigger] events[i] is Cancel),
        Batch::start(size).run(events).execution.pool.all_exited(),
    ensures
        Batch::start(size).run(events).context.results.len() == files,
        Batch::start(size).run(events).context.files_completed == files,
        Batch::start(size).run(events).context.total_files == files,
        Batch::start(size).run(events).context.is_complete(),
        Batch::start(size).run(events).execution.pool.queue.len() == 0,
{
    lemma_batch_is_accounted(size, events);
    lemma_batch_submits_its_files(size, events, files);
    lemma_pool_of_batch(size, events);
    lemma_shutdown_drains::<nat>(size, pool_events(events));
}

/// A batch whose signal is set before its files are dispatched records
/// nothing, whatever happens later: every job finds the signal set.
pub proof fn lemma_cancelled_batch_records_nothing(
    size: nat,
    files: nat,
    events: Seq<BatchEvent>,
)
    ensures
        Batch::start(size).after(BatchEvent::Cancel).after(BatchEvent::Dispatch(files)).run(
            events,
        ).context.results.len() == 0,
        Batch::start(size).after(BatchEvent::Cancel).after(BatchEvent::Dispatch(files)).run(
            events,
        ).context.cancelled,
        Batch::start(size).after(BatchEvent::Cancel).after(BatchEvent::Dispatch(files)).run(
            events,
        ).admitted == Seq::new(size, |i: int| false),
        Batch::start(size).after(BatchEvent::Cancel).after(BatchEvent::Dispatch(files)).run(
            events,
        ).execution.pool.workers.len() == size,
    decreases events.len(),
{
    if events.len() > 0 {
        lemma_cancelled_batch_records_nothing(size, files, events.drop_last());
    }
}

} // verus!
