//! The state that the jobs of one batch share, and the summary of a batch.
//!
//! A [`ProcessingContext`] collects one record per analysed file, counts
//! the records, knows how many files were dispatched and carries the
//! cancellation signal. The host keeps it behind its lock; every job goes
//! through [`ProcessingContext::admits_work`] before it starts and through
//! [`ProcessingContext::record`] when it is done.

use crate::analysis::{FileAnalysis, FileAnalysisView};
use crate::elapsed::Elapsed;
use crate::threadpool::{ThreadPool, Wake};
use vstd::prelude::*;

verus! {

/// The views of `results`, in order.
pub open spec fn analysis_views(results: Seq<FileAnalysis>) -> Seq<FileAnalysisView> {
    results.map_values(|a: FileAnalysis| a@)
}

/// Number of errors in all of `results` together.
pub open spec fn total_errors(results: Seq<FileAnalysisView>) -> nat
    decreases results.len(),
{
    if results.len() == 0 {
        0
    } else {
        total_errors(results.drop_last()) + results.last().errors.len()
    }
}

/// Number of `results` that hold at least one error.
pub open spec fn failures(results: Seq<FileAnalysisView>) -> nat
    decreases results.len(),
{
    if results.len() == 0 {
        0
    } else {
        failures(results.drop_last()) + if results.last().errors.len() > 0 {
            1nat
        } else {
            0nat
        }
    }
}

/// The processing times of all of `results` together, in nanoseconds.
pub open spec fn total_nanos(results: Seq<FileAnalysisView>) -> nat
    decreases results.len(),
{
    if results.len() == 0 {
        0
    } else {
        total_nanos(results.drop_last()) + results.last().processing_time
    }
}

/// A [`Summary`] as mathematical values.
pub struct SummaryView {
    pub total_files: nat,
    pub total_errors: nat,
    pub passed: nat,
    pub failed: nat,
    pub total_time: Option<nat>,
    pub average_time: Option<nat>,
}

/// The summary of `results`.
///
/// The total time is given where it fits in an [`Elapsed`]; the average,
/// rounded down to the nanosecond, where the total is given and there is at
/// least one result.
pub open spec fn summary_of(results: Seq<FileAnalysisView>) -> SummaryView {
    let fits = total_nanos(results) <= u128::MAX;
    SummaryView {
        total_files: results.len(),
        total_errors: total_errors(results),
        passed: (results.len() - failures(results)) as nat,
        failed: failures(results),
        total_time: if fits {
            Some(total_nanos(results))
        } else {
            None
        },
        average_time: if fits && results.len() > 0 {
            Some(total_nanos(results) / results.len())
        } else {
            None
        },
    }
}

/// What a batch came to.
#[derive(Clone, Copy, Debug, PartialEq, Eq)]
pub struct Summary {
    /// Number of records.
    pub total_files: usize,
    /// Number of errors in all records together.
    pub total_errors: u128,
    /// Number of records without an error.
    pub passed: usize,
    /// Number of records with at least one error.
    pub failed: usize,
    /// The processing times of all records together, unless that is more
    /// than an [`Elapsed`] can hold.
    pub total_time: Option<Elapsed>,
    /// The total time divided by the number of records, unless there is no
    /// total or no record.
    pub average_time: Option<Elapsed>,
}

/// The length of `time`, if there is one.
pub open spec fn nanos_of(time: Option<Elapsed>) -> Option<nat> {
    match time {
        Some(span) => Some(span@),
        None => None,
    }
}

impl View for Summary {
    type V = SummaryView;

    open spec fn view(&self) -> SummaryView {
        SummaryView {
            total_files: self.total_files as nat,
            total_errors: self.total_errors as nat,
            passed: self.passed as nat,
            failed: self.failed as nat,
            total_time: nanos_of(self.total_time),
            average_time: nanos_of(self.average_time),
        }
    }
}

/// No more results fail than there are.
pub proof fn lemma_failures_bounded(results: Seq<FileAnalysisView>)
    ensures
        failures(results) <= results.len(),
    decreases results.len(),
{
    if results.len() > 0 {
        lemma_failures_bounded(results.drop_last());
    }
}

/// A result that failed holds an error, so there are at least as many
/// errors as failures; and where nothing failed there is no error.
pub proof fn lemma_errors_and_failures(results: Seq<FileAnalysisView>)
    ensures
        failures(results) <= total_errors(results),
        failures(results) == 0 <==> total_errors(results) == 0,
    decreases results.len(),
{
    if results.len() > 0 {
        lemma_errors_and_failures(results.drop_last());
    }
}

/// The summary of `results`.
pub fn summarize(results: &Vec<FileAnalysis>) -> (summary: Summary)
    ensures
        summary@ == summary_of(analysis_views(results@)),
{
    let ghost views = analysis_views(results@);
    let mut errors: u128 = 0;
    let mut failed: usize = 0;
    let mut time: Option<Elapsed> = Some(Elapsed::zero());
    let mut i: usize = 0;
    while i < results.len()
        invariant
            i <= results.len(),
            views == analysis_views(results@),
            errors == total_errors(views.take(i as int)),
            errors <= i * usize::MAX,
            failed == failures(views.take(i as int)),
            failed <= i,
            nanos_of(time) == if total_nanos(views.take(i as int)) <= u128::MAX {
                Some(total_nanos(views.take(i as int)))
            } else {
                None
            },
        decreases results.len() - i,
    {
        let analysis = &results[i];
        proof {
            assert(views.take(i + 1).drop_last() =~= views.take(i as int));
            assert(i * usize::MAX + usize::MAX <= usize::MAX * usize::MAX) by (nonlinear_arith)
                requires
                    i < usize::MAX,
            ;
            assert(usize::MAX * usize::MAX <= u128::MAX) by (nonlinear_arith)
                requires
                    usize::MAX <= u64::MAX,
            ;
        }
        errors = errors + analysis.errors.len() as u128;
        if analysis.has_errors() {
            failed = failed + 1;
        }
        time =
        match time {
            Some(so_far) => so_far.checked_add(analysis.processing_time),
            None => None,
        };
        i = i + 1;
    }
    proof {
        assert(views.take(results.len() as int) =~= views);
        lemma_failures_bounded(views);
    }
    let average_time = match time {
        Some(total) => total.checked_div(results.len()),
        None => None,
    };
    Summary {
        total_files: results.len(),
        total_errors: errors,
        passed: results.len() - failed,
        failed,
        total_time: time,
        average_time,
    }
}

/// A [`ProcessingContext`] as mathematical values.
pub struct ContextView {
    /// The records, in the order in which they came in.
    pub results: Seq<FileAnalysisView>,
    /// Number of jobs that have recorded their result.
    pub files_completed: nat,
    /// Number of files that were dispatched.
    pub total_files: nat,
    /// Whether the cancellation signal is set.
    pub cancelled: bool,
}

impl ContextView {
    /// The context of a batch before anything was dispatched.
    pub open spec fn new() -> ContextView {
        ContextView { results: Seq::empty(), files_completed: 0, total_files: 0, cancelled: false }
    }

    /// Whether the counter of finished jobs agrees with the records.
    pub open spec fn well_formed(self) -> bool {
        self.files_completed == self.results.len()
    }

    /// The context with `files` files dispatched.
    pub open spec fn dispatched(self, files: nat) -> ContextView {
        ContextView { total_files: files, ..self }
    }

    /// The context with `analysis` as one more record.
    pub open spec fn recorded(self, analysis: FileAnalysisView) -> ContextView {
        ContextView {
            results: self.results.push(analysis),
            files_completed: self.files_completed + 1,
            ..self
        }
    }

    /// The context with the cancellation signal set.
    pub open spec fn cancel(self) -> ContextView {
        ContextView { cancelled: true, ..self }
    }

    /// Whether every dispatched file has its record.
    pub open spec fn is_complete(self) -> bool {
        self.files_completed == self.total_files
    }
}

/// The state that the jobs of one batch share.
#[derive(Debug)]
pub struct ProcessingContext {
    results: Vec<FileAnalysis>,
    files_completed: usize,
    total_files: usize,
    cancelled: bool,
}

impl View for ProcessingContext {
    type V = ContextView;

    closed spec fn view(&self) -> ContextView {
        ContextView {
            results: analysis_views(self.results@),
            files_completed: self.files_completed as nat,
            total_files: self.total_files as nat,
            cancelled: self.cancelled,
        }
    }
}

impl ProcessingContext {
    /// The counter of finished jobs agrees with the records.
    #[verifier::type_invariant]
    spec fn counted(self) -> bool {
        self.files_completed == self.results@.len()
    }

    /// The context of a batch before anything was dispatched.
    pub fn new() -> (context: ProcessingContext)
        ensures
            context@ == ContextView::new(),
            context@.well_formed(),
    {
        let context = ProcessingContext {
            results: Vec::new(),
            files_completed: 0,
            total_files: 0,
            cancelled: false,
        };
        assert(analysis_views(context.results@) =~= Seq::empty());
        context
    }

    /// Notes how many jobs there are and queues them on `pool`, in their
    /// order, behind what `pool` already holds. The host wakes every
    /// worker.
    pub fn dispatch<J>(&mut self, pool: &mut ThreadPool<J>, jobs: Vec<J>) -> (wake: Wake)
        ensures
            final(self)@ == old(self)@.dispatched(jobs@.len()),
            final(self)@.well_formed(),
            final(pool)@ == old(pool)@.execute_all(jobs@),
            wake == Wake::All,
    {
        proof {
            use_type_invariant(&*self);
        }
        self.total_files = jobs.len();
        pool.execute_all(jobs)
    }

    /// Whether a job may start: the cancellation signal is not set. A job
    /// that finds it set ends at once and records nothing.
    pub fn admits_work(&self) -> (admitted: bool)
        ensures
            admitted == !self@.cancelled,
    {
        !self.cancelled
    }

    /// Takes in the record of a finished job and counts the job.
    pub fn record(&mut self, analysis: FileAnalysis)
        ensures
            final(self)@ == old(self)@.recorded(analysis@),
            final(self)@.well_formed(),
    {
        proof {
            use_type_invariant(&*self);
        }
        let mut taken = ProcessingContext::new();
        std::mem::swap(self, &mut taken);
        let ProcessingContext { results, files_completed, total_files, cancelled } = taken;
        let mut results = results;
        results.push(analysis);
        assert(analysis_views(results@) =~= analysis_views(old(self).results@).push(analysis@));
        *self = ProcessingContext { files_completed: results.len(), results, total_files, cancelled };
    }

    /// Sets the cancellation signal. It stays set.
    pub fn cancel(&mut self)
        ensures
            final(self)@ == old(self)@.cancel(),
            final(self)@.well_formed(),
    {
        proof {
            use_type_invariant(&*self);
        }
        self.cancelled = true;
    }

    /// Whether the cancellation signal is set.
    pub fn is_cancelled(&self) -> (cancelled: bool)
        ensures
            cancelled == self@.cancelled,
    {
        self.cancelled
    }

    /// Number of finished jobs and number of dispatched files, in that
    /// order.
    pub fn progress(&self) -> (progress: (usize, usize))
        ensures
            progress.0 == self@.files_completed,
            progress.1 == self@.total_files,
            self@.well_formed(),
    {
        proof {
            use_type_invariant(self);
        }
        (self.files_completed, self.total_files)
    }

    /// Whether every dispatched file has its record. Where that is so,
    /// there are as many records as files were dispatched.
    pub fn is_complete(&self) -> (complete: bool)
        ensures
            complete == self@.is_complete(),
            complete ==> self@.results.len() == self@.total_files,
            self@.well_formed(),
    {
        proof {
            use_type_invariant(self);
        }
        self.files_completed == self.total_files
    }

    /// The records, in the order in which they came in.
    pub fn results(&self) -> (results: &Vec<FileAnalysis>)
        ensures
            analysis_views(results@) == self@.results,
            results@.len() == self@.files_completed,
    {
        proof {
            use_type_invariant(self);
        }
        &self.results
    }

    /// The summary of the records taken in so far.
    pub fn summary(&self) -> (summary: Summary)
        ensures
            summary@ == summary_of(self@.results),
    {
        summarize(&self.results)
    }
}

/// Something that happens to the context of a batch.
pub enum ContextEvent {
    /// This many files are dispatched.
    Dispatch(nat),
    /// A job hands in its record.
    Record(FileAnalysisView),
    /// The cancellation signal is set.
    Cancel,
}

impl ContextView {
    /// The context after `event`.
    pub open spec fn after(self, event: ContextEvent) -> ContextView {
        match event {
            ContextEvent::Dispatch(files) => self.dispatched(files),
            ContextEvent::Record(analysis) => self.recorded(analysis),
            ContextEvent::Cancel => self.cancel(),
        }
    }

    /// The context after each of `events` in turn.
    pub open spec fn run(self, events: Seq<ContextEvent>) -> ContextView
        decreases events.len(),
    {
        if events.len() == 0 {
            self
        } else {
            self.run(events.drop_last()).after(events.last())
        }
    }
}

/// Number of records handed in by `events`.
pub open spec fn records_in(events: Seq<ContextEvent>) -> nat
    decreases events.len(),
{
    if events.len() == 0 {
        0
    } else {
        records_in(events.drop_last()) + if events.last() is Record {
            1nat
        } else {
            0nat
        }
    }
}

/// Whatever happens to a context, its counter keeps agreeing with its
/// records, the records it held stay where they were, one record and one
/// count come in for each job that hands in its result, and a signal that
/// was set stays set.
pub proof fn lemma_context_history(context: ContextView, events: Seq<ContextEvent>)
    requires
        context.well_formed(),
    ensures
        context.run(events).well_formed(),
        context.run(events).results.len() == context.results.len() + records_in(events),
        context.run(events).files_completed == context.files_completed + records_in(events),
        context.run(events).results.take(context.results.len() as int) == context.results,
        context.cancelled ==> context.run(events).cancelled,
    decreases events.len(),
{
    if events.len() > 0 {
        lemma_context_history(context, events.drop_last());
        // A record comes in behind those that are there.
        let before = context.run(events.drop_last());
        let after = before.after(events.last());
        assert(after.results.take(context.results.len() as int) =~= before.results.take(
            context.results.len() as int,
        ));
    }
}

/// The number of dispatched files is fixed at dispatch time: no record and
/// no cancellation changes it.
pub proof fn lemma_total_is_fixed(context: ContextView, events: Seq<ContextEvent>)
    requires
        forall|i: int| 0 <= i < events.len() ==> !(#[trigger] events[i] is Dispatch),
    ensures
        context.run(events).total_files == context.total_files,
    decreases events.len(),
{
    if events.len() > 0 {
        let earlier = events.drop_last();
        assert(forall|i: int| 0 <= i < earlier.len() ==> !(#[trigger] earlier[i] is Dispatch));
        lemma_total_is_fixed(context, earlier);
    }
}

/// A batch of `files` files that has completed holds exactly `files`
/// records and has counted exactly `files` finished jobs, whatever the
/// order in which the records came in and whether or not the signal was
/// set on the way. A batch of no files is complete from the start.
pub proof fn lemma_complete_batch(files: nat, events: Seq<ContextEvent>)
    requires
        forall|i: int| 0 <= i < events.len() ==> !(#[trigger] events[i] is Dispatch),
    ensures
        ContextView::new().dispatched(files).run(events).is_complete() <==> records_in(events)
            == files,
        ContextView::new().dispatched(files).run(events).is_complete() ==> {
            &&& ContextView::new().dispatched(files).run(events).results.len() == files
            &&& ContextView::new().dispatched(files).run(events).files_completed == files
        },
        ContextView::new().dispatched(0).is_complete(),
{
    let start = ContextView::new().dispatched(files);
    lemma_context_history(start, events);
    lemma_total_is_fixed(start, events);
}

} // verus!
