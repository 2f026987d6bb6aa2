//! The course of one batch, step by step.
//!
//! A batch is listed, dispatched, waited for, drained and reported, in that
//! order. Listing files, sleeping, joining threads and printing is the
//! host's work; what comes next is decided here. An [`Orchestrator`] gives
//! the host a [`Directive`], the host carries it out and says how it went,
//! and so on until the directive is [`Directive::Stop`].

use crate::context::{summary_of, ContextView, ProcessingContext, Summary, SummaryView};
use vstd::prelude::*;

verus! {

/// Where a batch stands.
#[derive(Clone, Copy, Debug, PartialEq, Eq, Structural)]
pub enum Stage {
    /// The files are being listed.
    Listing,
    /// The files are known; their jobs are being queued.
    Dispatching,
    /// The jobs are queued; some have not recorded their result.
    Waiting,
    /// Every file has its record; the pool is being shut down.
    Draining,
    /// Every worker has exited; the summary is being shown.
    Reporting,
    /// There is nothing left to do.
    Finished,
}

/// How the host fared with a directive.
#[derive(Clone, Copy, Debug, PartialEq, Eq, Structural)]
pub enum Outcome {
    /// The files were listed.
    Listed,
    /// The files could not be listed.
    ListingFailed,
    /// The jobs were queued.
    Dispatched,
    /// Progress was shown, and some time has passed.
    Waited,
    /// The pool was shut down, and every worker has exited.
    Drained,
    /// The summary was shown.
    Reported,
}

/// What the host is to do next.
#[derive(Clone, Copy, Debug, PartialEq, Eq)]
pub enum Directive {
    /// List the files of the batch.
    ListFiles,
    /// Queue one job for each file.
    Dispatch,
    /// Show how many jobs have finished and how many files there are, and
    /// let some time pass.
    ShowProgress { completed: usize, total: usize },
    /// Shut the pool down and wait until every worker has exited.
    Shutdown,
    /// Show this summary, and the records.
    Report(Summary),
    /// Nothing.
    Stop,
}

/// A [`Directive`] as mathematical values.
pub enum DirectiveView {
    ListFiles,
    Dispatch,
    ShowProgress { completed: nat, total: nat },
    Shutdown,
    Report(SummaryView),
    Stop,
}

impl View for Directive {
    type V = DirectiveView;

    open spec fn view(&self) -> DirectiveView {
        match self {
            Directive::ListFiles => DirectiveView::ListFiles,
            Directive::Dispatch => DirectiveView::Dispatch,
            Directive::ShowProgress { completed, total } => DirectiveView::ShowProgress {
                completed: *completed as nat,
                total: *total as nat,
            },
            Directive::Shutdown => DirectiveView::Shutdown,
            Directive::Report(summary) => DirectiveView::Report(summary@),
            Directive::Stop => DirectiveView::Stop,
        }
    }
}

/// The outcome that ends `stage` and is no failure, if any does.
pub open spec fn awaited(stage: Stage) -> Option<Outcome> {
    match stage {
        Stage::Listing => Some(Outcome::Listed),
        Stage::Dispatching => Some(Outcome::Dispatched),
        Stage::Waiting => Some(Outcome::Waited),
        Stage::Draining => Some(Outcome::Drained),
        Stage::Reporting => Some(Outcome::Reported),
        Stage::Finished => None,
    }
}

/// The stage that follows `stage` once the host reports `outcome`, with the
/// context of the batch as it then is.
///
/// A batch whose files cannot be listed is over. A batch is waited for
/// until every dispatched file has its record, and only then drained. An
/// outcome that does not belong to the stage changes nothing.
pub open spec fn next_stage(stage: Stage, outcome: Outcome, context: ContextView) -> Stage {
    if stage == Stage::Listing && outcome == Outcome::ListingFailed {
        Stage::Finished
    } else if awaited(stage) != Some(outcome) {
        stage
    } else {
        match stage {
            Stage::Listing => Stage::Dispatching,
            Stage::Dispatching | Stage::Waiting => if context.is_complete() {
                Stage::Draining
            } else {
                Stage::Waiting
            },
            Stage::Draining => Stage::Reporting,
            Stage::Reporting | Stage::Finished => Stage::Finished,
        }
    }
}

/// What the host is to do in `stage`, with the context of the batch as it
/// is.
pub open spec fn directive_in(stage: Stage, context: ContextView) -> DirectiveView {
    match stage {
        Stage::Listing => DirectiveView::ListFiles,
        Stage::Dispatching => DirectiveView::Dispatch,
        Stage::Waiting => DirectiveView::ShowProgress {
            completed: context.files_completed,
            total: context.total_files,
        },
        Stage::Draining => DirectiveView::Shutdown,
        Stage::Reporting => DirectiveView::Report(summary_of(context.results)),
        Stage::Finished => DirectiveView::Stop,
    }
}

/// Number of stages that a batch in `stage` has before it, the stage of
/// waiting counted once.
pub open spec fn stages_left(stage: Stage) -> nat {
    match stage {
        Stage::Listing => 5,
        Stage::Dispatching => 4,
        Stage::Waiting => 3,
        Stage::Draining => 2,
        Stage::Reporting => 1,
        Stage::Finished => 0,
    }
}

/// The one who says what comes next in a batch.
#[derive(Debug)]
pub struct Orchestrator {
    stage: Stage,
}

impl View for Orchestrator {
    type V = Stage;

    closed spec fn view(&self) -> Stage {
        self.stage
    }
}

impl Orchestrator {
    /// The orchestrator of a batch that has not begun.
    pub fn new() -> (orchestrator: Orchestrator)
        ensures
            orchestrator@ == Stage::Listing,
    {
        Orchestrator { stage: Stage::Listing }
    }

    /// Where the batch stands.
    pub fn stage(&self) -> (stage: Stage)
        ensures
            stage == self@,
    {
        self.stage
    }

    /// What the host is to do now.
    pub fn directive(&self, context: &ProcessingContext) -> (directive: Directive)
        ensures
            directive@ == directive_in(self@, context@),
    {
        match self.stage {
            Stage::Listing => Directive::ListFiles,
            Stage::Dispatching => Directive::Dispatch,
            Stage::Waiting => {
                let (completed, total) = context.progress();
                Directive::ShowProgress { completed, total }
            },
            Stage::Draining => Directive::Shutdown,
            Stage::Reporting => Directive::Report(context.summary()),
            Stage::Finished => Directive::Stop,
        }
    }

    /// Takes in how the host fared and says what it is to do next.
    pub fn step(&mut self, outcome: Outcome, context: &ProcessingContext) -> (directive: Directive)
        ensures
            final(self)@ == next_stage(old(self)@, outcome, context@),
            directive@ == directive_in(final(self)@, context@),
    {
        self.stage =
        match (self.stage, outcome) {
            (Stage::Listing, Outcome::Listed) => Stage::Dispatching,
            (Stage::Listing, Outcome::ListingFailed) => Stage::Finished,
            (Stage::Dispatching, Outcome::Dispatched) | (Stage::Waiting, Outcome::Waited) => {
                if context.is_complete() {
                    Stage::Draining
                } else {
                    Stage::Waiting
                }
            },
            (Stage::Draining, Outcome::Drained) => Stage::Reporting,
            (Stage::Reporting, Outcome::Reported) => Stage::Finished,
            (stage, _) => stage,
        };
        self.directive(context)
    }
}

/// The pool is shut down only once every dispatched file has its record,
/// and the summary is shown only once the pool has been drained.
pub proof fn lemma_order_of_stages(stage: Stage, outcome: Outcome, context: ContextView)
    ensures
        next_stage(stage, outcome, context) == Stage::Draining && stage != Stage::Draining
            ==> context.is_complete(),
        next_stage(stage, outcome, context) == Stage::Reporting && stage != Stage::Reporting
            ==> stage == Stage::Draining && outcome == Outcome::Drained,
        directive_in(next_stage(stage, outcome, context), context) is Shutdown && !(directive_in(
            stage,
            context,
        ) is Shutdown) ==> context.is_complete(),
{
}

/// No stage is gone through twice, save that of waiting: an outcome that
/// belongs to the stage leads on, or keeps the batch waiting; any other
/// changes nothing.
pub proof fn lemma_stages_lead_on(stage: Stage, outcome: Outcome, context: ContextView)
    ensures
        stages_left(next_stage(stage, outcome, context)) <= stages_left(stage),
        next_stage(stage, outcome, context) == stage ==> stage == Stage::Waiting || stage
            == Stage::Finished || awaited(stage) != Some(outcome),
        stage == Stage::Waiting && outcome == Outcome::Waited && context.is_complete()
            ==> next_stage(stage, outcome, context) == Stage::Draining,
{
}

/// A batch of no files is not waited for: once it is dispatched it is
/// drained at once, and the summary that is then shown is empty.
pub proof fn lemma_empty_batch_completes_at_once()
    ensures
        next_stage(Stage::Dispatching, Outcome::Dispatched, ContextView::new().dispatched(0))
            == Stage::Draining,
        directive_in(Stage::Reporting, ContextView::new().dispatched(0)) == DirectiveView::Report(
            SummaryView {
                total_files: 0,
                total_errors: 0,
                passed: 0,
                failed: 0,
                total_time: Some(0nat),
                average_time: None,
            },
        ),
{
}

} // verus!
