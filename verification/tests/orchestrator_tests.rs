use parallel_file_processor::analysis::{FileAnalysis, FileStats, ProcessingError};
use parallel_file_processor::context::{ProcessingContext, Summary};
use parallel_file_processor::elapsed::Elapsed;
use parallel_file_processor::orchestrator::{Directive, Orchestrator, Outcome, Stage};
use parallel_file_processor::threadpool::{ThreadPool, Wake};

fn record_of(name: &str, errors: Vec<ProcessingError>, nanos: u128) -> FileAnalysis {
    FileAnalysis {
        filename: name.to_string(),
        stats: FileStats::zero(),
        errors,
        processing_time: Elapsed::from_nanos(nanos),
    }
}

#[test]
fn a_batch_goes_through_its_stages_in_order() {
    let mut context = ProcessingContext::new();
    let mut pool: ThreadPool<u8> = ThreadPool::new(2);
    let mut orchestrator = Orchestrator::new();
    assert_eq!(orchestrator.stage(), Stage::Listing);
    assert_eq!(orchestrator.directive(&context), Directive::ListFiles);

    assert_eq!(orchestrator.step(Outcome::Listed, &context), Directive::Dispatch);
    assert_eq!(orchestrator.stage(), Stage::Dispatching);

    assert_eq!(context.dispatch(&mut pool, vec![0, 1]), Wake::All);
    assert_eq!(
        orchestrator.step(Outcome::Dispatched, &context),
        Directive::ShowProgress { completed: 0, total: 2 }
    );
    assert_eq!(orchestrator.stage(), Stage::Waiting);

    context.record(record_of("a", Vec::new(), 5));
    assert_eq!(
        orchestrator.step(Outcome::Waited, &context),
        Directive::ShowProgress { completed: 1, total: 2 }
    );
    assert_eq!(
        orchestrator.step(Outcome::Waited, &context),
        Directive::ShowProgress { completed: 1, total: 2 }
    );

    context.record(record_of("b", vec![ProcessingError::Cancelled], 7));
    assert_eq!(orchestrator.step(Outcome::Waited, &context), Directive::Shutdown);
    assert_eq!(orchestrator.stage(), Stage::Draining);

    let summary = Summary {
        total_files: 2,
        total_errors: 1,
        passed: 1,
        failed: 1,
        total_time: Some(Elapsed::from_nanos(12)),
        average_time: Some(Elapsed::from_nanos(6)),
    };
    assert_eq!(orchestrator.step(Outcome::Drained, &context), Directive::Report(summary));
    assert_eq!(orchestrator.stage(), Stage::Reporting);

    assert_eq!(orchestrator.step(Outcome::Reported, &context), Directive::Stop);
    assert_eq!(orchestrator.stage(), Stage::Finished);
    assert_eq!(orchestrator.step(Outcome::Listed, &context), Directive::Stop);
    assert_eq!(orchestrator.directive(&context), Directive::Stop);
}

#[test]
fn a_batch_of_no_files_is_not_waited_for() {
    let mut context = ProcessingContext::new();
    let mut pool: ThreadPool<u8> = ThreadPool::new(1);
    let mut orchestrator = Orchestrator::new();
    assert_eq!(orchestrator.step(Outcome::Listed, &context), Directive::Dispatch);
    assert_eq!(context.dispatch(&mut pool, Vec::new()), Wake::All);
    assert_eq!(orchestrator.step(Outcome::Dispatched, &context), Directive::Shutdown);
    let empty = Summary {
        total_files: 0,
        total_errors: 0,
        passed: 0,
        failed: 0,
        total_time: Some(Elapsed::zero()),
        average_time: None,
    };
    assert_eq!(orchestrator.step(Outcome::Drained, &context), Directive::Report(empty));
    assert_eq!(orchestrator.step(Outcome::Reported, &context), Directive::Stop);
}

#[test]
fn a_batch_that_cannot_be_listed_is_over() {
    let context = ProcessingContext::new();
    let mut orchestrator = Orchestrator::new();
    assert_eq!(orchestrator.step(Outcome::ListingFailed, &context), Directive::Stop);
    assert_eq!(orchestrator.stage(), Stage::Finished);
    assert_eq!(orchestrator.step(Outcome::Listed, &context), Directive::Stop);
}

#[test]
fn an_outcome_that_does_not_belong_changes_nothing() {
    let mut context = ProcessingContext::new();
    let mut pool: ThreadPool<u8> = ThreadPool::new(1);
    let mut orchestrator = Orchestrator::new();
    for outcome in [Outcome::Dispatched, Outcome::Waited, Outcome::Drained, Outcome::Reported] {
        assert_eq!(orchestrator.step(outcome, &context), Directive::ListFiles);
        assert_eq!(orchestrator.stage(), Stage::Listing);
    }
    assert_eq!(orchestrator.step(Outcome::Listed, &context), Directive::Dispatch);
    for outcome in [Outcome::Listed, Outcome::ListingFailed, Outcome::Waited, Outcome::Drained] {
        assert_eq!(orchestrator.step(outcome, &context), Directive::Dispatch);
    }
    assert_eq!(context.dispatch(&mut pool, vec![1]), Wake::All);
    assert_eq!(
        orchestrator.step(Outcome::Dispatched, &context),
        Directive::ShowProgress { completed: 0, total: 1 }
    );
    // The pool is not shut down before the batch is complete.
    for outcome in [Outcome::Drained, Outcome::Reported, Outcome::Dispatched, Outcome::Listed] {
        assert_eq!(
            orchestrator.step(outcome, &context),
            Directive::ShowProgress { completed: 0, total: 1 }
        );
    }
    context.record(record_of("only", Vec::new(), 1));
    assert_eq!(orchestrator.step(Outcome::Waited, &context), Directive::Shutdown);
    assert_eq!(orchestrator.step(Outcome::Reported, &context), Directive::Shutdown);
    assert_eq!(orchestrator.step(Outcome::Waited, &context), Directive::Shutdown);
}
