use parallel_file_processor::analysis::{FileAnalysis, FileStats, ProcessingError};
use parallel_file_processor::analyzer::{Analyzer, Observation};
use parallel_file_processor::context::{summarize, ProcessingContext, Summary};
use parallel_file_processor::elapsed::Elapsed;
use parallel_file_processor::threadpool::{ThreadPool, Wake, WorkerAction};

fn record_of(name: &str, errors: Vec<ProcessingError>, nanos: u128) -> FileAnalysis {
    FileAnalysis {
        filename: name.to_string(),
        stats: FileStats::zero(),
        errors,
        processing_time: Elapsed::from_nanos(nanos),
    }
}

/// What a host's job does with one file whose content is `content`, or
/// that does not exist where `content` is `None`.
fn run_job(context: &mut ProcessingContext, name: &str, content: Option<&str>) {
    if !context.admits_work() {
        return;
    }
    let mut analyzer = Analyzer::new(name.to_string());
    analyzer.observe(Observation::Signal(context.is_cancelled()));
    match content {
        Some(text) => {
            analyzer.observe(Observation::Metadata(Ok(text.len() as u64)));
            analyzer.observe(Observation::Content(Ok(text.as_bytes().to_vec())));
            analyzer.observe(Observation::Signal(context.is_cancelled()));
        }
        None => {
            analyzer.observe(Observation::Metadata(Err("not found".to_string())));
        }
    }
    context.record(analyzer.finish(Elapsed::from_nanos(10)).unwrap());
}

#[test]
fn a_new_context_is_empty_and_complete() {
    let context = ProcessingContext::new();
    assert_eq!(context.progress(), (0, 0));
    assert!(context.is_complete());
    assert!(!context.is_cancelled());
    assert!(context.admits_work());
    assert!(context.results().is_empty());
    assert_eq!(
        context.summary(),
        Summary {
            total_files: 0,
            total_errors: 0,
            passed: 0,
            failed: 0,
            total_time: Some(Elapsed::zero()),
            average_time: None,
        }
    );
}

#[test]
fn a_batch_of_no_files_completes_at_once() {
    let mut context = ProcessingContext::new();
    let mut pool: ThreadPool<usize> = ThreadPool::new(2);
    assert_eq!(context.dispatch(&mut pool, Vec::new()), Wake::All);
    assert_eq!(context.progress(), (0, 0));
    assert!(context.is_complete());
    assert_eq!(pool.pending(), 0);
    assert_eq!(context.summary().total_files, 0);
    assert_eq!(context.summary().total_errors, 0);
}

#[test]
fn dispatch_queues_every_job_in_order() {
    let mut context = ProcessingContext::new();
    let mut pool: ThreadPool<&str> = ThreadPool::new(1);
    assert_eq!(pool.execute("earlier"), Wake::One);
    assert_eq!(context.dispatch(&mut pool, vec!["a", "b", "c"]), Wake::All);
    assert_eq!(context.progress(), (0, 3));
    assert!(!context.is_complete());
    assert_eq!(pool.pending(), 4);
    assert!(matches!(pool.next_job(0), WorkerAction::Run("c")));
    assert!(matches!(pool.next_job(0), WorkerAction::Run("b")));
    assert!(matches!(pool.next_job(0), WorkerAction::Run("a")));
    assert!(matches!(pool.next_job(0), WorkerAction::Run("earlier")));
    assert!(matches!(pool.next_job(0), WorkerAction::Wait));
}

#[test]
fn every_finished_job_is_one_record_and_one_count() {
    for files in 0..6usize {
        let mut context = ProcessingContext::new();
        let mut pool: ThreadPool<usize> = ThreadPool::new(2);
        assert_eq!(context.dispatch(&mut pool, (0..files).collect()), Wake::All);
        let mut finished = 0;
        while let WorkerAction::Run(job) = pool.next_job(finished % 2) {
            assert!(!context.is_complete());
            context.record(record_of(&format!("file{}", job), Vec::new(), 1));
            finished += 1;
            assert_eq!(context.progress(), (finished, files));
            assert_eq!(context.results().len(), finished);
        }
        assert!(context.is_complete());
        assert_eq!(context.results().len(), files);
        assert_eq!(context.progress(), (files, files));
    }
}

#[test]
fn records_stay_in_the_order_in_which_they_came() {
    let mut context = ProcessingContext::new();
    context.record(record_of("one", Vec::new(), 1));
    context.record(record_of("two", vec![ProcessingError::Cancelled], 2));
    context.record(record_of("three", Vec::new(), 3));
    let names: Vec<&str> = context.results().iter().map(|a| a.filename.as_str()).collect();
    assert_eq!(names, vec!["one", "two", "three"]);
    assert_eq!(context.progress(), (3, 0));
    assert!(!context.is_complete());
}

#[test]
fn the_signal_stays_set() {
    let mut context = ProcessingContext::new();
    let mut pool: ThreadPool<u8> = ThreadPool::new(1);
    assert!(context.admits_work());
    context.cancel();
    assert!(context.is_cancelled());
    assert!(!context.admits_work());
    context.record(record_of("x", vec![ProcessingError::Cancelled], 0));
    assert_eq!(context.dispatch(&mut pool, vec![1, 2]), Wake::All);
    context.cancel();
    assert!(context.is_cancelled());
    assert!(!context.admits_work());
    assert_eq!(context.progress(), (1, 2));
}

#[test]
fn a_job_that_finds_the_signal_set_records_nothing() {
    let mut context = ProcessingContext::new();
    let mut pool: ThreadPool<u8> = ThreadPool::new(1);
    assert_eq!(context.dispatch(&mut pool, vec![0, 1, 2]), Wake::All);
    run_job(&mut context, "first.txt", Some("one two\n"));
    context.cancel();
    run_job(&mut context, "second.txt", Some("three\n"));
    run_job(&mut context, "third.txt", None);
    assert_eq!(context.progress(), (1, 3));
    assert_eq!(context.results().len(), 1);
    assert!(!context.is_complete());
    assert_eq!(context.results()[0].filename, "first.txt");
    assert_eq!(context.results()[0].stats.word_count, 2);
}

#[test]
fn failures_of_single_files_do_not_stop_the_batch() {
    let mut context = ProcessingContext::new();
    let mut pool: ThreadPool<u8> = ThreadPool::new(2);
    assert_eq!(context.dispatch(&mut pool, vec![0, 1, 2]), Wake::All);
    run_job(&mut context, "success.txt", Some("This is a test file.\nTwo lines, five words."));
    run_job(&mut context, "non_existent_file.txt", None);
    run_job(&mut context, "other.txt", Some("x"));
    assert!(context.is_complete());
    assert_eq!(context.results().len(), 3, "Not all tasks were processed.");
    let summary = context.summary();
    assert_eq!(summary.total_files, 3);
    assert_eq!(summary.total_errors, 1);
    assert_eq!(summary.passed, 2);
    assert_eq!(summary.failed, 1);
    assert_eq!(summary.total_time, Some(Elapsed::from_nanos(30)));
    assert_eq!(summary.average_time, Some(Elapsed::from_nanos(10)));
    let failed = &context.results()[1];
    assert_eq!(failed.filename, "non_existent_file.txt");
    assert!(matches!(failed.errors[0], ProcessingError::IoError(_)));
}

#[test]
fn the_summary_adds_up_errors_and_times() {
    let results = vec![
        record_of("a", Vec::new(), 100),
        record_of(
            "b",
            vec![ProcessingError::IoError("x".to_string()), ProcessingError::Cancelled],
            250,
        ),
        record_of("c", vec![ProcessingError::EncodingError("y".to_string())], 1),
        record_of("d", Vec::new(), 0),
    ];
    assert_eq!(
        summarize(&results),
        Summary {
            total_files: 4,
            total_errors: 3,
            passed: 2,
            failed: 2,
            total_time: Some(Elapsed::from_nanos(351)),
            average_time: Some(Elapsed::from_nanos(87)),
        }
    );
}

#[test]
fn a_total_time_beyond_the_range_is_not_given() {
    let results = vec![
        record_of("a", Vec::new(), u128::MAX - 5),
        record_of("b", Vec::new(), 5),
    ];
    let fits = summarize(&results);
    assert_eq!(fits.total_time, Some(Elapsed::from_nanos(u128::MAX)));
    assert_eq!(fits.average_time, Some(Elapsed::from_nanos(u128::MAX / 2)));

    let results = vec![
        record_of("a", Vec::new(), u128::MAX - 5),
        record_of("b", Vec::new(), 6),
        record_of("c", vec![ProcessingError::Cancelled], 0),
    ];
    let beyond = summarize(&results);
    assert_eq!(beyond.total_time, None);
    assert_eq!(beyond.average_time, None);
    assert_eq!(beyond.total_files, 3);
    assert_eq!(beyond.total_errors, 1);
    assert_eq!(beyond.passed, 2);
    assert_eq!(beyond.failed, 1);
}
