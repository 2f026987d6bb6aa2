use parallel_file_processor::threadpool::{ThreadPool, Wake, WorkerAction, WorkerStatus};
use std::sync::atomic::{AtomicUsize, Ordering};
use std::sync::Arc;

type Job = Box<dyn FnOnce() + Send + 'static>;

/// Lets the workers of `pool` take turns, each running the job it is
/// handed, until a full round passes in which none is handed a job.
fn let_workers_run(pool: &mut ThreadPool<Job>) {
    loop {
        let mut ran = false;
        for worker in 0..pool.size() {
            if let WorkerAction::Run(job) = pool.next_job(worker) {
                job();
                ran = true;
            }
        }
        if !ran {
            break;
        }
    }
}

/// Test that a thread pool can execute a simple task and increment a shared counter.
#[test]
fn test_simple_execution() {
    let mut pool: ThreadPool<Job> = ThreadPool::new(4);
    let counter = Arc::new(AtomicUsize::new(0));

    for _ in 0..10 {
        let counter_clone = Arc::clone(&counter);
        let _ = pool.execute(Box::new(move || {
            counter_clone.fetch_add(1, Ordering::SeqCst);
        }));
    }

    let_workers_run(&mut pool);

    assert_eq!(counter.load(Ordering::SeqCst), 10, "Not all 10 jobs were executed.");
}

/// Test that the thread pool shuts down gracefully.
#[test]
fn test_graceful_shutdown() {
    let size = 4;
    let mut pool: ThreadPool<Job> = ThreadPool::new(size);
    let finished_counter = Arc::new(AtomicUsize::new(0));

    for _ in 0..size * 2 {
        let counter_clone = Arc::clone(&finished_counter);
        let _ = pool.execute(Box::new(move || {
            counter_clone.fetch_add(1, Ordering::SeqCst);
        }));
    }

    // Shutdown is over when every worker has exited.
    let _ = pool.shutdown();
    while !pool.all_exited() {
        let_workers_run(&mut pool);
    }

    // Assert that all submitted tasks were completed before shutdown.
    assert_eq!(
        finished_counter.load(Ordering::SeqCst),
        size * 2,
        "ThreadPool did not wait for all jobs to complete during shutdown."
    );
    assert!(pool.is_terminating());
    assert_eq!(pool.pending(), 0);
}

#[test]
fn a_new_pool_is_idle_and_empty() {
    let pool: ThreadPool<u32> = ThreadPool::new(3);
    assert_eq!(pool.size(), 3);
    assert_eq!(pool.pending(), 0);
    assert!(!pool.is_terminating());
    assert!(!pool.all_exited());
    for worker in 0..3 {
        assert_eq!(pool.status(worker), Some(WorkerStatus::Idle));
    }
    assert_eq!(pool.status(3), None);
}

#[test]
fn a_worker_waits_while_nothing_is_queued() {
    let mut pool: ThreadPool<u32> = ThreadPool::new(2);
    assert!(matches!(pool.next_job(0), WorkerAction::Wait));
    assert!(matches!(pool.next_job(0), WorkerAction::Wait));
    assert_eq!(pool.status(0), Some(WorkerStatus::Idle));
    assert_eq!(pool.status(1), Some(WorkerStatus::Idle));
}

#[test]
fn a_worker_gets_the_newest_job() {
    let mut pool: ThreadPool<u32> = ThreadPool::new(2);
    assert_eq!(pool.execute(10), Wake::One);
    assert_eq!(pool.execute(20), Wake::One);
    assert_eq!(pool.execute(30), Wake::One);
    assert_eq!(pool.pending(), 3);
    assert!(matches!(pool.next_job(1), WorkerAction::Run(30)));
    assert_eq!(pool.status(1), Some(WorkerStatus::Busy));
    assert_eq!(pool.status(0), Some(WorkerStatus::Idle));
    assert_eq!(pool.pending(), 2);
    assert!(matches!(pool.next_job(0), WorkerAction::Run(20)));
    assert!(matches!(pool.next_job(1), WorkerAction::Run(10)));
    assert_eq!(pool.pending(), 0);
    assert!(matches!(pool.next_job(1), WorkerAction::Wait));
    assert_eq!(pool.status(1), Some(WorkerStatus::Idle));
    assert_eq!(pool.status(0), Some(WorkerStatus::Busy));
}

#[test]
fn shutdown_lets_queued_jobs_run_first() {
    let mut pool: ThreadPool<&str> = ThreadPool::new(1);
    assert_eq!(pool.execute("first"), Wake::One);
    assert_eq!(pool.execute("second"), Wake::One);
    assert_eq!(pool.shutdown(), Wake::All);
    assert!(pool.is_terminating());
    assert!(matches!(pool.next_job(0), WorkerAction::Run("second")));
    assert!(!pool.all_exited());
    assert!(matches!(pool.next_job(0), WorkerAction::Run("first")));
    assert!(!pool.all_exited());
    assert!(matches!(pool.next_job(0), WorkerAction::Exit));
    assert_eq!(pool.status(0), Some(WorkerStatus::Exited));
    assert!(pool.all_exited());
}

#[test]
fn twice_as_many_jobs_as_workers_all_run_before_the_last_exit() {
    let size = 4;
    let mut pool: ThreadPool<usize> = ThreadPool::new(size);
    for job in 0..2 * size {
        assert_eq!(pool.execute(job), Wake::One);
    }
    assert_eq!(pool.shutdown(), Wake::All);
    let mut done = vec![0usize; 2 * size];
    let mut polls = 0;
    while !pool.all_exited() {
        let worker = polls % size;
        match pool.next_job(worker) {
            WorkerAction::Run(job) => done[job] += 1,
            WorkerAction::Exit => {}
            WorkerAction::Wait => panic!("a worker was told to wait after shutdown"),
        }
        polls += 1;
        assert!(polls <= 3 * size, "the pool does not drain");
    }
    assert_eq!(done, vec![1usize; 2 * size]);
    assert_eq!(pool.pending(), 0);
    assert_eq!(polls, 3 * size);
}

#[test]
fn shutdown_twice_is_shutdown_once() {
    let mut pool: ThreadPool<u8> = ThreadPool::new(2);
    assert_eq!(pool.execute(1), Wake::One);
    assert_eq!(pool.shutdown(), Wake::All);
    assert_eq!(pool.shutdown(), Wake::All);
    assert!(pool.is_terminating());
    assert_eq!(pool.pending(), 1);
    assert_eq!(pool.size(), 2);
    assert!(matches!(pool.next_job(0), WorkerAction::Run(1)));
    assert!(matches!(pool.next_job(1), WorkerAction::Exit));
    assert!(matches!(pool.next_job(0), WorkerAction::Exit));
    assert!(pool.all_exited());
}

#[test]
fn an_exited_or_unknown_worker_is_told_to_exit() {
    let mut pool: ThreadPool<u8> = ThreadPool::new(1);
    assert_eq!(pool.shutdown(), Wake::All);
    assert!(matches!(pool.next_job(0), WorkerAction::Exit));
    assert_eq!(pool.execute(9), Wake::One);
    assert!(matches!(pool.next_job(0), WorkerAction::Exit));
    assert!(matches!(pool.next_job(7), WorkerAction::Exit));
    assert_eq!(pool.pending(), 1);
    assert_eq!(pool.status(0), Some(WorkerStatus::Exited));
    assert_eq!(pool.size(), 1);
}

#[test]
fn jobs_queued_in_one_go_keep_their_order() {
    let mut pool: ThreadPool<u32> = ThreadPool::new(2);
    assert_eq!(pool.execute(1), Wake::One);
    assert_eq!(pool.execute_all(vec![2, 3, 4]), Wake::All);
    assert_eq!(pool.execute_all(Vec::new()), Wake::All);
    assert_eq!(pool.pending(), 4);
    assert!(matches!(pool.next_job(0), WorkerAction::Run(4)));
    assert!(matches!(pool.next_job(1), WorkerAction::Run(3)));
    assert!(matches!(pool.next_job(0), WorkerAction::Run(2)));
    assert!(matches!(pool.next_job(1), WorkerAction::Run(1)));
    assert!(matches!(pool.next_job(0), WorkerAction::Wait));
    assert!(!pool.is_terminating());
}
