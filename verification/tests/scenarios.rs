use threadpool::pool::{JobState, Phase, PoolError, ThreadPool};
use threadpool::worker::{Received, WorkerState};

#[test]
fn counter_every_job_runs_exactly_once() {
    let mut pool = ThreadPool::new(4, &vec![true; 4]).unwrap();
    for i in 0..1000 {
        assert_eq!(pool.execute(), Ok(i));
    }
    let failures = pool.release();
    assert_eq!(failures, 0);
    let counter = pool
        .jobs
        .iter()
        .filter(|j| **j == JobState::Completed)
        .count();
    assert_eq!(counter, 1000);
    assert_eq!(pool.jobs.len(), 1000);
}

#[test]
fn parallelism_floor_four_jobs_in_flight_at_once() {
    let mut pool = ThreadPool::new(4, &vec![true; 4]).unwrap();
    for _ in 0..4 {
        pool.execute().unwrap();
    }
    for w in 0..4 {
        assert_eq!(pool.take_next(w), Received::NewJob(w));
    }
    // All four jobs are in flight simultaneously: taking a job releases the
    // consumer lock before the job runs, so no dequeue had to wait for
    // another worker's job to finish.
    for w in 0..4 {
        assert_eq!(pool.workers[w].state, WorkerState::Busy(w));
    }
    for w in 0..4 {
        pool.finish(w, false);
    }
    let failures = pool.release();
    assert_eq!(failures, 0);
}

#[test]
fn release_drains_the_queue_completely() {
    let mut pool = ThreadPool::new(2, &vec![true; 2]).unwrap();
    for _ in 0..10 {
        pool.execute().unwrap();
    }
    let failures = pool.release();
    assert_eq!(failures, 0);
    let log: Vec<usize> = (0..pool.jobs.len())
        .filter(|&j| pool.jobs[j] == JobState::Completed)
        .collect();
    assert_eq!(log, (0..10).collect::<Vec<usize>>());
}

#[test]
fn size_guard_refuses_an_empty_pool() {
    assert!(ThreadPool::new(0, &Vec::new()).is_err());
}

#[test]
fn post_shutdown_submit_fails() {
    let mut pool = ThreadPool::new(2, &vec![true; 2]).unwrap();
    pool.release();
    assert_eq!(pool.execute(), Err(PoolError::SubmitAfterShutdown));
}

#[test]
fn panic_isolation_survivor_drains_the_rest() {
    let mut pool = ThreadPool::new(2, &vec![true; 2]).unwrap();
    pool.execute().unwrap();
    assert_eq!(pool.take_next(0), Received::NewJob(0));
    // Job 0 panics: worker 0 dies with it, the other worker is unaffected.
    pool.finish(0, true);
    assert_eq!(pool.workers[0].state, WorkerState::Dead);
    for i in 0..100 {
        assert_eq!(pool.execute(), Ok(1 + i));
    }
    let failures = pool.release();
    assert_eq!(failures, 1);
    assert_eq!(pool.jobs[0], JobState::Panicked);
    let counter = pool
        .jobs
        .iter()
        .filter(|j| **j == JobState::Completed)
        .count();
    assert_eq!(counter, 100);
}

#[test]
fn release_completes_even_when_every_worker_died() {
    let mut pool = ThreadPool::new(2, &vec![true; 2]).unwrap();
    for _ in 0..2 {
        pool.execute().unwrap();
    }
    for w in 0..2 {
        assert_eq!(pool.take_next(w), Received::NewJob(w));
        pool.finish(w, true);
        assert_eq!(pool.workers[w].state, WorkerState::Dead);
    }
    // More work arrives while no worker is left to run it.
    for _ in 0..3 {
        pool.execute().unwrap();
    }
    // The shutdown handshake still goes through: the producer endpoint is
    // dropped, the queue is destroyed with the jobs still in it, and both
    // joins report abnormal termination.
    pool.begin_release();
    pool.drop_pending();
    assert!(!pool.join_worker(0));
    assert!(!pool.join_worker(1));
    pool.end_release();
    assert_eq!(pool.phase, Phase::Stopped);
    assert_eq!(pool.jobs[0], JobState::Panicked);
    assert_eq!(pool.jobs[1], JobState::Panicked);
    for j in 2..5 {
        assert_eq!(pool.jobs[j], JobState::Dropped);
    }
}
