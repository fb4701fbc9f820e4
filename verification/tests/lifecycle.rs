use threadpool::pool::{JobState, Phase, PoolError, ThreadPool};
use threadpool::worker::{Received, WorkerState};

#[test]
fn construction_full() {
    let pool = ThreadPool::new(4, &vec![true; 4]).unwrap();
    assert_eq!(pool.workers.len(), 4);
    for (i, w) in pool.workers.iter().enumerate() {
        assert_eq!(w.id, i);
        assert_eq!(w.state, WorkerState::Idle);
        assert!(w.handle);
    }
    assert_eq!(pool.phase, Phase::Accepting);
    assert_eq!(pool.jobs.len(), 0);
    assert_eq!(pool.started, 0);
}

#[test]
fn construction_shortfall_keeps_dense_identities() {
    let pool = ThreadPool::new(4, &vec![true, false, true, false]).unwrap();
    assert_eq!(pool.workers.len(), 2);
    assert_eq!(pool.workers[0].id, 0);
    assert_eq!(pool.workers[1].id, 1);
}

#[test]
fn construction_of_size_zero_yields_no_pool() {
    let r = ThreadPool::new(0, &Vec::new());
    assert_eq!(r.unwrap_err(), PoolError::ConstructionFailure);
}

#[test]
fn construction_fails_when_every_spawn_fails() {
    let r = ThreadPool::new(3, &vec![false; 3]);
    assert_eq!(r.unwrap_err(), PoolError::ConstructionFailure);
}

#[test]
fn submission_numbers_are_sequential() {
    let mut pool = ThreadPool::new(2, &vec![true; 2]).unwrap();
    assert_eq!(pool.execute(), Ok(0));
    assert_eq!(pool.execute(), Ok(1));
    assert_eq!(pool.execute(), Ok(2));
    assert_eq!(pool.jobs, vec![JobState::Pending; 3]);
    assert_eq!(pool.started, 0);
}

#[test]
fn dispatch_is_fifo() {
    let mut pool = ThreadPool::new(2, &vec![true; 2]).unwrap();
    pool.execute().unwrap();
    pool.execute().unwrap();
    assert_eq!(pool.take_next(1), Received::NewJob(0));
    assert_eq!(pool.take_next(0), Received::NewJob(1));
    assert_eq!(pool.workers[1].state, WorkerState::Busy(0));
    assert_eq!(pool.workers[0].state, WorkerState::Busy(1));
    assert_eq!(pool.jobs[0], JobState::Active(1));
    assert_eq!(pool.jobs[1], JobState::Active(0));
}

#[test]
fn receive_on_an_empty_live_queue_blocks() {
    let mut pool = ThreadPool::new(1, &vec![true]).unwrap();
    assert_eq!(pool.take_next(0), Received::WouldBlock);
    assert_eq!(pool.workers[0].state, WorkerState::Idle);
    assert_eq!(pool.phase, Phase::Accepting);
}

#[test]
fn receive_after_release_reports_disconnection() {
    let mut pool = ThreadPool::new(1, &vec![true]).unwrap();
    pool.begin_release();
    assert_eq!(pool.take_next(0), Received::Disconnected);
    assert_eq!(pool.workers[0].state, WorkerState::Exited);
}

#[test]
fn queued_jobs_are_still_handed_out_while_draining() {
    let mut pool = ThreadPool::new(1, &vec![true]).unwrap();
    pool.execute().unwrap();
    pool.begin_release();
    assert_eq!(pool.take_next(0), Received::NewJob(0));
    pool.finish(0, false);
    assert_eq!(pool.take_next(0), Received::Disconnected);
}

#[test]
fn submit_after_shutdown_is_refused() {
    let mut pool = ThreadPool::new(2, &vec![true; 2]).unwrap();
    pool.begin_release();
    assert_eq!(pool.execute(), Err(PoolError::SubmitAfterShutdown));
    assert_eq!(pool.jobs.len(), 0);
}

#[test]
fn join_reports_how_the_thread_ended() {
    let mut pool = ThreadPool::new(2, &vec![true; 2]).unwrap();
    pool.execute().unwrap();
    assert_eq!(pool.take_next(0), Received::NewJob(0));
    pool.finish(0, true);
    assert_eq!(pool.workers[0].state, WorkerState::Dead);
    pool.begin_release();
    assert_eq!(pool.take_next(1), Received::Disconnected);
    assert!(!pool.join_worker(0));
    assert!(pool.join_worker(1));
    assert!(!pool.workers[0].handle);
    assert!(!pool.workers[1].handle);
    pool.end_release();
    assert_eq!(pool.phase, Phase::Stopped);
}

#[test]
fn release_of_an_idle_pool_joins_every_worker() {
    let mut pool = ThreadPool::new(3, &vec![true; 3]).unwrap();
    let failures = pool.release();
    assert_eq!(failures, 0);
    assert_eq!(pool.phase, Phase::Stopped);
    for w in &pool.workers {
        assert_eq!(w.state, WorkerState::Exited);
        assert!(!w.handle);
    }
}

#[test]
fn release_finishes_jobs_that_are_in_flight() {
    let mut pool = ThreadPool::new(2, &vec![true; 2]).unwrap();
    pool.execute().unwrap();
    pool.execute().unwrap();
    assert_eq!(pool.take_next(0), Received::NewJob(0));
    let failures = pool.release();
    assert_eq!(failures, 0);
    assert_eq!(pool.jobs, vec![JobState::Completed; 2]);
}
