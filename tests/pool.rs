use worker_pool::pool::{BuildError, Dispatch, JobQueue, PoolCore, SubmitError, WorkerState};

/// Lets every waiting worker take and finish jobs, round by round, until
/// no worker can move. Returns the tickets in order of completion.
fn drain(core: &mut PoolCore) -> Vec<u64> {
    let mut log = Vec::new();
    loop {
        let mut moved = false;
        for w in 0..core.size() {
            if core.worker_state(w) != WorkerState::Waiting {
                continue;
            }
            match core.next_job(w) {
                Dispatch::Run(t) => {
                    log.push(t);
                    core.finish_job(w);
                    moved = true;
                }
                Dispatch::Exit => moved = true,
                Dispatch::Wait => {}
            }
        }
        if !moved {
            return log;
        }
    }
}

#[test]
fn every_job_runs_once() {
    for n in 1..5usize {
        for m in 0..20u64 {
            let mut core = PoolCore::new(n);
            for i in 0..m {
                assert_eq!(core.submit(), Ok(i));
            }
            assert!(core.shutdown());
            let mut log = drain(&mut core);
            assert!(core.is_terminated());
            assert_eq!(core.completed(), m);
            log.sort();
            assert_eq!(log, (0..m).collect::<Vec<u64>>());
        }
    }
}

#[test]
fn jobs_submitted_before_workers_start_still_run() {
    let mut core = PoolCore::new(3);
    for _ in 0..10 {
        core.submit().unwrap();
    }
    assert_eq!(core.queued(), 10);
    core.shutdown();
    let log = drain(&mut core);
    assert_eq!(log.len(), 10);
    assert_eq!(core.queued(), 0);
}

#[test]
fn single_worker_keeps_submission_order() {
    let mut core = PoolCore::new(1);
    for _ in 0..25 {
        core.submit().unwrap();
    }
    core.shutdown();
    let log = drain(&mut core);
    assert_eq!(log, (0..25).collect::<Vec<u64>>());
}

#[test]
fn many_workers_run_a_permutation() {
    let mut core = PoolCore::new(4);
    let mut log = Vec::new();
    for _ in 0..8 {
        core.submit().unwrap();
    }
    // Three workers take a job each before any of them finishes.
    for w in 0..3 {
        assert_eq!(core.next_job(w), Dispatch::Run(w as u64));
    }
    for w in (0..3).rev() {
        if let WorkerState::Executing(t) = core.worker_state(w) {
            log.push(t);
        }
        core.finish_job(w);
    }
    core.shutdown();
    log.extend(drain(&mut core));
    assert_ne!(log, (0..8).collect::<Vec<u64>>());
    let mut sorted = log.clone();
    sorted.sort();
    assert_eq!(sorted, (0..8).collect::<Vec<u64>>());
}

#[test]
fn shutdown_waits_for_running_job() {
    let mut core = PoolCore::new(2);
    core.submit().unwrap();
    assert_eq!(core.next_job(0), Dispatch::Run(0));
    assert!(core.shutdown());
    // The other worker sees the queue closed and empty and leaves.
    assert_eq!(core.next_job(1), Dispatch::Exit);
    assert!(!core.is_terminated());
    assert_eq!(core.completed(), 0);
    core.finish_job(0);
    assert_eq!(core.completed(), 1);
    assert_eq!(core.next_job(0), Dispatch::Exit);
    assert!(core.is_terminated());
}

#[test]
fn idle_worker_waits_while_open() {
    let mut core = PoolCore::new(1);
    assert_eq!(core.next_job(0), Dispatch::Wait);
    assert_eq!(core.worker_state(0), WorkerState::Waiting);
    core.submit().unwrap();
    assert_eq!(core.next_job(0), Dispatch::Run(0));
}

#[test]
fn submit_after_shutdown_is_refused() {
    let mut core = PoolCore::new(2);
    core.submit().unwrap();
    assert!(core.shutdown());
    assert_eq!(core.submit(), Err(SubmitError::Closed));
    assert_eq!(core.submitted(), 1);
    assert_eq!(core.queued(), 1);
}

#[test]
fn shutdown_twice_closes_once() {
    let mut core = PoolCore::new(2);
    assert!(core.is_open());
    assert!(core.shutdown());
    assert!(!core.shutdown());
    assert!(!core.is_open());
}

#[test]
fn zero_size_pool_is_refused() {
    assert!(matches!(PoolCore::build(0), Err(BuildError::ZeroSize)));
    let core = PoolCore::build(3).unwrap();
    assert_eq!(core.size(), 3);
}

#[test]
fn four_workers_hundred_jobs() {
    let mut core = PoolCore::new(4);
    for _ in 0..100 {
        core.submit().unwrap();
    }
    core.shutdown();
    let log = drain(&mut core);
    assert_eq!(log.len(), 100);
    assert_eq!(core.completed(), 100);
    for w in 0..4 {
        assert_eq!(core.worker_state(w), WorkerState::Terminated);
    }
}

#[test]
fn queue_is_fifo_and_closes_once() {
    let mut q = JobQueue::new();
    assert_eq!(q.push(), Ok(0));
    assert_eq!(q.push(), Ok(1));
    assert_eq!(q.len(), 2);
    assert_eq!(q.pop(), Some(0));
    assert!(q.close());
    assert!(!q.close());
    assert_eq!(q.push(), Err(SubmitError::Closed));
    assert_eq!(q.pop(), Some(1));
    assert_eq!(q.pop(), None);
}
