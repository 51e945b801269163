use webserver::pool::{Phase, Pool, PoolError, WorkerState};

fn busy_workers(p: &Pool) -> usize {
    let mut n = 0;
    for w in 0..p.worker_count() {
        if let WorkerState::Busy(_) = p.worker_state(w) {
            n += 1;
        }
    }
    n
}

#[test]
fn new_pool_starts_running_and_idle() {
    let p = Pool::new(3);
    assert_eq!(p.phase(), Phase::Running);
    assert_eq!(p.worker_count(), 3);
    assert_eq!(p.pending_count(), 0);
    for w in 0..3 {
        assert_eq!(p.worker_state(w), WorkerState::Idle);
    }
}

#[test]
fn execute_names_jobs_in_submission_order() {
    let mut p = Pool::new(1);
    assert_eq!(p.execute(), Ok(0));
    assert_eq!(p.execute(), Ok(1));
    assert_eq!(p.execute(), Ok(2));
    assert_eq!(p.pending_count(), 3);
}

#[test]
fn queue_hands_jobs_out_in_submission_order() {
    let mut p = Pool::new(2);
    p.execute().unwrap();
    p.execute().unwrap();
    assert_eq!(p.take_job(0), 0);
    assert_eq!(p.take_job(1), 1);
}

#[test]
fn execute_after_shutdown_is_rejected() {
    let mut p = Pool::new(2);
    assert_eq!(p.execute(), Ok(0));
    p.begin_shutdown();
    assert_eq!(p.phase(), Phase::Stopping);
    assert_eq!(p.execute(), Err(PoolError::Stopped));
    assert_eq!(p.execute(), Err(PoolError::Stopped));
    // The job submitted before shutdown is still there to be drained.
    assert_eq!(p.pending_count(), 1);
}

#[test]
fn failed_job_does_not_take_its_worker_down() {
    let mut p = Pool::new(1);
    assert_eq!(p.execute(), Ok(0));
    assert_eq!(p.execute(), Ok(1));
    let id = p.take_job(0);
    assert_eq!(id, 0);
    p.finish_job(0, false);
    // The worker survived the failure and is idle again.
    assert_eq!(p.worker_state(0), WorkerState::Idle);
    // A job submitted to the same pool still gets executed by that worker.
    let id2 = p.take_job(0);
    assert_eq!(id2, 1);
    p.finish_job(0, true);
    assert_eq!(p.completed_jobs().as_slice(), &[0, 1]);
    assert_eq!(p.failed_jobs().as_slice(), &[0]);
}

#[test]
fn never_more_busy_workers_than_the_pool_was_built_with() {
    let mut p = Pool::new(2);
    for _ in 0..5 {
        p.execute().unwrap();
    }
    p.take_job(0);
    p.take_job(1);
    assert_eq!(busy_workers(&p), 2);
    // Every worker is taken: nothing is left to run a third job on, however
    // many jobs are pending.
    assert_eq!(p.pending_count(), 3);
    for w in 0..p.worker_count() {
        assert_ne!(p.worker_state(w), WorkerState::Idle);
    }
}

#[test]
fn shutdown_drains_every_pending_job_then_stops() {
    let mut p = Pool::new(2);
    for _ in 0..3 {
        p.execute().unwrap();
    }
    p.begin_shutdown();
    // The queue is closed but not dropped: the workers drain it first.
    let mut executed = Vec::new();
    while p.pending_count() > 0 {
        let id = p.take_job(0);
        p.finish_job(0, true);
        executed.push(id);
    }
    assert_eq!(executed, vec![0, 1, 2]);
    p.stop_worker(0);
    p.stop_worker(1);
    p.finish_shutdown();
    assert_eq!(p.phase(), Phase::Stopped);
    // Each job submitted before shutdown was executed exactly once.
    let completed = p.completed_jobs();
    for id in 0..3u64 {
        assert_eq!(completed.iter().filter(|&&c| c == id).count(), 1);
    }
    assert_eq!(completed.len(), 3);
}

#[test]
fn more_jobs_than_workers_all_complete_in_batches() {
    let worker_count = 2usize;
    let jobs = 7u64;
    let mut p = Pool::new(worker_count);
    for _ in 0..jobs {
        p.execute().unwrap();
    }
    let mut batches = 0;
    while p.pending_count() > 0 {
        // Fill every worker that can take a job: never more than the pool
        // was built with run at once.
        let mut started = Vec::new();
        for w in 0..worker_count {
            if p.pending_count() > 0 && p.worker_state(w) == WorkerState::Idle {
                p.take_job(w);
                started.push(w);
            }
        }
        assert!(busy_workers(&p) <= worker_count);
        for w in started {
            p.finish_job(w, true);
        }
        batches += 1;
    }
    // ceil(7 / 2) batches, not 7 and not 1.
    assert_eq!(batches, 4);
    let completed = p.completed_jobs();
    assert_eq!(completed.len(), jobs as usize);
    for id in 0..jobs {
        assert_eq!(completed.iter().filter(|&&c| c == id).count(), 1);
    }
}
