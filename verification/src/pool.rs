//! The worker pool: a fixed set of workers draining one shared job queue.
//!
//! The pool here is the control state of the real thing: jobs are named by
//! the order of their submission, workers by their ordinal. The threads that
//! carry the work live outside the library; they drive this state machine
//! one transition per observable step (a job submitted, a job pulled from
//! the queue, a job finished, a worker told to stop) and it answers with
//! what must happen next. Every transition keeps the pool well-formed, and
//! the well-formedness is strong enough to show that each submitted job is
//! executed exactly once by the time the pool has stopped.

use vstd::prelude::*;

verus! {

/// The life of the pool: accepting work, draining the queue, all workers joined.
#[derive(Clone, Copy, Debug, PartialEq, Eq, Structural)]
pub enum Phase {
    /// Accepts `execute` calls.
    Running,
    /// The queue is closed: pending jobs still drain, new ones are rejected.
    Stopping,
    /// Terminal: the queue is empty and every worker has exited.
    Stopped,
}

/// What one worker is doing.
#[derive(Clone, Copy, Debug, PartialEq, Eq, Structural)]
pub enum WorkerState {
    /// Waiting on the queue.
    Idle,
    /// Executing the named job.
    Busy(u64),
    /// Told to stop; the worker has exited its loop.
    Done,
}

/// Why a submission was rejected.
#[derive(Clone, Copy, Debug, PartialEq, Eq, Structural)]
pub enum PoolError {
    /// The pool has begun shutting down: the "pool stopped" condition.
    Stopped,
}

/// The mathematical state of a pool.
#[verifier::ext_equal]
pub ghost struct PoolModel {
    /// Where the pool stands in its life.
    pub phase: Phase,
    /// One entry per worker, fixed at construction.
    pub workers: Seq<WorkerState>,
    /// Jobs submitted and not yet taken, oldest first.
    pub pending: Seq<u64>,
    /// The name the next submission will get; all smaller names are taken.
    pub next_job: u64,
    /// Jobs that have been executed, in the order they finished.
    pub completed: Seq<u64>,
    /// The completed jobs whose execution reported a failure.
    pub failed: Seq<u64>,
}

/// No value occurs twice.
pub open spec fn distinct(s: Seq<u64>) -> bool {
    forall|i: int, j: int| 0 <= i < j < s.len() ==> s[i] != s[j]
}

impl PoolModel {
    /// How many workers the pool was built with.
    pub open spec fn worker_count(self) -> nat {
        self.workers.len()
    }

    /// `id` has been handed to `execute` at some point.
    pub open spec fn submitted(self, id: u64) -> bool {
        id < self.next_job
    }

    /// `id` sits in the queue, not yet taken by a worker.
    pub open spec fn queued(self, id: u64) -> bool {
        self.pending.contains(id)
    }

    /// Some worker is executing `id` right now.
    pub open spec fn busy_with(self, id: u64) -> bool {
        exists|w: int| 0 <= w < self.workers.len() && self.workers[w] == WorkerState::Busy(id)
    }

    /// `id` has been executed.
    pub open spec fn finished(self, id: u64) -> bool {
        self.completed.contains(id)
    }

    /// Each job is in exactly one place: every submitted job is queued,
    /// being executed, or completed, and those three exclude one another;
    /// nothing unsubmitted is anywhere.
    pub open spec fn accounted(self, id: u64) -> bool {
        &&& self.queued(id) ==> self.submitted(id) && !self.busy_with(id) && !self.finished(id)
        &&& self.busy_with(id) ==> self.submitted(id) && !self.finished(id)
        &&& self.finished(id) ==> self.submitted(id)
        &&& self.submitted(id) ==> self.queued(id) || self.busy_with(id) || self.finished(id)
    }

    /// No two workers hold the same job.
    pub open spec fn busy_distinct(self) -> bool {
        forall|w1: int, w2: int|
            0 <= w1 < self.workers.len() && 0 <= w2 < self.workers.len() && w1 != w2
                && #[trigger] self.workers[w1] is Busy && #[trigger] self.workers[w2] is Busy
                ==> self.workers[w1]->0 != self.workers[w2]->0
    }

    /// Every worker has exited.
    pub open spec fn all_done(self) -> bool {
        forall|w: int| 0 <= w < self.workers.len() ==> #[trigger] self.workers[w] is Done
    }

    /// No worker has exited.
    pub open spec fn none_done(self) -> bool {
        forall|w: int| 0 <= w < self.workers.len() ==> !(#[trigger] self.workers[w] is Done)
    }

    /// The pool's invariant, established by construction and kept by every
    /// transition.
    pub open spec fn wf(self) -> bool {
        &&& self.workers.len() >= 1
        &&& distinct(self.pending)
        &&& distinct(self.completed)
        &&& distinct(self.failed)
        &&& self.busy_distinct()
        &&& forall|id: u64| #[trigger] self.accounted(id)
        &&& forall|id: u64| #[trigger] self.failed.contains(id) ==> self.finished(id)
        &&& (self.phase is Stopped ==> self.pending.len() == 0 && self.all_done())
        &&& (self.phase is Running ==> self.none_done())
    }

    /// Submission: while running, the job gets the next name and joins the
    /// queue; otherwise nothing changes.
    pub open spec fn execute_tr(self) -> PoolModel {
        if self.phase is Running {
            PoolModel {
                pending: self.pending.push(self.next_job),
                next_job: (self.next_job + 1) as u64,
                ..self
            }
        } else {
            self
        }
    }

    /// What submission answers: the job's name, or the "pool stopped" rejection.
    pub open spec fn execute_result(self) -> Result<u64, PoolError> {
        if self.phase is Running {
            Ok(self.next_job)
        } else {
            Err(PoolError::Stopped)
        }
    }

    /// Closing the queue: pending jobs stay to be drained.
    pub open spec fn begin_shutdown_tr(self) -> PoolModel {
        PoolModel { phase: Phase::Stopping, ..self }
    }

    /// Worker `w` pulls the oldest pending job.
    pub open spec fn take_tr(self, w: int) -> PoolModel {
        PoolModel {
            pending: self.pending.drop_first(),
            workers: self.workers.update(w, WorkerState::Busy(self.pending[0])),
            ..self
        }
    }

    /// Worker `w` finished its job, well or badly: either way it is idle
    /// again; a failure is recorded and nothing else.
    pub open spec fn finish_tr(self, w: int, succeeded: bool) -> PoolModel {
        PoolModel {
            workers: self.workers.update(w, WorkerState::Idle),
            completed: self.completed.push(self.workers[w]->0),
            failed: if succeeded {
                self.failed
            } else {
                self.failed.push(self.workers[w]->0)
            },
            ..self
        }
    }

    /// Worker `w`, idle at a closed and drained queue, is told to stop.
    pub open spec fn stop_tr(self, w: int) -> PoolModel {
        PoolModel { workers: self.workers.update(w, WorkerState::Done), ..self }
    }

    /// Every worker has been joined: the pool is in its terminal state.
    pub open spec fn finish_shutdown_tr(self) -> PoolModel {
        PoolModel { phase: Phase::Stopped, ..self }
    }
}

/// The pool as a value: the executable mirror of [`PoolModel`].
pub struct Pool {
    phase: Phase,
    workers: Vec<WorkerState>,
    pending: Vec<u64>,
    next_job: u64,
    completed: Vec<u64>,
    failed: Vec<u64>,
}

impl View for Pool {
    type V = PoolModel;

    closed spec fn view(&self) -> PoolModel {
        PoolModel {
            phase: self.phase,
            workers: self.workers@,
            pending: self.pending@,
            next_job: self.next_job,
            completed: self.completed@,
            failed: self.failed@,
        }
    }
}

impl Pool {
    /// Builds a pool of `worker_count` workers, all idle, with an empty queue.
    ///
    /// A count of zero is a configuration error and is refused up front.
    pub fn new(worker_count: usize) -> (p: Pool)
        requires
            worker_count >= 1,
        ensures
            p@.wf(),
            p@.phase is Running,
            p@.worker_count() == worker_count,
            p@.next_job == 0,
            p@.pending.len() == 0,
            p@.completed.len() == 0,
            p@.failed.len() == 0,
            forall|w: int| 0 <= w < worker_count ==> p@.workers[w] is Idle,
    {
        let mut workers: Vec<WorkerState> = Vec::new();
        let mut i: usize = 0;
        while i < worker_count
            invariant
                i <= worker_count,
                workers@.len() == i,
                forall|w: int| 0 <= w < i ==> workers@[w] is Idle,
            decreases worker_count - i,
        {
            workers.push(WorkerState::Idle);
            i = i + 1;
        }
        let p = Pool {
            phase: Phase::Running,
            workers,
            pending: Vec::new(),
            next_job: 0,
            completed: Vec::new(),
            failed: Vec::new(),
        };
        proof {
            assert forall|id: u64| p@.accounted(id) by {
                assert(!p@.queued(id));
                assert(!p@.finished(id));
                assert(!p@.busy_with(id));
            }
        }
        p
    }

    /// Submits a job. While the pool runs, the job joins the queue under a
    /// fresh name and exactly that name is returned; once shutdown has
    /// begun, the call changes nothing and is rejected with the "pool
    /// stopped" condition.
    pub fn execute(&mut self) -> (r: Result<u64, PoolError>)
        requires
            old(self)@.wf(),
            old(self)@.next_job < u64::MAX,
        ensures
            final(self)@.wf(),
            final(self)@ == old(self)@.execute_tr(),
            r == old(self)@.execute_result(),
            !(old(self)@.phase is Running) ==> r == Err::<u64, PoolError>(PoolError::Stopped)
                && final(self)@ == old(self)@,
    {
        if self.phase == Phase::Running {
            let id = self.next_job;
            self.next_job = self.next_job + 1;
            self.pending.push(id);
            proof {
                let m0 = old(self)@;
                let m1 = self@;
                assert(m1 =~= m0.execute_tr());
                assert forall|j: u64| m1.accounted(j) by {
                    assert(m0.accounted(j));
                    assert forall|x: u64| m1.pending.contains(x) implies m0.pending.contains(x)
                        || x == id by {
                        let k = choose|k: int|
                            0 <= k < m1.pending.len() && m1.pending[k] == x;
                        if k < m0.pending.len() {
                            assert(m0.pending[k] == x);
                        }
                    }
                    if m0.pending.contains(j) {
                        assert(m1.pending[choose|k: int|
                            0 <= k < m0.pending.len() && m0.pending[k] == j] == j);
                    }
                    if j == id {
                        assert(m1.pending[m0.pending.len() as int] == id);
                    }
                }
                assert(distinct(m1.pending)) by {
                    assert forall|i: int, j: int|
                        0 <= i < j < m1.pending.len() implies m1.pending[i] != m1.pending[j] by {
                        if j == m0.pending.len() {
                            assert(m0.pending.contains(m0.pending[i]));
                            assert(m0.accounted(m0.pending[i]));
                        }
                    }
                }
            }
            Ok(id)
        } else {
            Err(PoolError::Stopped)
        }
    }

    /// Closes the queue. Jobs already submitted stay pending and will still
    /// be drained; from here on, `execute` rejects.
    pub fn begin_shutdown(&mut self)
        requires
            old(self)@.wf(),
            old(self)@.phase is Running,
        ensures
            final(self)@.wf(),
            final(self)@ == old(self)@.begin_shutdown_tr(),
    {
        self.phase = Phase::Stopping;
        proof {
            let m0 = old(self)@;
            let m1 = self@;
            assert(m1 =~= m0.begin_shutdown_tr());
            assert forall|j: u64| m1.accounted(j) by {
                assert(m0.accounted(j));
            }
        }
    }

    /// Worker `w` pulls the oldest pending job from the queue and turns busy
    /// with it.
    pub fn take_job(&mut self, w: usize) -> (id: u64)
        requires
            old(self)@.wf(),
            w < old(self)@.worker_count(),
            old(self)@.workers[w as int] is Idle,
            old(self)@.pending.len() > 0,
        ensures
            final(self)@.wf(),
            final(self)@ == old(self)@.take_tr(w as int),
            id == old(self)@.pending[0],
            final(self)@.workers[w as int] == WorkerState::Busy(id),
    {
        let id = self.pending.remove(0);
        self.workers.set(w, WorkerState::Busy(id));
        proof {
            let m0 = old(self)@;
            let m1 = self@;
            let wi = w as int;
            assert(m0.pending.remove(0) =~= m0.pending.drop_first());
            assert(m1 =~= m0.take_tr(wi));
            assert(m0.pending.contains(id));
            assert(m0.accounted(id));
            assert(!m0.busy_with(id));
            assert(distinct(m1.pending)) by {
                assert forall|i: int, j: int|
                    0 <= i < j < m1.pending.len() implies m1.pending[i] != m1.pending[j] by {
                    assert(m1.pending[i] == m0.pending[i + 1]);
                    assert(m1.pending[j] == m0.pending[j + 1]);
                }
            }
            assert(m1.busy_distinct()) by {
                assert forall|w1: int, w2: int|
                    0 <= w1 < m1.workers.len() && 0 <= w2 < m1.workers.len() && w1 != w2
                        && m1.workers[w1] is Busy && m1.workers[w2] is Busy implies m1.workers[w1]->0
                    != m1.workers[w2]->0 by {
                    if w1 == wi {
                        assert(m0.workers[w2] == m1.workers[w2]);
                        if m0.workers[w2]->0 == id {
                            assert(m0.busy_with(id));
                        }
                    } else if w2 == wi {
                        assert(m0.workers[w1] == m1.workers[w1]);
                        if m0.workers[w1]->0 == id {
                            assert(m0.busy_with(id));
                        }
                    } else {
                        assert(m0.workers[w1] == m1.workers[w1]);
                        assert(m0.workers[w2] == m1.workers[w2]);
                    }
                }
            }
            assert forall|j: u64| m1.accounted(j) by {
                assert(m0.accounted(j));
                assert(m1.busy_with(j) <==> (j == id || m0.busy_with(j))) by {
                    assert(m1.workers[wi] == WorkerState::Busy(id));
                    if m0.busy_with(j) {
                        let wx = choose|wx: int|
                            0 <= wx < m0.workers.len() && m0.workers[wx] == WorkerState::Busy(j);
                        assert(wx != wi);
                        assert(m1.workers[wx] == WorkerState::Busy(j));
                    }
                    if m1.busy_with(j) && j != id {
                        let wx = choose|wx: int|
                            0 <= wx < m1.workers.len() && m1.workers[wx] == WorkerState::Busy(j);
                        assert(wx != wi);
                        assert(m0.workers[wx] == WorkerState::Busy(j));
                    }
                }
                assert(m1.queued(j) ==> m0.queued(j)) by {
                    if m1.queued(j) {
                        let k = choose|k: int| 0 <= k < m1.pending.len() && m1.pending[k] == j;
                        assert(m0.pending[k + 1] == j);
                    }
                }
                if j == id {
                    assert(!m1.queued(id)) by {
                        if m1.queued(id) {
                            let k = choose|k: int|
                                0 <= k < m1.pending.len() && m1.pending[k] == id;
                            assert(m0.pending[k + 1] == id);
                            assert(m0.pending[0] == id);
                        }
                    }
                } else {
                    if m0.queued(j) {
                        let k = choose|k: int| 0 <= k < m0.pending.len() && m0.pending[k] == j;
                        assert(k != 0);
                        assert(m1.pending[k - 1] == j);
                        assert(m1.queued(j));
                    }
                }
            }
            assert(m1.phase is Running ==> m1.none_done()) by {
                if m1.phase is Running {
                    assert forall|wx: int|
                        0 <= wx < m1.workers.len() implies !(m1.workers[wx] is Done) by {
                        if wx != wi {
                            assert(m1.workers[wx] == m0.workers[wx]);
                        }
                    }
                }
            }
        }
        id
    }

    /// Worker `w` reports that its job has run to the end, or that it
    /// failed. Either way the job counts as executed and the worker is idle
    /// again, ready for the next job; a failure is recorded and costs
    /// nothing else.
    pub fn finish_job(&mut self, w: usize, succeeded: bool)
        requires
            old(self)@.wf(),
            w < old(self)@.worker_count(),
            old(self)@.workers[w as int] is Busy,
        ensures
            final(self)@.wf(),
            final(self)@ == old(self)@.finish_tr(w as int, succeeded),
            final(self)@.workers[w as int] is Idle,
    {
        let st = self.workers[w];
        if let WorkerState::Busy(id) = st {
            self.workers.set(w, WorkerState::Idle);
            self.completed.push(id);
            if !succeeded {
                self.failed.push(id);
            }
            proof {
                let m0 = old(self)@;
                let m1 = self@;
                let wi = w as int;
                assert(m1 =~= m0.finish_tr(wi, succeeded));
                assert(m0.accounted(id));
                assert(!m0.finished(id)) by {
                    assert(m0.busy_with(id)) by {
                        assert(m0.workers[wi] == WorkerState::Busy(id));
                    }
                }
                assert(!m0.queued(id)) by {
                    assert(m0.busy_with(id));
                }
                assert(forall|x: u64| #[trigger] m1.completed.contains(x) <==> m0.completed.contains(x)
                    || x == id) by {
                    assert forall|x: u64| #[trigger] m1.completed.contains(x) implies m0.completed.contains(
                        x,
                    ) || x == id by {
                        let k = choose|k: int|
                            0 <= k < m1.completed.len() && m1.completed[k] == x;
                        if k < m0.completed.len() {
                            assert(m0.completed[k] == x);
                        }
                    }
                    assert forall|x: u64|
                        m0.completed.contains(x) || x == id implies #[trigger] m1.completed.contains(
                        x,
                    ) by {
                        if m0.completed.contains(x) {
                            let k = choose|k: int|
                                0 <= k < m0.completed.len() && m0.completed[k] == x;
                            assert(m1.completed[k] == x);
                        } else {
                            assert(m1.completed[m0.completed.len() as int] == id);
                        }
                    }
                }
                assert(distinct(m1.completed)) by {
                    assert forall|i: int, j: int|
                        0 <= i < j < m1.completed.len() implies m1.completed[i]
                        != m1.completed[j] by {
                        if j == m0.completed.len() {
                            assert(m0.completed.contains(m0.completed[i]));
                        }
                    }
                }
                if !succeeded {
                    assert(!m0.failed.contains(id));
                    assert(distinct(m1.failed)) by {
                        assert forall|i: int, j: int|
                            0 <= i < j < m1.failed.len() implies m1.failed[i] != m1.failed[j] by {
                            if j == m0.failed.len() {
                                assert(m0.failed.contains(m0.failed[i]));
                            }
                        }
                    }
                }
                assert forall|x: u64| #[trigger] m1.failed.contains(x) implies m1.finished(x) by {
                    let k = choose|k: int| 0 <= k < m1.failed.len() && m1.failed[k] == x;
                    if k < m0.failed.len() {
                        assert(m0.failed[k] == x);
                        assert(m0.failed.contains(x));
                    }
                }
                assert(forall|j: u64| j != id ==> (#[trigger] m1.busy_with(j) <==> m0.busy_with(j)))
                    by {
                    assert forall|j: u64| j != id implies (m1.busy_with(j) <==> m0.busy_with(
                        j,
                    )) by {
                        if m0.busy_with(j) {
                            let wx = choose|wx: int|
                                0 <= wx < m0.workers.len() && m0.workers[wx] == WorkerState::Busy(
                                    j,
                                );
                            assert(wx != wi);
                            assert(m1.workers[wx] == WorkerState::Busy(j));
                        }
                        if m1.busy_with(j) {
                            let wx = choose|wx: int|
                                0 <= wx < m1.workers.len() && m1.workers[wx] == WorkerState::Busy(
                                    j,
                                );
                            assert(wx != wi);
                            assert(m0.workers[wx] == WorkerState::Busy(j));
                        }
                    }
                }
                assert(!m1.busy_with(id)) by {
                    if m1.busy_with(id) {
                        let wx = choose|wx: int|
                            0 <= wx < m1.workers.len() && m1.workers[wx] == WorkerState::Busy(id);
                        assert(wx != wi);
                        assert(m0.workers[wx] == WorkerState::Busy(id));
                        assert(m0.busy_distinct());
                        assert(m0.workers[wi] is Busy && m0.workers[wx] is Busy);
                    }
                }
                assert forall|j: u64| m1.accounted(j) by {
                    assert(m0.accounted(j));
                }
                assert(m1.busy_distinct()) by {
                    assert forall|w1: int, w2: int|
                        0 <= w1 < m1.workers.len() && 0 <= w2 < m1.workers.len() && w1 != w2
                            && m1.workers[w1] is Busy && m1.workers[w2] is Busy implies m1.workers[w1]->0
                        != m1.workers[w2]->0 by {
                        assert(w1 != wi && w2 != wi);
                        assert(m1.workers[w1] == m0.workers[w1]);
                        assert(m1.workers[w2] == m0.workers[w2]);
                    }
                }
                assert(m1.phase is Running ==> m1.none_done()) by {
                    if m1.phase is Running {
                        assert forall|wx: int|
                            0 <= wx < m1.workers.len() implies !(m1.workers[wx] is Done) by {
                            if wx != wi {
                                assert(m1.workers[wx] == m0.workers[wx]);
                            }
                        }
                    }
                }
                assert(!(m1.phase is Stopped)) by {
                    if m0.phase is Stopped {
                        assert(m0.workers[wi] is Done);
                    }
                }
            }
        } else {
            proof {
                assert(false);
            }
        }
    }

    /// Worker `w`, idle at a closed and drained queue, is told to stop and
    /// exits its loop. The queue reports stop only once nothing is left, so
    /// no pending job is ever abandoned.
    pub fn stop_worker(&mut self, w: usize)
        requires
            old(self)@.wf(),
            old(self)@.phase is Stopping,
            old(self)@.pending.len() == 0,
            w < old(self)@.worker_count(),
            old(self)@.workers[w as int] is Idle,
        ensures
            final(self)@.wf(),
            final(self)@ == old(self)@.stop_tr(w as int),
    {
        self.workers.set(w, WorkerState::Done);
        proof {
            let m0 = old(self)@;
            let m1 = self@;
            let wi = w as int;
            assert(m1 =~= m0.stop_tr(wi));
            assert(forall|j: u64| #[trigger] m1.busy_with(j) <==> m0.busy_with(j)) by {
                assert forall|j: u64| #[trigger] m1.busy_with(j) <==> m0.busy_with(j) by {
                    if m0.busy_with(j) {
                        let wx = choose|wx: int|
                            0 <= wx < m0.workers.len() && m0.workers[wx] == WorkerState::Busy(j);
                        assert(wx != wi);
                        assert(m1.workers[wx] == WorkerState::Busy(j));
                    }
                    if m1.busy_with(j) {
                        let wx = choose|wx: int|
                            0 <= wx < m1.workers.len() && m1.workers[wx] == WorkerState::Busy(j);
                        assert(wx != wi);
                        assert(m0.workers[wx] == WorkerState::Busy(j));
                    }
                }
            }
            assert forall|j: u64| m1.accounted(j) by {
                assert(m0.accounted(j));
            }
            assert(m1.busy_distinct()) by {
                assert forall|w1: int, w2: int|
                    0 <= w1 < m1.workers.len() && 0 <= w2 < m1.workers.len() && w1 != w2
                        && m1.workers[w1] is Busy && m1.workers[w2] is Busy implies m1.workers[w1]->0
                    != m1.workers[w2]->0 by {
                    assert(w1 != wi && w2 != wi);
                    assert(m1.workers[w1] == m0.workers[w1]);
                    assert(m1.workers[w2] == m0.workers[w2]);
                }
            }
        }
    }

    /// All workers have been joined: the pool reaches its terminal state.
    pub fn finish_shutdown(&mut self)
        requires
            old(self)@.wf(),
            old(self)@.phase is Stopping,
            old(self)@.pending.len() == 0,
            old(self)@.all_done(),
        ensures
            final(self)@.wf(),
            final(self)@ == old(self)@.finish_shutdown_tr(),
            final(self)@.phase is Stopped,
    {
        self.phase = Phase::Stopped;
        proof {
            let m0 = old(self)@;
            let m1 = self@;
            assert(m1 =~= m0.finish_shutdown_tr());
            assert forall|j: u64| m1.accounted(j) by {
                assert(m0.accounted(j));
            }
        }
    }

    /// How many workers the pool was built with.
    pub fn worker_count(&self) -> (n: usize)
        ensures
            n == self@.worker_count(),
    {
        self.workers.len()
    }

    /// Where the pool stands in its life.
    pub fn phase(&self) -> (p: Phase)
        ensures
            p == self@.phase,
    {
        self.phase
    }

    /// How many submitted jobs have not been taken yet.
    pub fn pending_count(&self) -> (n: usize)
        ensures
            n == self@.pending.len(),
    {
        self.pending.len()
    }

    /// What worker `w` is doing.
    pub fn worker_state(&self, w: usize) -> (s: WorkerState)
        requires
            w < self@.worker_count(),
        ensures
            s == self@.workers[w as int],
    {
        self.workers[w]
    }

    /// The jobs that have been executed, in the order they finished.
    pub fn completed_jobs(&self) -> (c: &Vec<u64>)
        ensures
            c@ == self@.completed,
    {
        &self.completed
    }

    /// The executed jobs whose run reported a failure.
    pub fn failed_jobs(&self) -> (f: &Vec<u64>)
        ensures
            f@ == self@.failed,
    {
        &self.failed
    }
}

/// How many of the workers are executing a job right now.
pub open spec fn busy_count(ws: Seq<WorkerState>) -> nat
    decreases ws.len(),
{
    if ws.len() == 0 {
        0
    } else {
        busy_count(ws.drop_last()) + if ws.last() is Busy {
            1nat
        } else {
            0nat
        }
    }
}

/// How often `x` occurs in `s`.
pub open spec fn count_in(s: Seq<u64>, x: u64) -> nat
    decreases s.len(),
{
    if s.len() == 0 {
        0
    } else {
        count_in(s.drop_last(), x) + if s.last() == x {
            1nat
        } else {
            0nat
        }
    }
}

proof fn lemma_busy_count_le_len(ws: Seq<WorkerState>)
    ensures
        busy_count(ws) <= ws.len(),
    decreases ws.len(),
{
    if ws.len() > 0 {
        lemma_busy_count_le_len(ws.drop_last());
    }
}

proof fn lemma_count_in_distinct(s: Seq<u64>, x: u64)
    requires
        distinct(s),
    ensures
        count_in(s, x) == if s.contains(x) {
            1nat
        } else {
            0nat
        },
    decreases s.len(),
{
    if s.len() > 0 {
        let s0 = s.drop_last();
        assert(distinct(s0)) by {
            assert(forall|i: int, j: int|
                0 <= i < j < s0.len() ==> s0[i] == s[i] && s0[j] == s[j]);
        }
        lemma_count_in_distinct(s0, x);
        if s.last() == x {
            assert(!s0.contains(x)) by {
                if s0.contains(x) {
                    let k = choose|k: int| 0 <= k < s0.len() && s0[k] == x;
                    assert(s[k] == x && s[s.len() - 1] == x);
                }
            }
            assert(s.contains(x)) by {
                assert(s[s.len() - 1] == x);
            }
        } else {
            assert(s.contains(x) <==> s0.contains(x)) by {
                if s.contains(x) {
                    let k = choose|k: int| 0 <= k < s.len() && s[k] == x;
                    assert(k < s.len() - 1);
                    assert(s0[k] == x);
                }
                if s0.contains(x) {
                    let k = choose|k: int| 0 <= k < s0.len() && s0[k] == x;
                    assert(s[k] == x);
                }
            }
        }
    }
}

/// A pool never runs more jobs at once than it has workers, and no
/// transition ever changes how many workers there are: the bound fixed at
/// construction holds in every reachable state.
pub proof fn lemma_bounded_concurrency(m: PoolModel, w: int, succeeded: bool)
    ensures
        busy_count(m.workers) <= m.worker_count(),
        m.execute_tr().worker_count() == m.worker_count(),
        m.begin_shutdown_tr().worker_count() == m.worker_count(),
        0 <= w < m.worker_count() ==> m.take_tr(w).worker_count() == m.worker_count(),
        0 <= w < m.worker_count() ==> m.finish_tr(w, succeeded).worker_count()
            == m.worker_count(),
        0 <= w < m.worker_count() ==> m.stop_tr(w).worker_count() == m.worker_count(),
        m.finish_shutdown_tr().worker_count() == m.worker_count(),
{
    lemma_busy_count_le_len(m.workers);
}

/// Once the pool has stopped, every job that was ever accepted by `execute`
/// has been executed exactly once, and nothing else has: shutdown drains
/// the queue, it neither drops nor repeats work.
pub proof fn lemma_stopped_executes_each_job_once(m: PoolModel, id: u64)
    requires
        m.wf(),
        m.phase is Stopped,
    ensures
        count_in(m.completed, id) == if m.submitted(id) {
            1nat
        } else {
            0nat
        },
{
    assert(m.accounted(id));
    assert(!m.queued(id));
    assert(!m.busy_with(id)) by {
        if m.busy_with(id) {
            let wx = choose|wx: int|
                0 <= wx < m.workers.len() && m.workers[wx] == WorkerState::Busy(id);
            assert(m.workers[wx] is Done);
        }
    }
    assert(m.submitted(id) <==> m.finished(id));
    lemma_count_in_distinct(m.completed, id);
}

/// A failing job is isolated to its own execution: whatever the outcome of
/// the job that worker `w` ran, the worker is idle again afterwards, the
/// pool is as able to accept and dispatch work as before, and no other part
/// of the state differs between the two outcomes.
pub proof fn lemma_failure_isolated(m: PoolModel, w: int)
    requires
        m.wf(),
        0 <= w < m.worker_count(),
        m.workers[w] is Busy,
    ensures
        m.finish_tr(w, false).workers == m.finish_tr(w, true).workers,
        m.finish_tr(w, false).pending == m.finish_tr(w, true).pending,
        m.finish_tr(w, false).completed == m.finish_tr(w, true).completed,
        m.finish_tr(w, false).phase == m.finish_tr(w, true).phase,
        m.finish_tr(w, false).next_job == m.finish_tr(w, true).next_job,
        m.finish_tr(w, false).workers[w] is Idle,
        m.finish_tr(w, false).phase == m.phase,
        m.finish_tr(w, false).execute_result() == m.execute_result(),
{
}

} // verus!
