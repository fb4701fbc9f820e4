use vstd::prelude::*;

use crate::worker::{Received, Worker, WorkerState};

verus! {

/// The pool-level shutdown state machine.
///
/// `Accepting` is the running pool: the producer endpoint is present and
/// submissions are accepted. `Draining` begins when release drops the
/// producer endpoint: queued jobs are still executed, but nothing new is
/// accepted. `Stopped` is terminal: every worker has been joined.
#[derive(Clone, Copy, PartialEq, Eq, Structural, Debug)]
pub enum Phase {
    Accepting,
    Draining,
    Stopped,
}

/// What the pool knows of one submitted job.
///
/// A job is `Pending` while it sits in the queue, `Active(w)` while worker
/// `w` runs it, `Completed` once it returned, `Panicked` if it terminated
/// abnormally (killing its worker), and `Dropped` if the queue was destroyed
/// with the job still unexecuted, which can only happen once no worker is
/// left alive to take it.
#[derive(Clone, Copy, PartialEq, Eq, Structural, Debug)]
pub enum JobState {
    Pending,
    Active(usize),
    Completed,
    Panicked,
    Dropped,
}

/// The user-visible failures of the pool.
///
/// `ConstructionFailure`: no pool could be built, because the requested size
/// was zero or every thread spawn failed. `SubmitAfterShutdown`: a submission
/// arrived after release had already dropped the producer endpoint.
#[derive(Clone, Copy, PartialEq, Eq, Structural, Debug)]
pub enum PoolError {
    ConstructionFailure,
    SubmitAfterShutdown,
}

/// How many of the attempted thread spawns succeeded.
pub open spec fn count_true(s: Seq<bool>) -> nat
    decreases s.len(),
{
    if s.len() == 0 {
        0
    } else {
        count_true(s.drop_last()) + if s.last() {
            1nat
        } else {
            0nat
        }
    }
}

pub proof fn lemma_count_true_le(s: Seq<bool>)
    ensures
        count_true(s) <= s.len(),
    decreases s.len(),
{
    if s.len() > 0 {
        lemma_count_true_le(s.drop_last());
    }
}

/// How many joins during release report abnormal termination: the workers
/// that died of a panicking job and whose handle is still there to take.
pub open spec fn count_join_failures(s: Seq<Worker>) -> nat
    decreases s.len(),
{
    if s.len() == 0 {
        0
    } else {
        count_join_failures(s.drop_last()) + if s.last().state is Dead && s.last().handle {
            1nat
        } else {
            0nat
        }
    }
}

proof fn lemma_count_join_failures_pointwise(a: Seq<Worker>, b: Seq<Worker>)
    requires
        a.len() == b.len(),
        forall|i: int|
            0 <= i < a.len() ==> (((#[trigger] a[i]).state is Dead && a[i].handle) <==> ((
            #[trigger] b[i]).state is Dead && b[i].handle)),
    ensures
        count_join_failures(a) == count_join_failures(b),
    decreases a.len(),
{
    if a.len() > 0 {
        assert forall|i: int| 0 <= i < a.drop_last().len() implies (((#[trigger] a.drop_last()[i]).state
            is Dead && a.drop_last()[i].handle) <==> ((#[trigger] b.drop_last()[i]).state is Dead
            && b.drop_last()[i].handle)) by {
            assert(a.drop_last()[i] == a[i]);
            assert(b.drop_last()[i] == b[i]);
        }
        lemma_count_join_failures_pointwise(a.drop_last(), b.drop_last());
        assert(a.last() == a[a.len() - 1]);
        assert(b.last() == b[b.len() - 1]);
    }
}

/// The control core of the pool: the worker table, the shutdown phase, and
/// the per-job dispatch ledger.
///
/// `jobs[j]` is the state of the `j`-th submitted job; job numbers are
/// assigned in submission order, so the sequence doubles as the FIFO queue:
/// the jobs with numbers in `started..jobs.len()` are exactly the queued
/// ones, and `started` is the number the next dequeue hands out.
#[derive(Debug)]
pub struct ThreadPool {
    pub workers: Vec<Worker>,
    pub phase: Phase,
    pub jobs: Vec<JobState>,
    pub started: usize,
}

impl ThreadPool {
    /// Some worker thread is still in its receive-execute loop.
    pub open spec fn any_alive(self) -> bool {
        exists|w: int| 0 <= w < self.workers@.len() && (#[trigger] self.workers@[w]).alive()
    }

    /// Some submitted job was destroyed unexecuted.
    pub open spec fn has_dropped(self) -> bool {
        exists|j: int| 0 <= j < self.jobs@.len() && (#[trigger] self.jobs@[j]) is Dropped
    }

    /// Well-formedness of the control state.
    ///
    /// Worker identities are dense and stable; `started` splits the job
    /// ledger into the dispatched prefix and the still-queued suffix; a job
    /// marked `Active(w)` and a worker marked `Busy(j)` point at each other;
    /// a live worker still owns its join handle; and jobs can only have been
    /// dropped unexecuted once no worker is left alive.
    pub open spec fn wf(self) -> bool {
        &&& forall|w: int| 0 <= w < self.workers@.len() ==> (#[trigger] self.workers@[w]).id == w
        &&& self.started <= self.jobs@.len()
        &&& forall|j: int|
            0 <= j < self.started ==> !((#[trigger] self.jobs@[j]) is Pending) && !(self.jobs@[j] is Dropped)
        &&& forall|j: int|
            self.started <= j < self.jobs@.len() ==> ((#[trigger] self.jobs@[j]) is Pending
                || self.jobs@[j] is Dropped)
        &&& forall|j: usize|
            j < self.jobs@.len() ==> ((#[trigger] self.jobs@[j as int]) matches JobState::Active(w)
                ==> w < self.workers@.len() && self.workers@[w as int].state
                == WorkerState::Busy(j))
        &&& forall|w: usize|
            w < self.workers@.len() ==> ((#[trigger] self.workers@[w as int]).state matches WorkerState::Busy(j)
                ==> j < self.jobs@.len() && self.jobs@[j as int] == JobState::Active(w))
        &&& forall|w: int|
            0 <= w < self.workers@.len() ==> ((#[trigger] self.workers@[w]).alive()
                ==> self.workers@[w].handle)
        &&& (self.has_dropped() ==> !self.any_alive())
    }

    /// Builds the pool's control state from the construction attempt: one
    /// spawn attempt per requested slot, recorded as succeeded or failed.
    /// Each successful spawn gets the next dense identity; construction
    /// fails (`ConstructionFailure`) when the requested size is zero or no
    /// spawn succeeded, and no pool is returned then.
    pub fn new(size: usize, spawn_ok: &Vec<bool>) -> (r: Result<ThreadPool, PoolError>)
        requires
            spawn_ok@.len() == size,
        ensures
            r is Ok <==> count_true(spawn_ok@) > 0,
            size == 0 ==> r is Err,
            r matches Err(e) ==> e == PoolError::ConstructionFailure,
            r matches Ok(p) ==> ({
                &&& p.wf()
                &&& p.phase is Accepting
                &&& p.jobs@.len() == 0
                &&& p.started == 0
                &&& p.workers@.len() == count_true(spawn_ok@)
                &&& 1 <= p.workers@.len() <= size
                &&& forall|w: int|
                    0 <= w < p.workers@.len() ==> #[trigger] p.workers@[w] == (Worker {
                        id: w as usize,
                        state: WorkerState::Idle,
                        handle: true,
                    })
            }),
    {
        let mut workers: Vec<Worker> = Vec::new();
        let mut i: usize = 0;
        while i < size
            invariant
                spawn_ok@.len() == size,
                i <= size,
                workers@.len() == count_true(spawn_ok@.take(i as int)),
                forall|w: int|
                    0 <= w < workers@.len() ==> #[trigger] workers@[w] == (Worker {
                        id: w as usize,
                        state: WorkerState::Idle,
                        handle: true,
                    }),
            decreases size - i,
        {
            proof {
                lemma_count_true_le(spawn_ok@.take(i as int));
                assert(spawn_ok@.take(i as int + 1).drop_last() =~= spawn_ok@.take(i as int));
                assert(spawn_ok@.take(i as int + 1).last() == spawn_ok@[i as int]);
            }
            if spawn_ok[i] {
                let id = workers.len();
                workers.push(Worker { id, state: WorkerState::Idle, handle: true });
            }
            i = i + 1;
        }
        proof {
            assert(spawn_ok@.take(size as int) =~= spawn_ok@);
            lemma_count_true_le(spawn_ok@);
        }
        if workers.len() == 0 {
            Err(PoolError::ConstructionFailure)
        } else {
            Ok(ThreadPool { workers, phase: Phase::Accepting, jobs: Vec::new(), started: 0 })
        }
    }

    /// Submission. While the pool is accepting, the job is appended to the
    /// queue under the next job number and that number is returned; after
    /// release has begun, nothing is enqueued and the submission is refused
    /// with `SubmitAfterShutdown`.
    pub fn execute(&mut self) -> (r: Result<usize, PoolError>)
        requires
            old(self).wf(),
            old(self).jobs@.len() < usize::MAX,
        ensures
            final(self).wf(),
            r is Ok <==> old(self).phase is Accepting,
            old(self).phase is Accepting ==> ({
                &&& r == Ok::<usize, PoolError>(old(self).jobs@.len() as usize)
                &&& final(self).jobs@ == old(self).jobs@.push(JobState::Pending)
                &&& final(self).workers == old(self).workers
                &&& final(self).phase == old(self).phase
                &&& final(self).started == old(self).started
            }),
            !(old(self).phase is Accepting) ==> ({
                &&& r == Err::<usize, PoolError>(PoolError::SubmitAfterShutdown)
                &&& *final(self) == *old(self)
            }),
    {
        match self.phase {
            Phase::Accepting => {
                let id = self.jobs.len();
                self.jobs.push(JobState::Pending);
                Ok(id)
            },
            _ => Err(PoolError::SubmitAfterShutdown),
        }
    }

    /// One attempt by idle worker `w` to take work from the shared consumer
    /// endpoint (the real receive happens under the consumer mutex, which is
    /// released again before the job runs). If a job is queued, the worker
    /// gets the oldest one — dispatch is FIFO — and becomes busy with it. If
    /// the queue is empty and the producer endpoint is gone, the worker
    /// observes disconnection and exits its loop. Otherwise the receive
    /// would block and nothing changes.
    pub fn take_next(&mut self, w: usize) -> (r: Received)
        requires
            old(self).wf(),
            w < old(self).workers@.len(),
            old(self).workers@[w as int].state is Idle,
        ensures
            final(self).wf(),
            old(self).started < old(self).jobs@.len() ==> ({
                &&& r == Received::NewJob(old(self).started)
                &&& final(self).jobs@ == old(self).jobs@.update(
                    old(self).started as int,
                    JobState::Active(w),
                )
                &&& final(self).workers@ == old(self).workers@.update(
                    w as int,
                    (Worker { id: w, state: WorkerState::Busy(old(self).started), handle: true }),
                )
                &&& final(self).started == old(self).started + 1
                &&& final(self).phase == old(self).phase
            }),
            old(self).started == old(self).jobs@.len() && !(old(self).phase is Accepting) ==> ({
                &&& r == Received::Disconnected
                &&& final(self).workers@ == old(self).workers@.update(
                    w as int,
                    (Worker { id: w, state: WorkerState::Exited, handle: true }),
                )
                &&& final(self).jobs == old(self).jobs
                &&& final(self).started == old(self).started
                &&& final(self).phase == old(self).phase
            }),
            old(self).started == old(self).jobs@.len() && old(self).phase is Accepting ==> ({
                &&& r == Received::WouldBlock
                &&& *final(self) == *old(self)
            }),
    {
        proof {
            assert(self.workers@[w as int].alive());
            assert(self.any_alive());
        }
        if self.started < self.jobs.len() {
            let j = self.started;
            proof {
                assert(!(self.jobs@[j as int] is Dropped));
                assert(self.jobs@[j as int] is Pending);
            }
            self.jobs[j] = JobState::Active(w);
            self.workers[w] = Worker { id: w, state: WorkerState::Busy(j), handle: true };
            self.started = j + 1;
            Received::NewJob(j)
        } else {
            match self.phase {
                Phase::Accepting => Received::WouldBlock,
                _ => {
                    self.workers[w] = Worker { id: w, state: WorkerState::Exited, handle: true };
                    Received::Disconnected
                },
            }
        }
    }

    /// Worker `w` finished running its job: the job ran exactly once and is
    /// recorded as completed, or — if it panicked — as panicked, in which
    /// case the panic propagates and the worker thread dies with it. Either
    /// way the job was executed outside the consumer lock, so no other
    /// worker is affected.
    pub fn finish(&mut self, w: usize, panicked: bool)
        requires
            old(self).wf(),
            w < old(self).workers@.len(),
            old(self).workers@[w as int].state is Busy,
        ensures
            final(self).wf(),
            final(self).jobs@ == old(self).jobs@.update(
                old(self).workers@[w as int].state->0 as int,
                if panicked {
                    JobState::Panicked
                } else {
                    JobState::Completed
                },
            ),
            final(self).workers@ == old(self).workers@.update(
                w as int,
                (Worker {
                    id: w,
                    state: if panicked {
                        WorkerState::Dead
                    } else {
                        WorkerState::Idle
                    },
                    handle: true,
                }),
            ),
            final(self).phase == old(self).phase,
            final(self).started == old(self).started,
    {
        proof {
            assert(self.workers@[w as int].alive());
            assert(self.any_alive());
        }
        let state = self.workers[w].state;
        match state {
            WorkerState::Busy(j) => {
                self.jobs[j] = if panicked {
                    JobState::Panicked
                } else {
                    JobState::Completed
                };
                self.workers[w] = Worker {
                    id: w,
                    state: if panicked {
                        WorkerState::Dead
                    } else {
                        WorkerState::Idle
                    },
                    handle: true,
                };
            },
            _ => {},
        }
    }

    /// The first step of release: the producer endpoint is dropped, so no
    /// further submission can be accepted, and every worker blocked in the
    /// receive will observe disconnection once the queue is empty.
    pub fn begin_release(&mut self)
        requires
            old(self).wf(),
            old(self).phase is Accepting,
        ensures
            final(self).wf(),
            final(self).phase is Draining,
            final(self).workers == old(self).workers,
            final(self).jobs == old(self).jobs,
            final(self).started == old(self).started,
    {
        self.phase = Phase::Draining;
    }

    /// The queue is destroyed with jobs still in it. This can only happen
    /// once no worker is left alive to take them — the last worker thread to
    /// die or exit drops the shared consumer endpoint — and it marks every
    /// still-queued job as destroyed unexecuted.
    pub fn drop_pending(&mut self)
        requires
            old(self).wf(),
            old(self).phase is Draining,
            !old(self).any_alive(),
        ensures
            final(self).wf(),
            final(self).jobs@.len() == old(self).jobs@.len(),
            forall|j: int|
                0 <= j < old(self).started ==> final(self).jobs@[j] == old(self).jobs@[j],
            forall|j: int|
                old(self).started <= j < old(self).jobs@.len() ==> final(self).jobs@[j]
                    is Dropped,
            final(self).workers == old(self).workers,
            final(self).phase == old(self).phase,
            final(self).started == old(self).started,
    {
        let mut j: usize = self.started;
        let n = self.jobs.len();
        let ghost orig = *self;
        while j < n
            invariant
                self.wf(),
                !self.any_alive(),
                self.phase is Draining,
                orig.started <= j <= n,
                n == self.jobs@.len(),
                self.workers == orig.workers,
                self.phase == orig.phase,
                self.started == orig.started,
                forall|k: int| 0 <= k < orig.started ==> self.jobs@[k] == orig.jobs@[k],
                forall|k: int| orig.started <= k < j ==> (#[trigger] self.jobs@[k]) is Dropped,
                forall|k: int| j <= k < n ==> self.jobs@[k] == orig.jobs@[k],
            decreases n - j,
        {
            self.jobs[j] = JobState::Dropped;
            j = j + 1;
        }
    }

    /// The pool joins worker `w`: the one-shot thread handle is taken, and
    /// the join reports whether the thread exited its loop normally (`true`)
    /// or was killed by a panicking job (`false`). A worker can only be
    /// joined after its thread has left the receive-execute loop.
    pub fn join_worker(&mut self, w: usize) -> (clean: bool)
        requires
            old(self).wf(),
            w < old(self).workers@.len(),
            old(self).workers@[w as int].handle,
            !old(self).workers@[w as int].alive(),
        ensures
            final(self).wf(),
            clean == (old(self).workers@[w as int].state is Exited),
            final(self).workers@ == old(self).workers@.update(
                w as int,
                (Worker { id: w, state: old(self).workers@[w as int].state, handle: false }),
            ),
            final(self).jobs == old(self).jobs,
            final(self).phase == old(self).phase,
            final(self).started == old(self).started,
    {
        let state = self.workers[w].state;
        self.workers[w] = Worker { id: w, state, handle: false };
        match state {
            WorkerState::Exited => true,
            _ => false,
        }
    }

    /// The index of some worker that is idle in its receive loop.
    fn find_idle(&self) -> (w: usize)
        requires
            exists|i: int|
                0 <= i < self.workers@.len() && (#[trigger] self.workers@[i]).state is Idle,
        ensures
            w < self.workers@.len(),
            self.workers@[w as int].state is Idle,
    {
        let mut w: usize = 0;
        while w < self.workers.len()
            invariant
                w <= self.workers@.len(),
                exists|i: int|
                    w <= i < self.workers@.len() && (#[trigger] self.workers@[i]).state is Idle,
            decreases self.workers@.len() - w,
        {
            match self.workers[w].state {
                WorkerState::Idle => {
                    return w;
                },
                _ => {},
            }
            w = w + 1;
        }
        proof {
            assert(false);
        }
        0
    }

    /// The last step of release: every worker has been joined, and the pool
    /// is stopped for good.
    pub fn end_release(&mut self)
        requires
            old(self).wf(),
            old(self).phase is Draining,
            forall|w: int| 0 <= w < old(self).workers@.len() ==> !(#[trigger] old(self).workers@[w]).handle,
        ensures
            final(self).wf(),
            final(self).phase is Stopped,
            final(self).workers == old(self).workers,
            final(self).jobs == old(self).jobs,
            final(self).started == old(self).started,
    {
        self.phase = Phase::Stopped;
    }

    /// The whole shutdown handshake, in the order the pool performs it when
    /// it is destroyed: drop the producer endpoint first (joining first
    /// would deadlock, since only the drop lets a blocked worker observe
    /// disconnection), let the workers finish what is in flight and drain
    /// the queue, then take and join every worker's handle in identity
    /// order, and stop.
    ///
    /// On return every submitted job has been executed exactly once — it is
    /// completed unless it had already panicked — no worker thread is alive,
    /// every handle has been taken, and the number of joins that reported
    /// abnormal termination is returned. The caller must either still have a
    /// live worker or an already-drained queue; a pool whose workers all
    /// died with jobs still queued cannot execute them, and is shut down
    /// with the step methods instead, dropping the queue.
    pub fn release(&mut self) -> (failures: usize)
        requires
            old(self).wf(),
            old(self).phase is Accepting,
            old(self).any_alive() || old(self).started == old(self).jobs@.len(),
        ensures
            final(self).wf(),
            final(self).phase is Stopped,
            final(self).jobs@.len() == old(self).jobs@.len(),
            final(self).started == final(self).jobs@.len(),
            forall|j: int|
                0 <= j < old(self).jobs@.len() ==> final(self).jobs@[j] == (if old(self).jobs@[j]
                    is Panicked {
                    JobState::Panicked
                } else {
                    JobState::Completed
                }),
            final(self).workers@.len() == old(self).workers@.len(),
            forall|w: int|
                0 <= w < old(self).workers@.len() ==> final(self).workers@[w] == (Worker {
                    id: w as usize,
                    state: if old(self).workers@[w].state is Dead {
                        WorkerState::Dead
                    } else {
                        WorkerState::Exited
                    },
                    handle: false,
                }),
            failures == count_join_failures(old(self).workers@),
    {
        let ghost orig = *self;
        self.begin_release();
        let n = self.workers.len();

        // Let every worker finish the job it is running at the moment of
        // release; jobs run outside the consumer lock, so they all complete.
        let mut w: usize = 0;
        while w < n
            invariant
                self.wf(),
                self.phase is Draining,
                orig.wf(),
                n == self.workers@.len(),
                self.workers@.len() == orig.workers@.len(),
                self.jobs@.len() == orig.jobs@.len(),
                self.started == orig.started,
                w <= n,
                forall|i: int|
                    0 <= i < n ==> (#[trigger] self.workers@[i]) == (if i < w
                        && orig.workers@[i].state is Busy {
                        Worker { id: i as usize, state: WorkerState::Idle, handle: true }
                    } else {
                        orig.workers@[i]
                    }),
                forall|j: int|
                    0 <= j < self.jobs@.len() ==> (#[trigger] self.jobs@[j]) == (if (
                    orig.jobs@[j] matches JobState::Active(wa) && (wa as int) < w) {
                        JobState::Completed
                    } else {
                        orig.jobs@[j]
                    }),
            decreases n - w,
        {
            let st = self.workers[w].state;
            match st {
                WorkerState::Busy(_) => {
                    self.finish(w, false);
                },
                _ => {},
            }
            w = w + 1;
        }
        let ghost mid = *self;
        proof {
            assert forall|i: int| 0 <= i < n implies !((#[trigger] self.workers@[i]).state
                is Busy) by {
                assert(self.workers@[i] == (if orig.workers@[i].state is Busy {
                    Worker { id: i as usize, state: WorkerState::Idle, handle: true }
                } else {
                    orig.workers@[i]
                }));
            }
        }

        // Drain the queue: one still-live worker takes and runs every queued
        // job, oldest first.
        if self.started < self.jobs.len() {
            proof {
                assert(orig.any_alive());
                let aw = choose|i: int|
                    0 <= i < orig.workers@.len() && (#[trigger] orig.workers@[i]).alive();
                assert(self.workers@[aw].state is Idle);
            }
            let widle = self.find_idle();
            while self.started < self.jobs.len()
                invariant
                    self.wf(),
                    self.phase is Draining,
                    widle < self.workers@.len(),
                    self.workers@ == mid.workers@,
                    self.workers@[widle as int].state is Idle,
                    self.jobs@.len() == mid.jobs@.len(),
                    mid.started <= self.started <= self.jobs@.len(),
                    forall|j: int|
                        0 <= j < self.jobs@.len() ==> (#[trigger] self.jobs@[j]) == (if j
                            < self.started {
                            if mid.jobs@[j] is Panicked {
                                JobState::Panicked
                            } else {
                                JobState::Completed
                            }
                        } else {
                            mid.jobs@[j]
                        }),
                decreases self.jobs@.len() - self.started,
            {
                proof {
                    assert(self.workers@[widle as int].alive());
                    assert(self.any_alive());
                    assert(!(self.jobs@[self.started as int] is Dropped));
                    assert(self.jobs@[self.started as int] is Pending);
                }
                let _ = self.take_next(widle);
                self.finish(widle, false);
            }
        }
        let ghost mid2 = *self;
        proof {
            assert(self.started == self.jobs@.len());
            assert forall|j: int| 0 <= j < self.jobs@.len() implies (#[trigger] self.jobs@[j]) == (
            if orig.jobs@[j] is Panicked {
                JobState::Panicked
            } else {
                JobState::Completed
            }) by {
                assert(orig.jobs@[j] matches JobState::Active(wa) ==> (wa as int) < n);
            }
        }

        // Every idle worker now observes disconnection and leaves its loop.
        let mut w2: usize = 0;
        while w2 < n
            invariant
                self.wf(),
                self.phase is Draining,
                n == self.workers@.len(),
                n == mid2.workers@.len(),
                self.started == self.jobs@.len(),
                self.jobs@ == mid2.jobs@,
                self.started == mid2.started,
                w2 <= n,
                forall|i: int|
                    0 <= i < n ==> (#[trigger] self.workers@[i]) == (if i < w2
                        && mid2.workers@[i].state is Idle {
                        Worker { id: i as usize, state: WorkerState::Exited, handle: true }
                    } else {
                        mid2.workers@[i]
                    }),
            decreases n - w2,
        {
            let st = self.workers[w2].state;
            match st {
                WorkerState::Idle => {
                    let _ = self.take_next(w2);
                },
                _ => {},
            }
            w2 = w2 + 1;
        }
        let ghost mid3 = *self;
        proof {
            assert forall|i: int| 0 <= i < n implies !((#[trigger] self.workers@[i]).alive()) by {
                assert(self.workers@[i] == (if mid2.workers@[i].state is Idle {
                    Worker { id: i as usize, state: WorkerState::Exited, handle: true }
                } else {
                    mid2.workers@[i]
                }));
                assert(!(mid2.workers@[i].state is Busy));
            }
        }

        // Take and join every handle, in identity order, counting the joins
        // that report a thread killed by a panicking job.
        let mut failures: usize = 0;
        let mut w3: usize = 0;
        while w3 < n
            invariant
                self.wf(),
                self.phase is Draining,
                n == self.workers@.len(),
                n == mid3.workers@.len(),
                self.jobs@ == mid3.jobs@,
                self.started == mid3.started,
                w3 <= n,
                failures <= w3,
                failures as nat == count_join_failures(mid3.workers@.take(w3 as int)),
                forall|i: int| 0 <= i < n ==> !((#[trigger] mid3.workers@[i]).alive()),
                forall|i: int|
                    0 <= i < n ==> (#[trigger] self.workers@[i]) == (if i < w3 {
                        Worker { id: i as usize, state: mid3.workers@[i].state, handle: false }
                    } else {
                        mid3.workers@[i]
                    }),
            decreases n - w3,
        {
            proof {
                assert(mid3.workers@.take(w3 as int + 1).drop_last() =~= mid3.workers@.take(
                    w3 as int,
                ));
                assert(mid3.workers@.take(w3 as int + 1).last() == mid3.workers@[w3 as int]);
            }
            if self.workers[w3].handle {
                let clean = self.join_worker(w3);
                if !clean {
                    failures = failures + 1;
                }
            }
            w3 = w3 + 1;
        }
        proof {
            assert(mid3.workers@.take(n as int) =~= mid3.workers@);
            assert forall|i: int| 0 <= i < n implies (((#[trigger] mid3.workers@[i]).state is Dead
                && mid3.workers@[i].handle) <==> ((#[trigger] orig.workers@[i]).state is Dead
                && orig.workers@[i].handle)) by {
                assert(mid.workers@[i] == (if orig.workers@[i].state is Busy {
                    Worker { id: i as usize, state: WorkerState::Idle, handle: true }
                } else {
                    orig.workers@[i]
                }));
            }
            lemma_count_join_failures_pointwise(mid3.workers@, orig.workers@);
        }
        self.end_release();
        proof {
            assert forall|i: int| 0 <= i < n implies self.workers@[i] == (Worker {
                id: i as usize,
                state: if orig.workers@[i].state is Dead {
                    WorkerState::Dead
                } else {
                    WorkerState::Exited
                },
                handle: false,
            }) by {
                assert(mid.workers@[i] == (if orig.workers@[i].state is Busy {
                    Worker { id: i as usize, state: WorkerState::Idle, handle: true }
                } else {
                    orig.workers@[i]
                }));
                assert(orig.workers@[i].alive() ==> orig.workers@[i].handle);
                assert(orig.workers@[i].state is Exited && !orig.workers@[i].handle
                    ==> self.workers@[i] == mid3.workers@[i]);
            }
        }
        failures
    }
}

/// FIFO dispatch law, per the single producer endpoint: jobs leave the
/// queue in submission order. If a later-submitted job was already handed
/// to some worker — its dequeue returned — then every job submitted before
/// it had already been handed out, so the start of the earlier job's
/// execution was scheduled before the later job's dequeue returned.
pub proof fn lemma_dispatch_in_submission_order(p: ThreadPool, j1: int, j2: int)
    requires
        p.wf(),
        0 <= j1 < j2 < p.jobs@.len(),
        !(p.jobs@[j2] is Pending),
        !(p.jobs@[j2] is Dropped),
    ensures
        !(p.jobs@[j1] is Pending),
        !(p.jobs@[j1] is Dropped),
        j2 < p.started,
{
    assert(j2 < p.started);
}

/// Exactly-once dispatch law: a job is never in flight on two workers at
/// once. Distinct busy workers always run distinct jobs, however many jobs
/// are in flight simultaneously.
pub proof fn lemma_distinct_workers_run_distinct_jobs(p: ThreadPool, w1: int, w2: int)
    requires
        p.wf(),
        0 <= w1 < p.workers@.len(),
        0 <= w2 < p.workers@.len(),
        w1 != w2,
        p.workers@[w1].state is Busy,
        p.workers@[w2].state is Busy,
    ensures
        p.workers@[w1].state->0 != p.workers@[w2].state->0,
{
    assert(p.workers@[w1].state matches WorkerState::Busy(j1) ==> p.jobs@[j1 as int]
        == JobState::Active(w1 as usize));
    assert(p.workers@[w2].state matches WorkerState::Busy(j2) ==> p.jobs@[j2 as int]
        == JobState::Active(w2 as usize));
}

} // verus!
