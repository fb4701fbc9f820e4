use vstd::prelude::*;

verus! {

/// The lifecycle of one worker thread, as the pool's control core tracks it.
///
/// `Idle` is a worker inside its receive-execute loop that is not currently
/// running a job (blocked in the receive, or between jobs). `Busy(j)` is a
/// worker executing job `j`. `Exited` is a worker that observed the
/// disconnection signal and left its loop normally. `Dead` is a worker whose
/// job panicked and took the thread down with it.
#[derive(Clone, Copy, PartialEq, Eq, Structural, Debug)]
pub enum WorkerState {
    Idle,
    Busy(usize),
    Exited,
    Dead,
}

/// One worker slot: a stable 0-based identity, the thread's lifecycle state,
/// and whether the join handle is still present. The handle is a one-shot
/// resource: it is taken exactly once, when the pool joins the thread.
#[derive(Clone, Copy, PartialEq, Eq, Structural, Debug)]
pub struct Worker {
    pub id: usize,
    pub state: WorkerState,
    pub handle: bool,
}

impl Worker {
    /// A worker is alive while its thread is still in the receive-execute
    /// loop, either waiting for a job or running one.
    pub open spec fn alive(self) -> bool {
        self.state is Idle || self.state is Busy
    }
}

/// What one blocking receive on the shared consumer endpoint yields to a
/// worker: the oldest queued job, nothing yet (the queue is empty but the
/// producer endpoint is still present, so the real receive would block), or
/// the disconnection signal (producer endpoint gone and queue empty).
#[derive(Clone, Copy, PartialEq, Eq, Structural, Debug)]
pub enum Received {
    NewJob(usize),
    WouldBlock,
    Disconnected,
}

} // verus!
