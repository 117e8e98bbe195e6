//! A worker: one long-lived execution unit that repeatedly receives from the
//! shared queue, runs the job it is handed, and stops when the queue reports
//! closure.
//!
//! The model keeps the worker's externally relevant state — alive or stopped
//! — plus a ghost history of the jobs it has been handed. Running a job is
//! the surrounding runtime's business; the worker's contract fixes the
//! decision it takes for each thing a receive can observe.

use vstd::prelude::*;
use crate::queue::Recv;

verus! {

/// The externally relevant lifecycle states of a worker.
#[derive(Clone, Copy, Debug, PartialEq, Eq, Structural)]
pub enum WorkerStatus {
    /// The worker's loop is still running (idle or executing a job).
    Running,
    /// The worker observed the closed-signal and its loop has terminated.
    Stopped,
}

/// What a worker decides to do after one receive.
#[derive(Debug)]
pub enum WorkerAction<J> {
    /// Run this job synchronously to completion, then loop again.
    Run(J),
    /// Nothing to do yet; a real worker stays blocked on the queue.
    Wait,
    /// The queue is closed and drained: leave the loop and terminate.
    Exit,
}

/// One worker: a stable small-integer id, its lifecycle state, and the ghost
/// history of the jobs delivered to it, in the order it received them.
pub struct Worker<J> {
    id: usize,
    status: WorkerStatus,
    executed: Ghost<Seq<J>>,
}

impl<J> Worker<J> {
    /// The worker's id, assigned at construction and stable for its lifetime.
    pub closed spec fn spec_id(&self) -> usize {
        self.id
    }

    /// Whether the worker's loop is still running.
    pub closed spec fn is_running(&self) -> bool {
        self.status is Running
    }

    /// The jobs this worker has received (and, in the pool design, run to
    /// completion), oldest first.
    pub closed spec fn executed(&self) -> Seq<J> {
        self.executed@
    }

    /// A fresh worker: running, with no job executed yet.
    pub fn new(id: usize) -> (w: Self)
        ensures
            w.spec_id() == id,
            w.is_running(),
            w.executed() == Seq::<J>::empty(),
    {
        Worker { id, status: WorkerStatus::Running, executed: Ghost(Seq::empty()) }
    }

    /// Whether the worker's loop is still running.
    pub fn running(&self) -> (r: bool)
        ensures
            r == self.is_running(),
    {
        match self.status {
            WorkerStatus::Running => true,
            WorkerStatus::Stopped => false,
        }
    }

    /// The worker's id.
    pub fn id(&self) -> (r: usize)
        ensures
            r == self.spec_id(),
    {
        self.id
    }

    /// One iteration of the worker loop, given what the receive observed:
    /// a job is accepted (and recorded as this worker's work) and the loop
    /// goes on; the closed-signal stops the worker for good; an empty but
    /// still-open queue leaves the worker blocked, unchanged.
    pub fn on_receive(&mut self, msg: Recv<J>) -> (a: WorkerAction<J>)
        requires
            old(self).is_running(),
        ensures
            final(self).spec_id() == old(self).spec_id(),
            (match msg {
                Recv::Job(j) => {
                    &&& a == WorkerAction::Run(j)
                    &&& final(self).is_running()
                    &&& final(self).executed() == old(self).executed().push(j)
                },
                Recv::ClosedSignal => {
                    &&& a == WorkerAction::<J>::Exit
                    &&& !final(self).is_running()
                    &&& final(self).executed() == old(self).executed()
                },
                Recv::WouldBlock => {
                    &&& a == WorkerAction::<J>::Wait
                    &&& final(self).is_running()
                    &&& final(self).executed() == old(self).executed()
                },
            }),
    {
        match msg {
            Recv::Job(job) => {
                let ghost j = job;
                proof {
                    self.executed@ = self.executed@.push(j);
                }
                WorkerAction::Run(job)
            }
            Recv::ClosedSignal => {
                self.status = WorkerStatus::Stopped;
                WorkerAction::Exit
            }
            Recv::WouldBlock => WorkerAction::Wait,
        }
    }
}

} // verus!
