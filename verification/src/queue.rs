//! The job queue: an unbounded multi-producer FIFO channel with a closed
//! state, modelled as a sequential data structure.
//!
//! Two ghost histories accompany the concrete state: `sent`, every job ever
//! submitted, in submission order, and `delivered`, every job ever handed to
//! a worker, in delivery order. The queue invariant says that the submitted
//! jobs are exactly the delivered ones followed by the still-pending ones,
//! which yields first-in-first-out, exactly-once delivery.

use vstd::prelude::*;
use std::collections::VecDeque;

verus! {

/// The error a submitter sees when the queue has already been closed.
/// Closing is only performed by the pool during shutdown, so under the
/// pool's own usage this error never reaches a caller.
#[derive(Clone, Copy, Debug, PartialEq, Eq, Structural)]
pub enum SendError {
    /// The sending side was retired before this submission.
    Closed,
}

/// What a worker's receive observes.
#[derive(Debug)]
pub enum Recv<J> {
    /// A job was pending; the receiver now owns it.
    Job(J),
    /// Nothing is pending but the queue is still open: a real worker would
    /// stay blocked. The model surfaces the condition so a driver can retry.
    WouldBlock,
    /// The queue is closed and drained: no job will ever arrive. This is the
    /// expected termination signal for a worker, not an error.
    ClosedSignal,
}

/// An unbounded FIFO of jobs with a closed flag and ghost histories of
/// submission and delivery.
pub struct JobQueue<J> {
    pending: VecDeque<J>,
    closed: bool,
    sent: Ghost<Seq<J>>,
    delivered: Ghost<Seq<J>>,
}

impl<J> JobQueue<J> {
    /// Every job ever submitted, in submission order.
    pub closed spec fn sent(&self) -> Seq<J> {
        self.sent@
    }

    /// Every job ever handed to a worker, in delivery order.
    pub closed spec fn delivered(&self) -> Seq<J> {
        self.delivered@
    }

    /// The jobs submitted but not yet delivered, oldest first.
    pub closed spec fn pending_jobs(&self) -> Seq<J> {
        self.pending@
    }

    /// Whether the sending side has been retired.
    pub closed spec fn is_closed(&self) -> bool {
        self.closed
    }

    /// The queue invariant: the submission history is exactly the delivery
    /// history followed by the pending jobs.
    pub closed spec fn wf(&self) -> bool {
        self.sent@ == self.delivered@ + self.pending@
    }

    /// A fresh queue: open, empty, nothing submitted or delivered.
    pub fn new() -> (q: Self)
        ensures
            q.wf(),
            !q.is_closed(),
            q.sent() == Seq::<J>::empty(),
            q.delivered() == Seq::<J>::empty(),
            q.pending_jobs() == Seq::<J>::empty(),
    {
        let q = JobQueue {
            pending: VecDeque::new(),
            closed: false,
            sent: Ghost(Seq::empty()),
            delivered: Ghost(Seq::empty()),
        };
        proof {
            assert(q.sent@ =~= q.delivered@ + q.pending@);
        }
        q
    }

    /// Enqueue a job. Never blocks (the queue is unbounded); fails exactly
    /// when the queue has already been closed, and then changes nothing.
    pub fn send(&mut self, job: J) -> (r: Result<(), SendError>)
        requires
            old(self).wf(),
        ensures
            final(self).wf(),
            final(self).is_closed() == old(self).is_closed(),
            final(self).delivered() == old(self).delivered(),
            old(self).is_closed() ==> {
                &&& r == Err::<(), SendError>(SendError::Closed)
                &&& final(self).sent() == old(self).sent()
                &&& final(self).pending_jobs() == old(self).pending_jobs()
            },
            !old(self).is_closed() ==> {
                &&& r == Ok::<(), SendError>(())
                &&& final(self).sent() == old(self).sent().push(job)
                &&& final(self).pending_jobs() == old(self).pending_jobs().push(job)
            },
    {
        if self.closed {
            Err(SendError::Closed)
        } else {
            let ghost j = job;
            self.pending.push_back(job);
            proof {
                self.sent@ = self.sent@.push(j);
                assert(self.sent@ =~= self.delivered@ + self.pending@);
            }
            Ok(())
        }
    }

    /// Dequeue once, on behalf of one worker. Returns the oldest pending job
    /// if there is one; the closed-signal if the queue is closed and drained;
    /// otherwise reports that a real receiver would still be blocked.
    pub fn receive(&mut self) -> (r: Recv<J>)
        requires
            old(self).wf(),
        ensures
            final(self).wf(),
            final(self).is_closed() == old(self).is_closed(),
            final(self).sent() == old(self).sent(),
            old(self).pending_jobs().len() > 0 ==> {
                &&& r matches Recv::Job(j) && j == old(self).pending_jobs()[0]
                &&& final(self).pending_jobs() == old(self).pending_jobs().skip(1)
                &&& final(self).delivered() == old(self).delivered().push(
                    old(self).pending_jobs()[0],
                )
            },
            old(self).pending_jobs().len() == 0 ==> {
                &&& final(self).pending_jobs() == old(self).pending_jobs()
                &&& final(self).delivered() == old(self).delivered()
                &&& (old(self).is_closed() ==> r is ClosedSignal)
                &&& (!old(self).is_closed() ==> r is WouldBlock)
            },
    {
        match self.pending.pop_front() {
            Some(job) => {
                let ghost j = job;
                proof {
                    self.delivered@ = self.delivered@.push(j);
                    assert(old(self).pending@ =~= seq![j] + self.pending@);
                    assert(self.pending@ =~= old(self).pending@.skip(1));
                    assert(self.sent@ =~= self.delivered@ + self.pending@);
                }
                Recv::Job(job)
            }
            None => {
                if self.closed {
                    Recv::ClosedSignal
                } else {
                    Recv::WouldBlock
                }
            }
        }
    }

    /// Retire the sending side. Idempotent: closing an already-closed queue
    /// changes nothing and is not a fault. Pending jobs stay pending; they
    /// are still delivered before any receiver sees the closed-signal.
    pub fn close(&mut self)
        requires
            old(self).wf(),
        ensures
            final(self).wf(),
            final(self).is_closed(),
            final(self).sent() == old(self).sent(),
            final(self).delivered() == old(self).delivered(),
            final(self).pending_jobs() == old(self).pending_jobs(),
    {
        self.closed = true;
    }
}

/// First-in-first-out, exactly-once delivery: at any point, the jobs
/// delivered so far are exactly the oldest submitted jobs, in submission
/// order, and the pending jobs are exactly the remaining ones, also in
/// submission order. In particular no job is delivered twice and none is
/// overtaken: the i-th delivered job is the i-th submitted job.
pub proof fn lemma_fifo_exactly_once<J>(q: &JobQueue<J>)
    requires
        q.wf(),
    ensures
        q.sent() == q.delivered() + q.pending_jobs(),
        q.delivered().len() + q.pending_jobs().len() == q.sent().len(),
        q.delivered() == q.sent().take(q.delivered().len() as int),
        q.pending_jobs() == q.sent().skip(q.delivered().len() as int),
        forall|i: int|
            0 <= i < q.delivered().len() ==> q.delivered()[i] == q.sent()[i],
{
    assert(q.delivered() =~= q.sent().take(q.delivered().len() as int));
    assert(q.pending_jobs() =~= q.sent().skip(q.delivered().len() as int));
}

} // verus!
