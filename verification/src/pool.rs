//! The thread pool: a fixed-size collection of workers plus the shared job
//! queue and its lifecycle management.
//!
//! The pool owns the queue's sending side; workers share its receiving side.
//! Construction spawns exactly `size` workers; submission enqueues a job for
//! exactly one of them; shutdown retires the sender first, then waits for
//! every worker, in id order, so that every job submitted before shutdown is
//! delivered and every worker has terminated before shutdown returns.

use vstd::prelude::*;
use crate::queue::JobQueue;
use crate::queue::SendError;
use crate::worker::Worker;
use crate::worker::WorkerAction;

verus! {

/// The one way construction can fail: a pool must have at least one worker.
#[derive(Clone, Copy, Debug, PartialEq, Eq, Structural)]
pub enum PoolError {
    /// A size of zero was requested; no worker was created.
    ZeroSize,
}

/// A fixed-size worker pool sharing one FIFO job queue.
pub struct ThreadPool<J> {
    workers: Vec<Worker<J>>,
    queue: JobQueue<J>,
    assigned: Ghost<Seq<usize>>,
}

/// The share of a delivery history that fell to worker `w`: given the
/// delivered jobs and, position by position, the id of the worker each was
/// handed to, the jobs handed to `w`, in the order it received them. Worker
/// shares partition the deliveries: position `k` of the history contributes
/// `jobs[k]` to the one share `to[k]` and to no other.
pub open spec fn delivered_to<J>(jobs: Seq<J>, to: Seq<usize>, w: int) -> Seq<J>
    recommends
        to.len() == jobs.len(),
    decreases jobs.len(),
{
    if jobs.len() == 0 {
        Seq::empty()
    } else if to.last() == w {
        delivered_to(jobs.drop_last(), to.drop_last(), w).push(jobs.last())
    } else {
        delivered_to(jobs.drop_last(), to.drop_last(), w)
    }
}

impl<J> ThreadPool<J> {
    /// The number of workers, fixed at construction.
    pub closed spec fn size(&self) -> nat {
        self.workers@.len()
    }

    /// The workers, indexed by id.
    pub closed spec fn workers_seq(&self) -> Seq<Worker<J>> {
        self.workers@
    }

    /// Whether the sending side is still usable. True from construction
    /// until shutdown begins; false afterwards.
    pub closed spec fn sender_live(&self) -> bool {
        !self.queue.is_closed()
    }

    /// Every job ever submitted, in submission order.
    pub closed spec fn sent(&self) -> Seq<J> {
        self.queue.sent()
    }

    /// Every job ever handed to some worker, in delivery order.
    pub closed spec fn delivered(&self) -> Seq<J> {
        self.queue.delivered()
    }

    /// The jobs submitted but not yet handed to any worker, oldest first.
    pub closed spec fn pending(&self) -> Seq<J> {
        self.queue.pending_jobs()
    }

    /// For each delivered job, in delivery order, the id of the one worker
    /// it was handed to.
    pub closed spec fn assignments(&self) -> Seq<usize> {
        self.assigned@
    }

    /// Whether worker `i` is still running.
    pub open spec fn worker_running(&self, i: int) -> bool {
        self.workers_seq()[i].is_running()
    }

    /// The jobs worker `i` has received and run, oldest first.
    pub open spec fn worker_executed(&self, i: int) -> Seq<J> {
        self.workers_seq()[i].executed()
    }

    /// Every worker has terminated.
    pub open spec fn all_stopped(&self) -> bool {
        forall|i: int| 0 <= i < self.size() ==> !self.worker_running(i)
    }

    /// Some worker has terminated.
    pub open spec fn some_worker_stopped(&self) -> bool {
        exists|i: int|
            0 <= i < self.size() && !(#[trigger] self.workers_seq()[i]).is_running()
    }

    /// The pool invariant: the queue invariant holds; there is at least one
    /// worker; worker ids are their indices, unique and stable; no worker
    /// stops while work remains — a worker terminates only on the
    /// closed-signal, which the queue emits only once it is closed and every
    /// pending job has been delivered; every delivered job was assigned to
    /// one existing worker; and each worker's execution history is exactly
    /// its share of the delivery history.
    pub closed spec fn wf(&self) -> bool {
        &&& self.queue.wf()
        &&& self.workers@.len() >= 1
        &&& forall|i: int|
            0 <= i < self.workers@.len() ==> (#[trigger] self.workers@[i]).spec_id() == i
        &&& (self.some_worker_stopped() ==> self.queue.is_closed()
            && self.queue.pending_jobs().len() == 0)
        &&& self.assigned@.len() == self.queue.delivered().len()
        &&& forall|k: int| 0 <= k < self.assigned@.len() ==> self.assigned@[k] < self.workers@.len()
        &&& forall|i: int|
            0 <= i < self.workers@.len() ==> (#[trigger] self.workers@[i]).executed()
                == delivered_to(self.queue.delivered(), self.assigned@, i)
    }

    /// Construct a pool of `size` workers, ids `0..size`, all running, over
    /// a fresh open queue. The pool never grows or shrinks afterwards.
    pub fn new(size: usize) -> (pool: Self)
        requires
            size >= 1,
        ensures
            pool.wf(),
            pool.size() == size,
            pool.sender_live(),
            pool.sent() == Seq::<J>::empty(),
            pool.delivered() == Seq::<J>::empty(),
            pool.pending() == Seq::<J>::empty(),
            forall|i: int| 0 <= i < size ==> pool.worker_running(i),
            forall|i: int| 0 <= i < size ==> pool.worker_executed(i) == Seq::<J>::empty(),
            pool.assignments() == Seq::<usize>::empty(),
    {
        let queue = JobQueue::new();
        let mut workers: Vec<Worker<J>> = Vec::new();
        let mut id: usize = 0;
        while id < size
            invariant
                id <= size,
                workers@.len() == id,
                forall|i: int| 0 <= i < id ==> (#[trigger] workers@[i]).spec_id() == i,
                forall|i: int| 0 <= i < id ==> (#[trigger] workers@[i]).is_running(),
                forall|i: int|
                    0 <= i < id ==> (#[trigger] workers@[i]).executed() == Seq::<J>::empty(),
            decreases size - id,
        {
            workers.push(Worker::new(id));
            id += 1;
        }
        let pool = ThreadPool { workers, queue, assigned: Ghost(Seq::empty()) };
        proof {
            assert forall|i: int|
                0 <= i < pool.workers@.len() implies (#[trigger] pool.workers@[i]).executed()
                    == delivered_to(pool.queue.delivered(), pool.assigned@, i) by {
                assert(delivered_to(pool.queue.delivered(), pool.assigned@, i)
                    =~= Seq::<J>::empty());
            }
        }
        pool
    }

    /// Construct a pool, rejecting a zero size before any worker is created.
    /// Fails exactly when `size == 0`.
    pub fn try_new(size: usize) -> (r: Result<Self, PoolError>)
        ensures
            size == 0 <==> r is Err,
            r matches Err(e) ==> e == PoolError::ZeroSize,
            r matches Ok(pool) ==> {
                &&& pool.wf()
                &&& pool.size() == size
                &&& pool.sender_live()
                &&& pool.sent() == Seq::<J>::empty()
                &&& pool.delivered() == Seq::<J>::empty()
                &&& pool.pending() == Seq::<J>::empty()
                &&& forall|i: int| 0 <= i < size ==> pool.worker_running(i)
            },
    {
        if size == 0 {
            Err(PoolError::ZeroSize)
        } else {
            Ok(Self::new(size))
        }
    }

    /// The number of workers.
    pub fn worker_count(&self) -> (n: usize)
        ensures
            n == self.size(),
    {
        self.workers.len()
    }

    /// Whether worker `wid` is still running.
    pub fn is_worker_running(&self, wid: usize) -> (r: bool)
        requires
            wid < self.size(),
        ensures
            r == self.worker_running(wid as int),
    {
        self.workers[wid].running()
    }

    /// Submit a job. Fire-and-forget: the job is enqueued for exactly one
    /// worker and the call returns at once; nothing about the job's own
    /// outcome is reported back. Fails exactly when shutdown has already
    /// begun, and then changes nothing.
    pub fn execute(&mut self, job: J) -> (r: Result<(), SendError>)
        requires
            old(self).wf(),
        ensures
            final(self).wf(),
            final(self).size() == old(self).size(),
            final(self).workers_seq() == old(self).workers_seq(),
            forall|i: int|
                0 <= i < old(self).size() ==> #[trigger] final(self).worker_running(i)
                    == old(self).worker_running(i),
            final(self).sender_live() == old(self).sender_live(),
            final(self).delivered() == old(self).delivered(),
            final(self).assignments() == old(self).assignments(),
            old(self).sender_live() ==> {
                &&& r == Ok::<(), SendError>(())
                &&& final(self).sent() == old(self).sent().push(job)
                &&& final(self).pending() == old(self).pending().push(job)
            },
            !old(self).sender_live() ==> {
                &&& r == Err::<(), SendError>(SendError::Closed)
                &&& final(self).sent() == old(self).sent()
                &&& final(self).pending() == old(self).pending()
            },
    {
        let r = self.queue.send(job);
        proof {
            if self.some_worker_stopped() {
                let i = choose|i: int|
                    0 <= i < self.size() && !(#[trigger] self.workers_seq()[i]).is_running();
                assert(!old(self).workers_seq()[i].is_running());
                assert(old(self).some_worker_stopped());
            }
            assert forall|i: int|
                0 <= i < self.workers@.len() implies (#[trigger] self.workers@[i]).executed()
                    == delivered_to(self.queue.delivered(), self.assigned@, i) by {
                assert(old(self).workers@[i].executed() == delivered_to(
                    old(self).queue.delivered(),
                    old(self).assigned@,
                    i,
                ));
            }
        }
        r
    }

    /// Begin shutdown: retire the sending side, so no further submission can
    /// succeed and the closed-signal becomes reachable once pending jobs
    /// drain. Idempotent: retiring an already-retired sender is a no-op.
    /// Nothing already submitted is lost.
    pub fn begin_shutdown(&mut self)
        requires
            old(self).wf(),
        ensures
            final(self).wf(),
            final(self).size() == old(self).size(),
            !final(self).sender_live(),
            final(self).workers_seq() == old(self).workers_seq(),
            forall|i: int|
                0 <= i < old(self).size() ==> #[trigger] final(self).worker_running(i)
                    == old(self).worker_running(i),
            final(self).sent() == old(self).sent(),
            final(self).delivered() == old(self).delivered(),
            final(self).pending() == old(self).pending(),
            final(self).assignments() == old(self).assignments(),
    {
        self.queue.close();
        proof {
            if self.some_worker_stopped() {
                let i = choose|i: int|
                    0 <= i < self.size() && !(#[trigger] self.workers_seq()[i]).is_running();
                assert(!old(self).workers_seq()[i].is_running());
                assert(old(self).some_worker_stopped());
            }
            assert forall|i: int|
                0 <= i < self.workers@.len() implies (#[trigger] self.workers@[i]).executed()
                    == delivered_to(self.queue.delivered(), self.assigned@, i) by {
                assert(old(self).workers@[i].executed() == delivered_to(
                    old(self).queue.delivered(),
                    old(self).assigned@,
                    i,
                ));
            }
        }
    }

    /// One receive by worker `wid`: the oldest pending job, if any, is
    /// delivered to this worker and to no other; with the queue closed and
    /// drained the worker observes the closed-signal and stops; with the
    /// queue open and empty the worker stays blocked, unchanged.
    pub fn worker_receive(&mut self, wid: usize) -> (a: WorkerAction<J>)
        requires
            old(self).wf(),
            wid < old(self).size(),
            old(self).worker_running(wid as int),
        ensures
            final(self).wf(),
            final(self).size() == old(self).size(),
            final(self).sent() == old(self).sent(),
            final(self).sender_live() == old(self).sender_live(),
            forall|i: int|
                0 <= i < old(self).size() && i != wid ==> final(self).workers_seq()[i]
                    == old(self).workers_seq()[i],
            old(self).pending().len() > 0 ==> {
                &&& a == WorkerAction::Run(old(self).pending()[0])
                &&& final(self).pending() == old(self).pending().skip(1)
                &&& final(self).delivered() == old(self).delivered().push(old(self).pending()[0])
                &&& final(self).assignments() == old(self).assignments().push(wid)
                &&& final(self).worker_running(wid as int)
                &&& final(self).worker_executed(wid as int) == old(self).worker_executed(
                    wid as int,
                ).push(old(self).pending()[0])
            },
            old(self).pending().len() == 0 ==> {
                &&& final(self).pending() == old(self).pending()
                &&& final(self).delivered() == old(self).delivered()
                &&& final(self).assignments() == old(self).assignments()
                &&& final(self).worker_executed(wid as int) == old(self).worker_executed(wid as int)
                &&& (!old(self).sender_live() ==> a == WorkerAction::<J>::Exit
                    && !final(self).worker_running(wid as int))
                &&& (old(self).sender_live() ==> a == WorkerAction::<J>::Wait
                    && final(self).worker_running(wid as int))
            },
    {
        let msg = self.queue.receive();
        let w = &mut self.workers[wid];
        let a = w.on_receive(msg);
        proof {
            let d_old = old(self).queue.delivered();
            let asg_old = old(self).assigned@;
            if d_old != self.queue.delivered() {
                let j = old(self).queue.pending_jobs()[0];
                self.assigned@ = self.assigned@.push(wid);
                assert((d_old.push(j)).drop_last() =~= d_old);
                assert((asg_old.push(wid as usize)).drop_last() =~= asg_old);
            }
            assert forall|i: int|
                0 <= i < self.workers@.len() implies (#[trigger] self.workers@[i]).executed()
                    == delivered_to(self.queue.delivered(), self.assigned@, i) by {
                assert(old(self).workers@[i].executed() == delivered_to(d_old, asg_old, i));
                if i != wid {
                    assert(self.workers@[i] == old(self).workers@[i]);
                }
            }
        }
        a
    }

    /// Tear the pool down, as its drop does: retire the sending side first,
    /// then wait for every worker in id order, each draining the queue until
    /// it observes the closed-signal and stops. Returns the jobs delivered
    /// during teardown (those still pending when it began), in delivery
    /// order; in the pool design each was run to completion by the worker
    /// that received it before that worker stopped. When teardown returns,
    /// every job submitted before it has been delivered exactly once, no
    /// worker is still running, and nothing is pending: a pool with no
    /// submitted jobs stops promptly rather than deadlocking, because
    /// closing the sender unblocks every waiting receive.
    pub fn shutdown(&mut self) -> (drained: Vec<J>)
        requires
            old(self).wf(),
        ensures
            final(self).wf(),
            final(self).size() == old(self).size(),
            !final(self).sender_live(),
            final(self).all_stopped(),
            final(self).sent() == old(self).sent(),
            drained@ == old(self).pending(),
            final(self).delivered() == old(self).delivered() + old(self).pending(),
            final(self).delivered() == old(self).sent(),
            final(self).pending() == Seq::<J>::empty(),
    {
        let ghost init = *old(self);
        self.begin_shutdown();
        let mut drained: Vec<J> = Vec::new();
        let n: usize = self.workers.len();
        let mut wid: usize = 0;
        while wid < n
            invariant
                self.wf(),
                n == self.size(),
                n == init.size(),
                wid <= n,
                !self.sender_live(),
                self.sent() == init.sent(),
                drained@.len() <= init.pending().len(),
                drained@ == init.pending().take(drained@.len() as int),
                self.pending() == init.pending().skip(drained@.len() as int),
                self.delivered() == init.delivered() + drained@,
                forall|i: int| 0 <= i < wid ==> !self.worker_running(i),
            decreases n - wid,
        {
            while self.is_worker_running(wid)
                invariant
                    self.wf(),
                    wid < n,
                    n == self.size(),
                    n == init.size(),
                    !self.sender_live(),
                    self.sent() == init.sent(),
                    drained@.len() <= init.pending().len(),
                    drained@ == init.pending().take(drained@.len() as int),
                    self.pending() == init.pending().skip(drained@.len() as int),
                    self.delivered() == init.delivered() + drained@,
                    forall|i: int| 0 <= i < wid ==> !self.worker_running(i),
                decreases
                        self.pending().len() + (if self.worker_running(wid as int) {
                            1int
                        } else {
                            0int
                        }),
            {
                let ghost k: int = drained@.len() as int;
                let ghost prev = *self;
                let a = self.worker_receive(wid);
                proof {
                    assert forall|i: int| 0 <= i < wid implies !self.worker_running(i) by {
                        assert(!prev.worker_running(i));
                        assert(self.workers_seq()[i] == prev.workers_seq()[i]);
                    }
                }
                match a {
                    WorkerAction::Run(job) => {
                        proof {
                            assert(init.pending().skip(k)[0] == init.pending()[k]);
                            assert(init.pending().take(k + 1) =~= init.pending().take(k).push(
                                init.pending()[k],
                            ));
                            assert(init.pending().skip(k + 1) =~= init.pending().skip(k).skip(1));
                            assert(init.delivered() + drained@.push(init.pending()[k])
                                =~= (init.delivered() + drained@).push(init.pending()[k]));
                        }
                        drained.push(job);
                    }
                    WorkerAction::Wait => {
                        proof {
                            assert(false);
                        }
                    }
                    WorkerAction::Exit => {},
                }
            }
            proof {
                assert(!self.worker_running(wid as int));
                assert(forall|i: int| 0 <= i < wid + 1 ==> !self.worker_running(i));
            }
            wid += 1;
        }
        proof {
            assert(!self.worker_running(0));
            assert(self.some_worker_stopped());
            assert(self.pending().len() == 0);
            assert(drained@.len() == init.pending().len()) by {
                assert(init.pending().skip(drained@.len() as int).len() == 0);
            };
            assert(drained@ =~= init.pending());
            crate::queue::lemma_fifo_exactly_once(&init.queue);
            assert(self.delivered() =~= init.sent());
        }
        drained
    }
}

/// No worker stops while work remains: once any worker of a well-formed pool
/// has terminated, shutdown has begun (the sender is retired) and every job
/// submitted before shutdown has already been delivered — none is pending.
/// A worker terminates only on the closed-signal, which the queue emits only
/// once it is closed and drained.
pub proof fn lemma_stopped_worker_means_drained<J>(pool: &ThreadPool<J>, i: int)
    requires
        pool.wf(),
        0 <= i < pool.size(),
        !pool.worker_running(i),
    ensures
        !pool.sender_live(),
        pool.pending().len() == 0,
{
    assert(pool.some_worker_stopped());
}

/// Each delivered job was handed to exactly one worker: the pool's
/// assignment record names, for each position of the delivery history, the
/// one (existing) worker that received that job, and every worker's
/// execution history is exactly its share of the delivery history under
/// that record — position `k` contributes its job to worker
/// `assignments()[k]` and to no other.
pub proof fn lemma_one_worker_per_job<J>(pool: &ThreadPool<J>)
    requires
        pool.wf(),
    ensures
        pool.assignments().len() == pool.delivered().len(),
        forall|k: int| 0 <= k < pool.assignments().len() ==> pool.assignments()[k] < pool.size(),
        forall|i: int|
            0 <= i < pool.size() ==> #[trigger] pool.worker_executed(i) == delivered_to(
                pool.delivered(),
                pool.assignments(),
                i,
            ),
{
}

/// First-in-first-out, exactly-once delivery, seen at the pool: the jobs
/// handed to workers so far are exactly the oldest submitted jobs, in
/// submission order, and the jobs still pending are exactly the remaining
/// ones, in submission order. No submitted job is delivered twice, none is
/// skipped over, and the i-th delivered job is the i-th submitted job.
pub proof fn lemma_pool_fifo_exactly_once<J>(pool: &ThreadPool<J>)
    requires
        pool.wf(),
    ensures
        pool.sent() == pool.delivered() + pool.pending(),
        pool.delivered().len() + pool.pending().len() == pool.sent().len(),
        pool.delivered() == pool.sent().take(pool.delivered().len() as int),
        pool.pending() == pool.sent().skip(pool.delivered().len() as int),
        forall|i: int|
            0 <= i < pool.delivered().len() ==> pool.delivered()[i] == pool.sent()[i],
{
    crate::queue::lemma_fifo_exactly_once(&pool.queue);
}

} // verus!
