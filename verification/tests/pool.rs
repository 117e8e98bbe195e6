use http_server::pool::{PoolError, ThreadPool};
use http_server::queue::{JobQueue, Recv, SendError};
use http_server::worker::{Worker, WorkerAction};

#[test]
fn pool_has_requested_size() {
    let pool = ThreadPool::<u64>::new(1);
    assert_eq!(pool.worker_count(), 1);
    assert!(pool.is_worker_running(0));

    let pool = ThreadPool::<u64>::new(4);
    assert_eq!(pool.worker_count(), 4);
    for wid in 0..4 {
        assert!(pool.is_worker_running(wid));
    }
}

#[test]
fn zero_size_is_rejected() {
    let r = ThreadPool::<u64>::try_new(0);
    assert!(matches!(r, Err(PoolError::ZeroSize)));
}

#[test]
fn nonzero_size_is_accepted() {
    let r = ThreadPool::<u64>::try_new(3);
    let pool = r.unwrap();
    assert_eq!(pool.worker_count(), 3);
}

#[test]
fn fifo_with_a_single_worker() {
    let mut pool = ThreadPool::<u64>::new(1);
    assert!(pool.execute(1).is_ok());
    assert!(pool.execute(2).is_ok());
    assert!(pool.execute(3).is_ok());

    let mut log: Vec<u64> = Vec::new();
    for _ in 0..3 {
        match pool.worker_receive(0) {
            WorkerAction::Run(job) => log.push(job),
            _ => panic!("expected a job"),
        }
    }
    assert_eq!(log, vec![1, 2, 3]);
}

#[test]
fn all_jobs_run_once_with_three_workers() {
    let mut pool = ThreadPool::<u64>::new(3);
    assert!(pool.execute(1).is_ok());
    assert!(pool.execute(2).is_ok());
    assert!(pool.execute(3).is_ok());

    let mut log: Vec<u64> = Vec::new();
    for wid in 0..3 {
        match pool.worker_receive(wid) {
            WorkerAction::Run(job) => log.push(job),
            _ => panic!("expected a job"),
        }
    }
    log.sort();
    assert_eq!(log, vec![1, 2, 3]);
}

#[test]
fn shutdown_runs_all_pending_jobs() {
    let mut pool = ThreadPool::<u64>::new(2);
    for job in 1..=5 {
        assert!(pool.execute(job).is_ok());
    }
    let drained = pool.shutdown();
    assert_eq!(drained, vec![1, 2, 3, 4, 5]);
    for wid in 0..2 {
        assert!(!pool.is_worker_running(wid));
    }
}

#[test]
fn shutdown_without_jobs_terminates() {
    let mut pool = ThreadPool::<u64>::new(3);
    let drained = pool.shutdown();
    assert!(drained.is_empty());
    for wid in 0..3 {
        assert!(!pool.is_worker_running(wid));
    }
}

#[test]
fn shutdown_after_all_jobs_were_taken() {
    let mut pool = ThreadPool::<u64>::new(1);
    assert!(pool.execute(7).is_ok());
    assert!(pool.execute(8).is_ok());
    assert!(matches!(pool.worker_receive(0), WorkerAction::Run(7)));
    assert!(matches!(pool.worker_receive(0), WorkerAction::Run(8)));
    let drained = pool.shutdown();
    assert!(drained.is_empty());
    assert!(!pool.is_worker_running(0));
}

#[test]
fn shutdown_twice_is_harmless() {
    let mut pool = ThreadPool::<u64>::new(2);
    assert!(pool.execute(1).is_ok());
    let first = pool.shutdown();
    assert_eq!(first, vec![1]);
    let second = pool.shutdown();
    assert!(second.is_empty());
}

#[test]
fn execute_after_shutdown_fails() {
    let mut pool = ThreadPool::<u64>::new(2);
    pool.begin_shutdown();
    assert!(matches!(pool.execute(9), Err(SendError::Closed)));
}

#[test]
fn begin_shutdown_is_idempotent() {
    let mut pool = ThreadPool::<u64>::new(2);
    assert!(pool.execute(1).is_ok());
    pool.begin_shutdown();
    pool.begin_shutdown();
    let drained = pool.shutdown();
    assert_eq!(drained, vec![1]);
}

#[test]
fn worker_waits_while_queue_is_open_and_empty() {
    let mut pool = ThreadPool::<u64>::new(1);
    assert!(matches!(pool.worker_receive(0), WorkerAction::Wait));
    assert!(pool.is_worker_running(0));
}

#[test]
fn worker_exits_on_closed_empty_queue() {
    let mut pool = ThreadPool::<u64>::new(1);
    pool.begin_shutdown();
    assert!(matches!(pool.worker_receive(0), WorkerAction::Exit));
    assert!(!pool.is_worker_running(0));
}

#[test]
fn mixed_lifecycle() {
    let mut pool = ThreadPool::<u64>::new(2);
    assert!(pool.execute(1).is_ok());
    assert!(pool.execute(2).is_ok());
    assert!(matches!(pool.worker_receive(1), WorkerAction::Run(1)));
    assert!(pool.execute(3).is_ok());
    assert!(matches!(pool.worker_receive(0), WorkerAction::Run(2)));
    assert!(pool.execute(4).is_ok());
    let drained = pool.shutdown();
    assert_eq!(drained, vec![3, 4]);
    assert!(!pool.is_worker_running(0));
    assert!(!pool.is_worker_running(1));
    assert!(matches!(pool.execute(5), Err(SendError::Closed)));
}

#[test]
fn worker_lifecycle() {
    let mut worker = Worker::<u64>::new(3);
    assert_eq!(worker.id(), 3);
    assert!(worker.running());
    assert!(matches!(worker.on_receive(Recv::Job(7)), WorkerAction::Run(7)));
    assert!(worker.running());
    assert!(matches!(worker.on_receive(Recv::WouldBlock), WorkerAction::Wait));
    assert!(worker.running());
    assert!(matches!(worker.on_receive(Recv::ClosedSignal), WorkerAction::Exit));
    assert!(!worker.running());
}

#[test]
fn queue_delivers_in_submission_order() {
    let mut queue = JobQueue::<u64>::new();
    assert!(queue.send(10).is_ok());
    assert!(queue.send(20).is_ok());
    assert!(matches!(queue.receive(), Recv::Job(10)));
    assert!(matches!(queue.receive(), Recv::Job(20)));
    assert!(matches!(queue.receive(), Recv::WouldBlock));
}

#[test]
fn queue_signals_closure_only_after_draining() {
    let mut queue = JobQueue::<u64>::new();
    assert!(queue.send(1).is_ok());
    queue.close();
    assert!(matches!(queue.receive(), Recv::Job(1)));
    assert!(matches!(queue.receive(), Recv::ClosedSignal));
    assert!(matches!(queue.receive(), Recv::ClosedSignal));
}

#[test]
fn queue_send_after_close_fails() {
    let mut queue = JobQueue::<u64>::new();
    queue.close();
    assert!(matches!(queue.send(5), Err(SendError::Closed)));
}
