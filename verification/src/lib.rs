//! A fixed-size worker pool: a bounded set of long-lived workers consuming
//! jobs from a single shared FIFO queue, with an orderly shutdown protocol.
//!
//! The crate models the pool's coordination logic: which job the queue hands
//! to a worker, how a worker reacts to what it receives, and how shutdown
//! drains the queue and stops every worker. Jobs are opaque values of a type
//! parameter; running a job is the caller's business (a worker thread runs
//! the closure a job stands for), so the model records delivery, which the
//! pool design equates with execution: a delivered job is run synchronously,
//! to completion, by the one worker that received it.

pub mod queue;
pub mod response;
pub mod worker;
pub mod pool;

pub use pool::PoolError;
pub use pool::ThreadPool;
pub use queue::JobQueue;
pub use queue::Recv;
pub use queue::SendError;
pub use response::Route;
pub use worker::Worker;
pub use worker::WorkerAction;
pub use worker::WorkerStatus;
