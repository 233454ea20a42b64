//! A fixed-size worker pool, kept as a verified state machine.
//!
//! The pool accepts jobs from any number of producers and hands each of them
//! to exactly one of a fixed set of workers, in the order of submission. On
//! shutdown it takes no more jobs, lets the accepted ones run to their end,
//! and stops when the last worker has left its loop.
//!
//! The library holds every decision of that protocol and no thread: a caller
//! brings the threads, a lock and a way to wait, and does what the pool tells
//! it. That keeps the whole protocol in reach of proof. `model` states it as
//! a state machine, `laws` proves what holds of all its histories, and
//! `queue`, `worker` and `pool` are the executable parts, each call of which
//! is one step of the machine.
//!
//! Beside the pool stand the two small programs it serves: `search` finds
//! the lines of a text that hold a query, and `http` decides what a tiny web
//! server answers. `text` holds what both need to say about strings.

pub mod http;
pub mod laws;
pub mod model;
pub mod pool;
pub mod queue;
pub mod search;
pub mod text;
pub mod worker;

pub use model::{Event, PoolState, PoolView, WorkerView};
pub use pool::{FatalConfigError, SubmissionError, ThreadPool};
pub use queue::{Delivery, SharedQueue};
pub use search::Config;
pub use worker::{JobOutcome, Worker, WorkerAction, WorkerState};
