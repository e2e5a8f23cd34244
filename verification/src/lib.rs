//! A data-parallelism engine built around three cooperating pieces: a
//! per-source chunk dispenser, a per-worker limit-access queue with a
//! capability-split pair of accessors, and a controller that distributes,
//! rebalances and joins work.
//!
//! The queue operations, the dispensers, the scheduling decisions and the
//! bulk `map` / `for_each` drivers live here with machine-checked contracts.
//! The OS-thread runtime that executes the same protocol concurrently sits
//! outside the verified core.

pub mod accessors;
pub mod collector;
pub mod errors;
pub mod for_each;
pub mod for_each_mut;
pub mod iterator;
pub mod iterators;
pub mod map;
pub mod parallel_task;
pub mod prelude;
pub mod push_workers;
pub mod task_queue;
pub mod utils;
pub mod worker_thread;
