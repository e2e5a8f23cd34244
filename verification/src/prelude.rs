//! One import for the whole user surface: the source adapters, the bulk
//! operations and the task queue.

pub use crate::iterators::iterator::{AtomicIterator, IntoParallelIter, ParallelIter};
pub use crate::for_each::ParallelForEachIter;
pub use crate::map::ParallelMapIter;
pub use crate::task_queue::TaskQueue;
