//! The queue used for task distribution across workers, together with the
//! capability-split accessors that watch over it.

pub mod limit_queue;
pub mod read_accessor;
