//! The push side of the engine: workers, the manager that owns them, the
//! runner loop a worker executes, and the controller that schedules work.

pub mod priorisation;
pub mod thread_runner;
pub mod thread_manager;
pub mod worker_controller;
pub mod worker_thread;
