//! The orchestration engine: agent registry, priority task queue, capability
//! scheduler, supervision tree and the control state that ties them together.

pub mod control;
pub mod registry;
pub mod scheduler;
pub mod supervision;
pub mod task_queue;
pub mod task_store;
