//! The decisions behind the `swarm` command line: its arguments, how it
//! reads scopes, statuses, priorities and filters, how it picks persisted
//! tasks to process or retry, and how it reasons about self-updates.

pub mod args;
pub mod learning;
pub mod role;
pub mod task;
pub mod update;
pub mod workers;
