//! Controlled learning: the scopes learning runs in, the events it
//! observes, the outputs it produces with their review lifecycle, where those
//! outputs are kept, and the built-in execution-template strategy.

pub mod event;
pub mod output;
pub mod scope;
pub mod store;
pub mod strategy;
