//! The memory subsystem: entries and their scopes, access rules, retention
//! policies, queries and the in-memory backend.

pub mod access;
pub mod entry;
pub mod in_memory;
pub mod query;
pub mod retention;
