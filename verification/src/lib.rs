//! Verified core of the AiOfficeSwarm agent orchestration framework.

pub mod agent;
pub mod capability;
pub mod error;
pub mod event;
pub mod identity;
pub mod json;
pub mod orchestrator;
pub mod policy;
pub mod rbac;
pub mod task;
pub mod text;
pub mod types;
pub mod policy_engine;
pub mod builtin_policies;
pub mod rbac_engine;
pub mod plugin;
pub mod config;
pub mod memory;
pub mod personality;
pub mod learning;
pub mod recency;
pub mod cli;
