//! The event model: what happened in the swarm, wrapped in envelopes that
//! carry routing and audit metadata.

use vstd::prelude::*;
use crate::identity::{random_uuid, AgentId, PluginId, TaskId};
use crate::text::owned;
use crate::types::{now, Timestamp};

verus! {

/// The discriminant describing what happened.
#[derive(Debug, Clone)]
pub enum EventKind {
    /// An agent was registered with the orchestrator.
    AgentRegistered { agent_id: AgentId, name: String },
    /// An agent's status changed.
    AgentStatusChanged { agent_id: AgentId, previous: String, current: String },
    /// An agent was deregistered.
    AgentDeregistered { agent_id: AgentId },
    /// A task was submitted to the orchestrator.
    TaskSubmitted { task_id: TaskId, name: String },
    /// A task was assigned to an agent.
    TaskScheduled { task_id: TaskId, agent_id: AgentId },
    /// A task began execution.
    TaskStarted { task_id: TaskId, agent_id: AgentId },
    /// A task completed successfully.
    TaskCompleted { task_id: TaskId },
    /// A task failed.
    TaskFailed { task_id: TaskId, reason: String },
    /// A task was cancelled.
    TaskCancelled { task_id: TaskId },
    /// A task timed out.
    TaskTimedOut { task_id: TaskId },
    /// A policy was evaluated.
    PolicyEvaluated { action: String, subject: String, decision: String },
    /// A plugin was loaded and initialized.
    PluginLoaded { plugin_id: PluginId, name: String },
    /// A plugin was unloaded.
    PluginUnloaded { plugin_id: PluginId, name: String },
    /// A plugin emitted a custom domain event.
    PluginEvent { plugin_id: PluginId, payload: serde_json::Value },
    /// The orchestrator started.
    OrchestratorStarted,
    /// The orchestrator is shutting down.
    OrchestratorShuttingDown,
}

/// An observed event wrapped with routing and audit metadata.
#[derive(Debug, Clone)]
pub struct EventEnvelope {
    /// Unique event identifier (the 128-bit value of a UUID).
    pub id: u128,
    /// When the event was produced.
    pub timestamp: Timestamp,
    /// The event payload.
    pub kind: EventKind,
    /// Optional correlation identifier linking related events.
    pub correlation_id: Option<u128>,
    /// Optional source label.
    pub source: Option<String>,
}

/// Type alias kept for ergonomic use at call sites.
pub type Event = EventEnvelope;

impl EventEnvelope {
    /// Wrap an event kind in an envelope with a fresh random identifier and
    /// the current time, without correlation or source.
    pub fn new(kind: EventKind) -> (r: Self)
        ensures
            r.kind == kind,
            r.correlation_id.is_none(),
            r.source.is_none(),
    {
        EventEnvelope {
            id: random_uuid(),
            timestamp: now(),
            kind,
            correlation_id: None,
            source: None,
        }
    }

    /// Attach a correlation identifier to this envelope.
    pub fn with_correlation(self, id: u128) -> (r: Self)
        ensures
            r.correlation_id == Some(id),
            r.id == self.id,
            r.timestamp == self.timestamp,
            r.kind == self.kind,
            r.source == self.source,
    {
        EventEnvelope { correlation_id: Some(id), ..self }
    }

    /// Attach a source label to this envelope.
    pub fn with_source(self, source: &str) -> (r: Self)
        ensures
            r.source matches Some(s) && s@ == source@,
            r.id == self.id,
            r.timestamp == self.timestamp,
            r.kind == self.kind,
            r.correlation_id == self.correlation_id,
    {
        EventEnvelope { source: Some(owned(source)), ..self }
    }
}

} // verus!
