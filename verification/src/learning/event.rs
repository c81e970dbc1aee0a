//! Learning events: the observations that feed learning strategies.

use vstd::prelude::*;
use crate::text::owned;
use crate::types::{now, Timestamp};

verus! {

/// What kind of observation a learning event is.
#[derive(Debug, Clone, PartialEq, Eq)]
pub enum LearningEventKind {
    /// A task was completed successfully.
    TaskCompleted,
    /// A task failed.
    TaskFailed,
    /// Explicit feedback was provided (human or automated).
    FeedbackReceived,
    /// An agent selected a plan or strategy.
    PlanSelected,
    /// An agent escalated to its supervisor.
    Escalation,
    /// A provider was selected for a request.
    ProviderSelected,
    /// A custom learning-relevant event.
    Custom(String),
}

/// A learning-relevant event observed during agent operation.
#[derive(Debug, Clone)]
pub struct LearningEvent {
    /// What kind of observation this is.
    pub kind: LearningEventKind,
    /// The agent that produced or is associated with this event.
    pub agent_id: String,
    /// The task context, if any.
    pub task_id: Option<String>,
    /// The tenant this event belongs to.
    pub tenant_id: Option<String>,
    /// When the event occurred.
    pub timestamp: Timestamp,
    /// Structured data about the event.
    pub payload: serde_json::Value,
}

impl LearningEvent {
    /// A task-completed event, stamped now.
    pub fn task_completed(agent_id: &str, task_id: &str, payload: serde_json::Value) -> (r: Self)
        ensures
            r.kind == LearningEventKind::TaskCompleted,
            r.agent_id@ == agent_id@,
            r.task_id matches Some(t) && t@ == task_id@,
            r.tenant_id is None,
            r.payload == payload,
    {
        LearningEvent {
            kind: LearningEventKind::TaskCompleted,
            agent_id: owned(agent_id),
            task_id: Some(owned(task_id)),
            tenant_id: None,
            timestamp: now(),
            payload,
        }
    }

    /// A feedback-received event, stamped now.
    pub fn feedback(agent_id: &str, payload: serde_json::Value) -> (r: Self)
        ensures
            r.kind == LearningEventKind::FeedbackReceived,
            r.agent_id@ == agent_id@,
            r.task_id is None,
            r.tenant_id is None,
            r.payload == payload,
    {
        LearningEvent {
            kind: LearningEventKind::FeedbackReceived,
            agent_id: owned(agent_id),
            task_id: None,
            tenant_id: None,
            timestamp: now(),
            payload,
        }
    }
}

} // verus!
