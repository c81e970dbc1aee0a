//! The task domain model: specifications, priorities and the lifecycle state
//! machine `Pending → Scheduled → Running → terminal`.

use vstd::prelude::*;
use crate::capability::{CapabilitySet, CapabilityView};
use crate::error::SwarmError;
use crate::identity::{AgentId, TaskId};
use crate::text::{is_blank, owned, trim_spec};
use crate::types::{now, Metadata, RetryPolicy, Timestamp};

verus! {

/// The execution priority of a task; higher priorities are scheduled first.
#[derive(Debug, Clone, Copy, PartialEq, Eq, PartialOrd, Ord, Hash, Structural)]
pub enum TaskPriority {
    /// Lowest priority — background or maintenance tasks.
    Low,
    /// Default priority for most tasks.
    Normal,
    /// High-priority tasks scheduled ahead of `Normal`.
    High,
    /// Critical tasks — executed as soon as possible.
    Critical,
}

impl TaskPriority {
    /// The numeric level of a priority: 0 (low) to 3 (critical).
    pub open spec fn rank(self) -> int {
        match self {
            TaskPriority::Low => 0,
            TaskPriority::Normal => 1,
            TaskPriority::High => 2,
            TaskPriority::Critical => 3,
        }
    }

    /// The numeric level of this priority.
    pub fn level(&self) -> (r: u8)
        ensures
            r as int == self.rank(),
    {
        match self {
            TaskPriority::Low => 0,
            TaskPriority::Normal => 1,
            TaskPriority::High => 2,
            TaskPriority::Critical => 3,
        }
    }
}

impl Default for TaskPriority {
    fn default() -> (r: Self)
        ensures
            r == TaskPriority::Normal,
    {
        TaskPriority::Normal
    }
}

/// The current lifecycle state of a task.
#[derive(Debug, Clone, PartialEq)]
pub enum TaskStatus {
    /// Accepted but not yet assigned to an agent.
    Pending,
    /// Assigned to an agent and waiting to start.
    Scheduled {
        /// The agent the task is scheduled on.
        assigned_to: AgentId,
    },
    /// Actively executing on an agent.
    Running {
        /// The agent running the task.
        executing_on: AgentId,
        /// When execution began.
        started_at: Timestamp,
    },
    /// Completed successfully.
    Completed {
        /// When the task completed.
        completed_at: Timestamp,
        /// The output produced by the agent.
        output: serde_json::Value,
    },
    /// Failed after exhausting retries.
    Failed {
        /// When the failure was recorded.
        failed_at: Timestamp,
        /// Human-readable description of the failure.
        reason: String,
        /// Number of attempts that were made.
        attempts: u32,
    },
    /// Explicitly cancelled by an operator or parent agent.
    Cancelled {
        /// When cancellation was requested.
        cancelled_at: Timestamp,
        /// Optional reason for cancellation.
        reason: Option<String>,
    },
    /// Exceeded its configured timeout.
    TimedOut {
        /// When the timeout was detected.
        timed_out_at: Timestamp,
    },
}

/// The stable label of each lifecycle state.
pub open spec fn status_label(s: TaskStatus) -> Seq<char> {
    match s {
        TaskStatus::Pending => "pending"@,
        TaskStatus::Scheduled { .. } => "scheduled"@,
        TaskStatus::Running { .. } => "running"@,
        TaskStatus::Completed { .. } => "completed"@,
        TaskStatus::Failed { .. } => "failed"@,
        TaskStatus::Cancelled { .. } => "cancelled"@,
        TaskStatus::TimedOut { .. } => "timed_out"@,
    }
}

/// Whether a state is terminal: no further transitions are possible.
pub open spec fn is_terminal_spec(s: TaskStatus) -> bool {
    s is Completed || s is Failed || s is Cancelled || s is TimedOut
}

/// Whether a state may be returned to `Pending` by a retry.
pub open spec fn can_retry_spec(s: TaskStatus) -> bool {
    s is Failed || s is Cancelled || s is TimedOut
}

impl TaskStatus {
    /// Returns `true` if the task has reached a terminal state.
    pub fn is_terminal(&self) -> (r: bool)
        ensures
            r == is_terminal_spec(*self),
    {
        match self {
            TaskStatus::Completed { .. } | TaskStatus::Failed { .. } | TaskStatus::Cancelled {
                ..
            } | TaskStatus::TimedOut { .. } => true,
            _ => false,
        }
    }

    /// Returns `true` if the task may be retried (failed, cancelled or timed out).
    pub fn can_retry(&self) -> (r: bool)
        ensures
            r == can_retry_spec(*self),
    {
        match self {
            TaskStatus::Failed { .. } | TaskStatus::Cancelled { .. } | TaskStatus::TimedOut {
                ..
            } => true,
            _ => false,
        }
    }

    /// Returns a short, stable string label.
    pub fn label(&self) -> (r: &'static str)
        ensures
            r@ == status_label(*self),
    {
        proof {
            reveal_strlit("pending");
            reveal_strlit("scheduled");
            reveal_strlit("running");
            reveal_strlit("completed");
            reveal_strlit("failed");
            reveal_strlit("cancelled");
            reveal_strlit("timed_out");
        }
        match self {
            TaskStatus::Pending => "pending",
            TaskStatus::Scheduled { .. } => "scheduled",
            TaskStatus::Running { .. } => "running",
            TaskStatus::Completed { .. } => "completed",
            TaskStatus::Failed { .. } => "failed",
            TaskStatus::Cancelled { .. } => "cancelled",
            TaskStatus::TimedOut { .. } => "timed_out",
        }
    }

    /// A copy of this status.
    pub fn duplicate(&self) -> (r: TaskStatus)
        ensures
            r == *self,
    {
        match self {
            TaskStatus::Pending => TaskStatus::Pending,
            TaskStatus::Scheduled { assigned_to } => TaskStatus::Scheduled {
                assigned_to: *assigned_to,
            },
            TaskStatus::Running { executing_on, started_at } => TaskStatus::Running {
                executing_on: *executing_on,
                started_at: *started_at,
            },
            TaskStatus::Completed { completed_at, output } => TaskStatus::Completed {
                completed_at: *completed_at,
                output: output.clone(),
            },
            TaskStatus::Failed { failed_at, reason, attempts } => TaskStatus::Failed {
                failed_at: *failed_at,
                reason: reason.clone(),
                attempts: *attempts,
            },
            TaskStatus::Cancelled { cancelled_at, reason } => TaskStatus::Cancelled {
                cancelled_at: *cancelled_at,
                reason: match reason {
                    Some(s) => Some(s.clone()),
                    None => None,
                },
            },
            TaskStatus::TimedOut { timed_out_at } => TaskStatus::TimedOut {
                timed_out_at: *timed_out_at,
            },
        }
    }
}

/// Terminal states and retryable states: every retryable state is terminal,
/// and the only terminal state that cannot be retried is `Completed`.
pub proof fn lemma_retryable_iff_terminal_not_completed(s: TaskStatus)
    ensures
        can_retry_spec(s) == (is_terminal_spec(s) && !(s is Completed)),
{
}

/// The specification describing what a task should do.
#[derive(Debug)]
pub struct TaskSpec {
    /// Human-readable name for display and logging purposes.
    pub name: String,
    /// Domain-specific input payload (free-form JSON).
    pub input: serde_json::Value,
    /// Capabilities that the assigned agent must possess.
    pub required_capabilities: CapabilitySet,
    /// Execution priority hint for the scheduler.
    pub priority: TaskPriority,
    /// Optional maximum wall-clock time for the task, in milliseconds.
    pub timeout: Option<u64>,
    /// Retry policy to apply on transient failures.
    pub retry_policy: RetryPolicy,
    /// Arbitrary metadata labels.
    pub metadata: Metadata,
}

/// Whether two task specifications hold the same values.
pub open spec fn same_spec(a: TaskSpec, b: TaskSpec) -> bool {
    &&& a.name@ == b.name@
    &&& a.input == b.input
    &&& a.required_capabilities@ == b.required_capabilities@
    &&& a.priority == b.priority
    &&& a.timeout == b.timeout
    &&& a.retry_policy == b.retry_policy
    &&& a.metadata@ == b.metadata@
}

/// Whether a task name is acceptable: not empty once trimmed.
pub open spec fn valid_task_name(name: Seq<char>) -> bool {
    trim_spec(name).len() > 0
}

impl TaskSpec {
    /// A minimal task specification: no required capabilities, normal
    /// priority, a five-minute timeout, the default retry policy and no
    /// metadata.
    pub fn new(name: &str, input: serde_json::Value) -> (r: Self)
        ensures
            r.name@ == name@,
            r.input == input,
            r.required_capabilities@ == Seq::<CapabilityView>::empty(),
            r.priority == TaskPriority::Normal,
            r.timeout == Some(300_000u64),
            r.retry_policy == RetryPolicy::spec_default(),
            r.metadata@ == Map::<Seq<char>, Seq<char>>::empty(),
    {
        TaskSpec {
            name: owned(name),
            input,
            required_capabilities: CapabilitySet::new(),
            priority: TaskPriority::Normal,
            timeout: Some(300_000),
            retry_policy: RetryPolicy::default_policy(),
            metadata: Metadata::new(),
        }
    }

    /// Check the specification: the task name must not be blank.
    pub fn validate(&self) -> (r: Result<(), SwarmError>)
        ensures
            r.is_ok() == valid_task_name(self.name@),
            r matches Err(e) ==> (e matches SwarmError::InvalidTaskSpec { reason } && reason@
                == "task name must not be empty"@),
    {
        if is_blank(self.name.as_str()) {
            proof {
                reveal_strlit("task name must not be empty");
            }
            Err(SwarmError::InvalidTaskSpec { reason: owned("task name must not be empty") })
        } else {
            Ok(())
        }
    }

    /// A copy of this specification.
    pub fn duplicate(&self) -> (r: TaskSpec)
        ensures
            same_spec(r, *self),
    {
        TaskSpec {
            name: self.name.clone(),
            input: self.input.clone(),
            required_capabilities: self.required_capabilities.duplicate(),
            priority: self.priority,
            timeout: self.timeout,
            retry_policy: self.retry_policy.duplicate(),
            metadata: self.metadata.duplicate(),
        }
    }
}

/// A fully instantiated task: its specification, lifecycle status and audit
/// timestamps.
#[derive(Debug)]
pub struct Task {
    /// Unique task identifier.
    pub id: TaskId,
    /// The specification describing what the task should do.
    pub spec: TaskSpec,
    /// Current lifecycle status.
    pub status: TaskStatus,
    /// When the task was first submitted.
    pub created_at: Timestamp,
    /// When the task record was last updated.
    pub updated_at: Timestamp,
    /// Number of execution attempts so far (including the current one).
    pub attempt_count: u32,
}

/// Whether two tasks hold the same values.
pub open spec fn same_task(a: Task, b: Task) -> bool {
    &&& a.id == b.id
    &&& same_spec(a.spec, b.spec)
    &&& a.status == b.status
    &&& a.created_at == b.created_at
    &&& a.updated_at == b.updated_at
    &&& a.attempt_count == b.attempt_count
}

impl Task {
    /// Create a new task in the `Pending` state with a fresh identifier.
    pub fn new(spec: TaskSpec) -> (r: Self)
        ensures
            r.spec == spec,
            r.status == TaskStatus::Pending,
            r.created_at == r.updated_at,
            r.attempt_count == 0,
    {
        let t = now();
        Task { id: TaskId::new(), spec, status: TaskStatus::Pending, created_at: t, updated_at: t, attempt_count: 0 }
    }

    /// Transition to `Scheduled` on the given agent. Only a `Pending` task can
    /// be scheduled; otherwise the task is left unchanged and its current
    /// status is returned as the error.
    pub fn schedule(&mut self, agent_id: AgentId) -> (r: Result<(), TaskStatus>)
        ensures
            old(self).status is Pending ==> {
                &&& r is Ok
                &&& final(self).status == (TaskStatus::Scheduled { assigned_to: agent_id })
                &&& final(self).id == old(self).id
                &&& final(self).spec == old(self).spec
                &&& final(self).created_at == old(self).created_at
                &&& final(self).attempt_count == old(self).attempt_count
            },
            !(old(self).status is Pending) ==> r == Err::<(), TaskStatus>(old(self).status)
                && *final(self) == *old(self),
    {
        if !matches!(self.status, TaskStatus::Pending) {
            return Err(self.status.duplicate());
        }
        self.status = TaskStatus::Scheduled { assigned_to: agent_id };
        self.updated_at = now();
        Ok(())
    }

    /// Transition to `Running` on the given agent, counting one more attempt.
    /// Only a `Scheduled` task can start; otherwise nothing changes and the
    /// current status is returned as the error.
    pub fn start_running(&mut self, agent_id: AgentId) -> (r: Result<(), TaskStatus>)
        requires
            old(self).attempt_count < u32::MAX,
        ensures
            old(self).status is Scheduled ==> {
                &&& r is Ok
                &&& final(self).status matches TaskStatus::Running { executing_on, .. }
                    && executing_on == agent_id
                &&& final(self).attempt_count == old(self).attempt_count + 1
                &&& final(self).id == old(self).id
                &&& final(self).spec == old(self).spec
                &&& final(self).created_at == old(self).created_at
            },
            !(old(self).status is Scheduled) ==> r == Err::<(), TaskStatus>(old(self).status)
                && *final(self) == *old(self),
    {
        if !matches!(self.status, TaskStatus::Scheduled { .. }) {
            return Err(self.status.duplicate());
        }
        self.attempt_count = self.attempt_count + 1;
        self.status = TaskStatus::Running { executing_on: agent_id, started_at: now() };
        self.updated_at = now();
        Ok(())
    }

    /// Mark the task as completed with the given output. A task already in a
    /// terminal state is immutable and stays as it is.
    pub fn complete(&mut self, output: serde_json::Value)
        ensures
            is_terminal_spec(old(self).status) ==> *final(self) == *old(self),
            !is_terminal_spec(old(self).status) ==> (final(self).status matches TaskStatus::Completed { completed_at, output: o }
                && o == output && completed_at == final(self).updated_at),
            final(self).id == old(self).id,
            final(self).spec == old(self).spec,
            final(self).created_at == old(self).created_at,
            final(self).attempt_count == old(self).attempt_count,
    {
        if self.status.is_terminal() {
            return;
        }
        let t = now();
        self.status = TaskStatus::Completed { completed_at: t, output };
        self.updated_at = t;
    }

    /// Mark the task as failed, recording the attempts made so far. A task
    /// already in a terminal state is immutable and stays as it is.
    pub fn fail(&mut self, reason: String)
        ensures
            is_terminal_spec(old(self).status) ==> *final(self) == *old(self),
            !is_terminal_spec(old(self).status) ==> (final(self).status matches TaskStatus::Failed { failed_at, reason: why, attempts }
                && why == reason && attempts == old(self).attempt_count
                && failed_at == final(self).updated_at),
            final(self).id == old(self).id,
            final(self).spec == old(self).spec,
            final(self).created_at == old(self).created_at,
            final(self).attempt_count == old(self).attempt_count,
    {
        if self.status.is_terminal() {
            return;
        }
        let t = now();
        self.status = TaskStatus::Failed { failed_at: t, reason, attempts: self.attempt_count };
        self.updated_at = t;
    }

    /// Mark the task as timed out. A task already in a terminal state is
    /// immutable and stays as it is.
    pub fn time_out(&mut self)
        ensures
            is_terminal_spec(old(self).status) ==> *final(self) == *old(self),
            !is_terminal_spec(old(self).status) ==> (final(self).status matches TaskStatus::TimedOut { timed_out_at }
                && timed_out_at == final(self).updated_at),
            final(self).id == old(self).id,
            final(self).spec == old(self).spec,
            final(self).created_at == old(self).created_at,
            final(self).attempt_count == old(self).attempt_count,
    {
        if self.status.is_terminal() {
            return;
        }
        let t = now();
        self.status = TaskStatus::TimedOut { timed_out_at: t };
        self.updated_at = t;
    }

    /// Mark the task as cancelled. A task already in a terminal state is
    /// immutable and stays as it is.
    pub fn cancel(&mut self, reason: Option<String>)
        ensures
            is_terminal_spec(old(self).status) ==> *final(self) == *old(self),
            !is_terminal_spec(old(self).status) ==> (final(self).status matches TaskStatus::Cancelled { cancelled_at, reason: why }
                && why == reason && cancelled_at == final(self).updated_at),
            final(self).id == old(self).id,
            final(self).spec == old(self).spec,
            final(self).created_at == old(self).created_at,
            final(self).attempt_count == old(self).attempt_count,
    {
        if self.status.is_terminal() {
            return;
        }
        let t = now();
        self.status = TaskStatus::Cancelled { cancelled_at: t, reason };
        self.updated_at = t;
    }

    /// Return a failed, cancelled or timed-out task to `Pending`. Any other
    /// task is left unchanged and its current status is returned as the error.
    pub fn retry(&mut self) -> (r: Result<(), TaskStatus>)
        ensures
            can_retry_spec(old(self).status) ==> {
                &&& r is Ok
                &&& final(self).status == TaskStatus::Pending
                &&& final(self).id == old(self).id
                &&& final(self).spec == old(self).spec
                &&& final(self).created_at == old(self).created_at
                &&& final(self).attempt_count == old(self).attempt_count
            },
            !can_retry_spec(old(self).status) ==> r == Err::<(), TaskStatus>(old(self).status)
                && *final(self) == *old(self),
    {
        if !self.status.can_retry() {
            return Err(self.status.duplicate());
        }
        self.status = TaskStatus::Pending;
        self.updated_at = now();
        Ok(())
    }

    /// A copy of the task.
    pub fn duplicate(&self) -> (r: Task)
        ensures
            same_task(r, *self),
    {
        Task {
            id: self.id,
            spec: self.spec.duplicate(),
            status: self.status.duplicate(),
            created_at: self.created_at,
            updated_at: self.updated_at,
            attempt_count: self.attempt_count,
        }
    }
}

/// A task that was scheduled can be started, and one that was started can be
/// completed: the happy path reaches the terminal `Completed` state after one
/// attempt, whatever the task held before, as long as it was `Pending`.
pub proof fn lemma_happy_path_is_terminal(s: TaskStatus, output: serde_json::Value, at: Timestamp)
    ensures
        is_terminal_spec(TaskStatus::Completed { completed_at: at, output }),
        !is_terminal_spec(TaskStatus::Pending),
        !can_retry_spec(TaskStatus::Completed { completed_at: at, output }),
{
}

} // verus!
