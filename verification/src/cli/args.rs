//! The arguments of the `swarm` sub-commands.

use vstd::prelude::*;

verus! {

/// Agent management arguments.
#[derive(Debug, Clone)]
pub struct AgentArgs {
    /// The agent sub-command.
    pub subcommand: AgentSubcommand,
}

/// Agent management sub-commands.
#[derive(Debug, Clone, Copy, PartialEq, Eq, Structural)]
pub enum AgentSubcommand {
    /// List all registered agents.
    List,
}

/// Plugin management arguments.
#[derive(Debug, Clone)]
pub struct PluginArgs {
    /// The plugin sub-command.
    pub subcommand: PluginSubcommand,
}

/// Plugin management sub-commands.
#[derive(Debug, Clone, Copy, PartialEq, Eq, Structural)]
pub enum PluginSubcommand {
    /// List all loaded plugins.
    List,
}

/// Config command arguments.
#[derive(Debug, Clone)]
pub struct ConfigArgs {
    /// Output format: text or json.
    pub format: String,
}

/// Metrics command arguments.
#[derive(Debug, Clone)]
pub struct MetricsArgs {
    /// Output format: text or json.
    pub format: String,
}

/// Demo command arguments.
#[derive(Debug, Clone)]
pub struct DemoArgs {
    /// Number of tasks to submit in the demo.
    pub task_count: usize,
}

/// Role management arguments.
#[derive(Debug, Clone)]
pub struct RoleArgs {
    /// The role sub-command.
    pub subcommand: RoleSubcommand,
}

/// Role management sub-commands.
#[derive(Debug, Clone)]
pub enum RoleSubcommand {
    /// List all roles that can be loaded from disk.
    List {
        /// Override the configured roles directory.
        dir: Option<String>,
    },
    /// Validate role definitions and print issues.
    Validate {
        /// Override the configured roles directory.
        dir: Option<String>,
        /// Fail when warnings are present in addition to hard errors.
        strict: bool,
    },
}

/// Self-update arguments.
#[derive(Debug, Clone)]
pub struct UpdateArgs {
    /// Only report whether an update is available.
    pub check: bool,
    /// Install a specific released version instead of the latest one.
    pub version: Option<String>,
}

/// Learning management arguments.
#[derive(Debug, Clone)]
pub struct LearningArgs {
    /// The learning sub-command.
    pub subcommand: LearningSubcommand,
}

/// Learning management sub-commands.
#[derive(Debug, Clone)]
pub enum LearningSubcommand {
    /// Show the effective learning governance posture from configuration.
    Inspect,
    /// List recorded learning outputs for a scope.
    List(LearningListArgs),
    /// List pending approval items from the persistent learning queue.
    Pending(LearningPendingArgs),
    /// Show a single learning output by ID.
    Get(LearningItemArgs),
    /// Approve a learning output.
    Approve(LearningActionArgs),
    /// Approve the learning outputs that match the given filters.
    ApproveBatch(LearningBatchActionArgs),
    /// Reject a learning output.
    Reject(LearningActionArgs),
    /// Reject the learning outputs that match the given filters.
    RejectBatch(LearningBatchActionArgs),
    /// Roll back a previously applied learning output.
    Rollback(LearningActionArgs),
    /// Roll back the learning outputs that match the given filters.
    RollbackBatch(LearningBatchActionArgs),
}

/// Arguments for listing learning outputs.
#[derive(Debug, Clone)]
pub struct LearningListArgs {
    /// Scope to inspect (agent, team, tenant, workflow, global).
    pub scope: Option<String>,
    /// Scope identifier for non-global scopes.
    pub scope_id: Option<String>,
    /// Optional category filter (for example `plan_template`).
    pub category: Option<String>,
    /// Optional status filter.
    pub status: Option<String>,
    /// Output format: text or json.
    pub format: String,
}

/// Arguments for listing pending learning outputs.
#[derive(Debug, Clone)]
pub struct LearningPendingArgs {
    /// Scope to inspect (agent, team, tenant, workflow, global).
    pub scope: Option<String>,
    /// Scope identifier for non-global scopes.
    pub scope_id: Option<String>,
    /// Optional category filter (for example `plan_template`).
    pub category: Option<String>,
    /// Output format: text or json.
    pub format: String,
}

/// Arguments for showing a learning output.
#[derive(Debug, Clone)]
pub struct LearningItemArgs {
    /// Learning output ID.
    pub id: String,
    /// Output format: text or json.
    pub format: String,
}

/// Arguments for updating a learning output's lifecycle state.
#[derive(Debug, Clone)]
pub struct LearningActionArgs {
    /// Learning output ID.
    pub id: String,
}

/// Arguments for batch lifecycle updates.
#[derive(Debug, Clone)]
pub struct LearningBatchActionArgs {
    /// Scope to inspect (agent, team, tenant, workflow, global).
    pub scope: Option<String>,
    /// Scope identifier for non-global scopes.
    pub scope_id: Option<String>,
    /// Optional category filter (for example `plan_template`).
    pub category: Option<String>,
    /// Optional status filter.
    pub status: Option<String>,
    /// Output format: text or json.
    pub format: String,
}

/// Task management arguments.
#[derive(Debug, Clone)]
pub struct TaskArgs {
    /// The task sub-command.
    pub subcommand: TaskSubcommand,
}

/// Task management sub-commands.
#[derive(Debug, Clone)]
pub enum TaskSubcommand {
    /// List locally persisted tasks.
    List(TaskListArgs),
    /// Submit a new task into the local persistent task store.
    Submit(TaskSubmitArgs),
    /// Process pending persisted tasks with built-in local workers.
    Process(TaskProcessArgs),
    /// Return a retryable persisted task to the pending state.
    Retry(TaskRetryArgs),
    /// Return several retryable persisted tasks to the pending state.
    RetryBatch(TaskRetryBatchArgs),
    /// Show a single persisted task.
    Status(TaskStatusArgs),
    /// Cancel a pending persisted task.
    Cancel(TaskCancelArgs),
}

/// Arguments for listing persisted tasks.
#[derive(Debug, Clone)]
pub struct TaskListArgs {
    /// Filter by lifecycle status.
    pub status: Option<String>,
    /// Output format: text or json.
    pub format: String,
}

/// Arguments for creating a persisted task.
#[derive(Debug, Clone)]
pub struct TaskSubmitArgs {
    /// Task name.
    pub name: String,
    /// JSON input payload.
    pub input: String,
    /// Priority: low, normal, high, critical.
    pub priority: String,
    /// Required capabilities.
    pub capabilities: Vec<String>,
    /// Metadata entries in key=value form.
    pub metadata: Vec<String>,
    /// Timeout in seconds; 0 disables the timeout.
    pub timeout_secs: Option<u64>,
    /// Output format: text or json.
    pub format: String,
}

/// Arguments for processing persisted tasks.
#[derive(Debug, Clone)]
pub struct TaskProcessArgs {
    /// Maximum number of pending tasks to process in this invocation.
    pub limit: Option<usize>,
    /// Number of built-in local workers to register.
    pub workers: usize,
    /// Output format: text or json.
    pub format: String,
}

/// Arguments for retrying a persisted task.
#[derive(Debug, Clone)]
pub struct TaskRetryArgs {
    /// Task ID.
    pub id: String,
}

/// Arguments for retrying several persisted tasks.
#[derive(Debug, Clone)]
pub struct TaskRetryBatchArgs {
    /// Restrict retries to one retryable status: failed, cancelled, timed_out.
    pub status: Option<String>,
    /// Maximum number of retryable tasks to requeue in this invocation.
    pub limit: Option<usize>,
    /// Output format: text or json.
    pub format: String,
}

/// Arguments for showing a single task.
#[derive(Debug, Clone)]
pub struct TaskStatusArgs {
    /// Task ID.
    pub id: String,
    /// Output format: text or json.
    pub format: String,
}

/// Arguments for cancelling a task.
#[derive(Debug, Clone)]
pub struct TaskCancelArgs {
    /// Task ID.
    pub id: String,
    /// Optional cancellation reason.
    pub reason: Option<String>,
}

} // verus!
