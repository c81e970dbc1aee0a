//! Where learning runs and how it is isolated.

use vstd::prelude::*;
use crate::text::str_eq;

verus! {

/// The scope at which learning operates.
#[derive(Debug, Clone, PartialEq, Eq, Hash)]
pub enum LearningScope {
    /// Learning applies to a single agent.
    Agent {
        /// The agent identifier.
        agent_id: String,
    },
    /// Learning applies to a team of agents.
    Team {
        /// The team identifier.
        team_id: String,
    },
    /// Learning applies to an entire tenant or organization.
    Tenant {
        /// The tenant identifier.
        tenant_id: String,
    },
    /// Learning applies to a specific workflow type.
    Workflow {
        /// The workflow identifier.
        workflow_id: String,
    },
    /// Framework-wide learning.
    Global,
}

/// A scope as plain values: the variant's position and its identifier
/// (empty for `Global`).
pub open spec fn scope_key(s: LearningScope) -> (int, Seq<char>) {
    match s {
        LearningScope::Agent { agent_id } => (0, agent_id@),
        LearningScope::Team { team_id } => (1, team_id@),
        LearningScope::Tenant { tenant_id } => (2, tenant_id@),
        LearningScope::Workflow { workflow_id } => (3, workflow_id@),
        LearningScope::Global => (4, Seq::empty()),
    }
}

/// The logging label of a scope's variant.
pub open spec fn scope_label_spec(s: LearningScope) -> Seq<char> {
    match s {
        LearningScope::Agent { .. } => "agent"@,
        LearningScope::Team { .. } => "team"@,
        LearningScope::Tenant { .. } => "tenant"@,
        LearningScope::Workflow { .. } => "workflow"@,
        LearningScope::Global => "global"@,
    }
}

impl LearningScope {
    /// The label of the scope's variant, for logging.
    pub fn label(&self) -> (r: &'static str)
        ensures
            r@ == scope_label_spec(*self),
    {
        proof {
            reveal_strlit("agent");
            reveal_strlit("team");
            reveal_strlit("tenant");
            reveal_strlit("workflow");
            reveal_strlit("global");
        }
        match self {
            LearningScope::Agent { .. } => "agent",
            LearningScope::Team { .. } => "team",
            LearningScope::Tenant { .. } => "tenant",
            LearningScope::Workflow { .. } => "workflow",
            LearningScope::Global => "global",
        }
    }

    /// Whether two scopes are the same variant with the same identifier.
    pub fn same_as(&self, other: &LearningScope) -> (r: bool)
        ensures
            r == (scope_key(*self) == scope_key(*other)),
    {
        match (self, other) {
            (LearningScope::Agent { agent_id: a }, LearningScope::Agent { agent_id: b }) => str_eq(a.as_str(), b.as_str()),
            (LearningScope::Team { team_id: a }, LearningScope::Team { team_id: b }) => str_eq(a.as_str(), b.as_str()),
            (LearningScope::Tenant { tenant_id: a }, LearningScope::Tenant { tenant_id: b }) => str_eq(
                a.as_str(),
                b.as_str(),
            ),
            (LearningScope::Workflow { workflow_id: a }, LearningScope::Workflow { workflow_id: b }) => str_eq(
                a.as_str(),
                b.as_str(),
            ),
            (LearningScope::Global, LearningScope::Global) => true,
            _ => false,
        }
    }

    /// A copy of this scope.
    pub fn duplicate(&self) -> (r: LearningScope)
        ensures
            scope_key(r) == scope_key(*self),
    {
        match self {
            LearningScope::Agent { agent_id } => LearningScope::Agent { agent_id: agent_id.clone() },
            LearningScope::Team { team_id } => LearningScope::Team { team_id: team_id.clone() },
            LearningScope::Tenant { tenant_id } => LearningScope::Tenant { tenant_id: tenant_id.clone() },
            LearningScope::Workflow { workflow_id } => LearningScope::Workflow { workflow_id: workflow_id.clone() },
            LearningScope::Global => LearningScope::Global,
        }
    }
}

impl Default for LearningScope {
    /// Framework-wide learning.
    fn default() -> (r: Self)
        ensures
            r == LearningScope::Global,
    {
        LearningScope::Global
    }
}

/// Whether learning is enabled at a scope, and under which conditions.
#[derive(Debug, Clone)]
pub struct LearningScopeConfig {
    /// The scope this configuration applies to.
    pub scope: LearningScope,
    /// Whether learning is enabled at this scope.
    pub enabled: bool,
    /// Whether outputs require human approval at this scope.
    pub require_approval: bool,
    /// Maximum pending (unapproved) outputs before learning pauses.
    pub max_pending_outputs: Option<u64>,
}

impl LearningScopeConfig {
    /// Learning enabled without approval.
    pub fn enabled(scope: LearningScope) -> (r: Self)
        ensures
            r.scope == scope,
            r.enabled,
            !r.require_approval,
            r.max_pending_outputs is None,
    {
        LearningScopeConfig { scope, enabled: true, require_approval: false, max_pending_outputs: None }
    }

    /// Learning enabled with mandatory approval, pausing at 100 pending
    /// outputs.
    pub fn with_approval(scope: LearningScope) -> (r: Self)
        ensures
            r.scope == scope,
            r.enabled,
            r.require_approval,
            r.max_pending_outputs == Some(100u64),
    {
        LearningScopeConfig { scope, enabled: true, require_approval: true, max_pending_outputs: Some(100) }
    }

    /// Learning disabled.
    pub fn disabled(scope: LearningScope) -> (r: Self)
        ensures
            r.scope == scope,
            !r.enabled,
            !r.require_approval,
            r.max_pending_outputs is None,
    {
        LearningScopeConfig { scope, enabled: false, require_approval: false, max_pending_outputs: None }
    }
}

} // verus!
