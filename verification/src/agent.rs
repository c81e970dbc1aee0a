//! The agent domain model: hierarchical kinds, runtime status, registration
//! descriptors and supervision-tree nodes.

use vstd::prelude::*;
use crate::capability::{CapabilitySet, CapabilityView};
use crate::identity::{AgentId, TaskId};
use crate::text::owned;
use crate::types::{now, Metadata, ResourceLimits, Timestamp};

verus! {

/// The hierarchical role of an agent within the swarm.
#[derive(Debug, Clone, Copy, PartialEq, Eq, Structural)]
pub enum AgentKind {
    /// Strategic coordinator. May delegate to managers or workers.
    Executive,
    /// Tactical coordinator for a domain. May delegate to workers.
    Manager,
    /// Concrete task executor.
    Worker,
}

impl AgentKind {
    /// Returns a short label suitable for metrics and logging.
    pub fn label(&self) -> (r: &'static str)
        ensures
            r@ == match self {
                AgentKind::Executive => "executive"@,
                AgentKind::Manager => "manager"@,
                AgentKind::Worker => "worker"@,
            },
    {
        match self {
            AgentKind::Executive => "executive",
            AgentKind::Manager => "manager",
            AgentKind::Worker => "worker",
        }
    }
}

/// The current operational status of an agent.
#[derive(Debug, Clone, PartialEq, Eq)]
pub enum AgentStatus {
    /// Registered but not yet started.
    Inactive,
    /// Running and ready to accept tasks.
    Ready,
    /// Busy executing a task.
    Busy {
        /// The task currently being executed.
        current_task: TaskId,
    },
    /// Temporarily unable to accept tasks.
    Paused {
        /// Human-readable reason for the pause.
        reason: String,
    },
    /// Encountered an unrecoverable error.
    Failed {
        /// Description of the failure.
        reason: String,
        /// When the failure was recorded.
        failed_at: Timestamp,
    },
    /// Gracefully shut down.
    Stopped,
}

/// The stable label of each agent status.
pub open spec fn agent_status_label(s: AgentStatus) -> Seq<char> {
    match s {
        AgentStatus::Inactive => "inactive"@,
        AgentStatus::Ready => "ready"@,
        AgentStatus::Busy { .. } => "busy"@,
        AgentStatus::Paused { .. } => "paused"@,
        AgentStatus::Failed { .. } => "failed"@,
        AgentStatus::Stopped => "stopped"@,
    }
}

impl AgentStatus {
    /// Returns `true` if the agent can accept new tasks (it is `Ready`).
    pub fn is_available(&self) -> (r: bool)
        ensures
            r == (*self is Ready),
    {
        match self {
            AgentStatus::Ready => true,
            _ => false,
        }
    }

    /// Returns a short label for metrics and logging.
    pub fn label(&self) -> (r: &'static str)
        ensures
            r@ == agent_status_label(*self),
    {
        match self {
            AgentStatus::Inactive => "inactive",
            AgentStatus::Ready => "ready",
            AgentStatus::Busy { .. } => "busy",
            AgentStatus::Paused { .. } => "paused",
            AgentStatus::Failed { .. } => "failed",
            AgentStatus::Stopped => "stopped",
        }
    }

    /// A copy of this status.
    pub fn duplicate(&self) -> (r: AgentStatus)
        ensures
            r == *self,
    {
        match self {
            AgentStatus::Inactive => AgentStatus::Inactive,
            AgentStatus::Ready => AgentStatus::Ready,
            AgentStatus::Busy { current_task } => AgentStatus::Busy { current_task: *current_task },
            AgentStatus::Paused { reason } => AgentStatus::Paused { reason: reason.clone() },
            AgentStatus::Failed { reason, failed_at } => AgentStatus::Failed {
                reason: reason.clone(),
                failed_at: *failed_at,
            },
            AgentStatus::Stopped => AgentStatus::Stopped,
        }
    }
}

/// A static registration record describing an agent to the orchestrator.
#[derive(Debug)]
pub struct AgentDescriptor {
    /// Unique agent identifier.
    pub id: AgentId,
    /// Human-readable name.
    pub name: String,
    /// The hierarchical role of this agent.
    pub kind: AgentKind,
    /// Capabilities this agent can provide.
    pub capabilities: CapabilitySet,
    /// Resource consumption limits.
    pub resource_limits: ResourceLimits,
    /// Arbitrary key-value labels.
    pub metadata: Metadata,
    /// When this descriptor was created.
    pub registered_at: Timestamp,
}

/// Whether two descriptors hold the same values.
pub open spec fn same_descriptor(a: AgentDescriptor, b: AgentDescriptor) -> bool {
    &&& a.id == b.id
    &&& a.name@ == b.name@
    &&& a.kind == b.kind
    &&& a.capabilities@ == b.capabilities@
    &&& a.resource_limits == b.resource_limits
    &&& a.metadata@ == b.metadata@
    &&& a.registered_at == b.registered_at
}

impl AgentDescriptor {
    /// A descriptor with a fresh identifier, the default resource limits and
    /// no metadata.
    pub fn new(name: &str, kind: AgentKind, capabilities: CapabilitySet) -> (r: Self)
        ensures
            r.name@ == name@,
            r.kind == kind,
            r.capabilities == capabilities,
            r.resource_limits == ResourceLimits::spec_default(),
            r.metadata@ == Map::<Seq<char>, Seq<char>>::empty(),
    {
        AgentDescriptor {
            id: AgentId::new(),
            name: owned(name),
            kind,
            capabilities,
            resource_limits: ResourceLimits::default_limits(),
            metadata: Metadata::new(),
            registered_at: now(),
        }
    }

    /// A copy of this descriptor.
    pub fn duplicate(&self) -> (r: AgentDescriptor)
        ensures
            same_descriptor(r, *self),
    {
        AgentDescriptor {
            id: self.id,
            name: self.name.clone(),
            kind: self.kind,
            capabilities: self.capabilities.duplicate(),
            resource_limits: ResourceLimits {
                max_execution_time: self.resource_limits.max_execution_time,
                max_concurrency: self.resource_limits.max_concurrency,
                max_memory_bytes: self.resource_limits.max_memory_bytes,
            },
            metadata: self.metadata.duplicate(),
            registered_at: self.registered_at,
        }
    }
}

/// `s` with every occurrence of `a` removed, the rest kept in order.
pub open spec fn without(s: Seq<AgentId>, a: AgentId) -> Seq<AgentId>
    decreases s.len(),
{
    if s.len() == 0 {
        s
    } else if s.last() == a {
        without(s.drop_last(), a)
    } else {
        without(s.drop_last(), a).push(s.last())
    }
}

/// A node in the agent supervision tree.
#[derive(Debug, Clone)]
pub struct SupervisionTree {
    /// This node's agent.
    pub agent_id: AgentId,
    /// The agent responsible for supervising this one, if any.
    pub supervisor: Option<AgentId>,
    /// Agents supervised by this agent.
    pub subordinates: Vec<AgentId>,
}

impl SupervisionTree {
    /// Create a root node (no supervisor).
    pub fn root(agent_id: AgentId) -> (r: Self)
        ensures
            r.agent_id == agent_id,
            r.supervisor.is_none(),
            r.subordinates@ == Seq::<AgentId>::empty(),
    {
        SupervisionTree { agent_id, supervisor: None, subordinates: Vec::new() }
    }

    /// Create a node with the given supervisor.
    pub fn with_supervisor(agent_id: AgentId, supervisor: AgentId) -> (r: Self)
        ensures
            r.agent_id == agent_id,
            r.supervisor == Some(supervisor),
            r.subordinates@ == Seq::<AgentId>::empty(),
    {
        SupervisionTree { agent_id, supervisor: Some(supervisor), subordinates: Vec::new() }
    }

    /// Register a new subordinate under this node; an agent already listed is
    /// not added twice.
    pub fn add_subordinate(&mut self, agent_id: AgentId)
        ensures
            final(self).agent_id == old(self).agent_id,
            final(self).supervisor == old(self).supervisor,
            old(self).subordinates@.contains(agent_id) ==> final(self).subordinates@ == old(self).subordinates@,
            !old(self).subordinates@.contains(agent_id) ==> final(self).subordinates@ == old(self).subordinates@.push(agent_id),
    {
        let n = self.subordinates.len();
        let mut i: usize = 0;
        while i < n
            invariant
                i <= n == self.subordinates@.len(),
                forall|k: int| 0 <= k < i ==> self.subordinates@[k] != agent_id,
            decreases n - i,
        {
            if self.subordinates[i] == agent_id {
                return;
            }
            i = i + 1;
        }
        self.subordinates.push(agent_id);
    }

    /// Remove an agent from the subordinate list, keeping the others in order.
    pub fn remove_subordinate(&mut self, agent_id: AgentId)
        ensures
            final(self).agent_id == old(self).agent_id,
            final(self).supervisor == old(self).supervisor,
            final(self).subordinates@ == without(old(self).subordinates@, agent_id),
    {
        let mut kept: Vec<AgentId> = Vec::new();
        let n = self.subordinates.len();
        let mut i: usize = 0;
        while i < n
            invariant
                i <= n == self.subordinates@.len(),
                kept@ == without(self.subordinates@.take(i as int), agent_id),
            decreases n - i,
        {
            proof {
                assert(self.subordinates@.take(i + 1).drop_last() =~= self.subordinates@.take(i as int));
            }
            if self.subordinates[i] != agent_id {
                kept.push(self.subordinates[i]);
            }
            i = i + 1;
        }
        assert(self.subordinates@.take(n as int) =~= self.subordinates@);
        self.subordinates = kept;
    }
}

/// `add_subordinate` never lists an agent twice: a duplicate-free list stays
/// duplicate-free.
pub proof fn lemma_add_subordinate_no_duplicates(before: Seq<AgentId>, added: AgentId)
    requires
        before.no_duplicates(),
    ensures
        !before.contains(added) ==> before.push(added).no_duplicates(),
{
    if !before.contains(added) {
        let after = before.push(added);
        assert forall|i: int, j: int| 0 <= i < after.len() && 0 <= j < after.len() && i != j implies after[i] != after[j] by {
            if i == before.len() {
                assert(after[j] == before[j]);
            } else if j == before.len() {
                assert(after[i] == before[i]);
            } else {
                assert(after[i] == before[i] && after[j] == before[j]);
            }
        }
    }
}

} // verus!
