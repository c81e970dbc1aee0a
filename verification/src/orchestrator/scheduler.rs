//! Task scheduler: matches pending tasks to available agents.
//!
//! An agent qualifies for a task when it is `Ready` and its capabilities
//! satisfy every capability the task requires. Among qualifying agents the
//! least-loaded one (fewest completed tasks) is chosen.

use vstd::prelude::*;
use crate::agent::AgentStatus;
use crate::capability::{satisfies_all_spec, CapabilitySet};
use crate::error::SwarmResult;
use crate::identity::{AgentId, TaskId};
use crate::orchestrator::registry::{has_agent, keyed_by_id, AgentRecord, AgentRegistry};
use crate::task::Task;

verus! {

/// The outcome of a scheduling attempt.
#[derive(Debug, Clone, Copy, PartialEq, Eq, Structural)]
pub enum SchedulingDecision {
    /// The task was matched to an agent.
    Assigned {
        /// The task that was matched.
        task_id: TaskId,
        /// The agent that was chosen.
        agent_id: AgentId,
    },
    /// No suitable agent was found; the task should remain queued.
    NoCapableAgent {
        /// The task that could not be scheduled.
        task_id: TaskId,
    },
}

/// Whether a record may take a task that requires `required`: the agent is
/// `Ready` and its capabilities satisfy every requirement.
pub open spec fn qualifies(rec: AgentRecord, required: CapabilitySet) -> bool {
    &&& rec.status is Ready
    &&& satisfies_all_spec(rec.descriptor.capabilities@, required@)
}

/// Whether some registered agent qualifies.
pub open spec fn any_qualifies(t: Map<u128, AgentRecord>, required: CapabilitySet) -> bool {
    exists|k: u128| #[trigger] t.dom().contains(k) && qualifies(t[k], required)
}

/// Whether `id` is a least-loaded qualifying agent of table `t`: it qualifies,
/// and no qualifying agent has completed fewer tasks.
pub open spec fn least_loaded(t: Map<u128, AgentRecord>, required: CapabilitySet, id: AgentId) -> bool {
    &&& has_agent(t, id)
    &&& qualifies(t[id@], required)
    &&& forall|k: u128| #[trigger] t.dom().contains(k) && qualifies(t[k], required)
        ==> t[id@].tasks_completed <= t[k].tasks_completed
}

/// Whether some registered agent, in any state, could satisfy `required`.
pub open spec fn satisfiable_spec(t: Map<u128, AgentRecord>, required: CapabilitySet) -> bool {
    required@.len() == 0 || exists|k: u128| #[trigger] t.dom().contains(k)
        && satisfies_all_spec(t[k].descriptor.capabilities@, required@)
}

/// Capability-based task scheduler over an agent registry.
///
/// The scheduler keeps no state of its own besides the registry it reads.
pub struct Scheduler {
    registry: AgentRegistry,
}

impl Scheduler {
    /// The registry this scheduler reads.
    pub closed spec fn table(&self) -> Map<u128, AgentRecord> {
        self.registry.records()
    }

    /// Create a scheduler backed by the given registry.
    pub fn new(registry: AgentRegistry) -> (r: Self)
        ensures
            r.table() == registry.records(),
    {
        Scheduler { registry }
    }

    /// The registry this scheduler reads.
    pub fn registry(&self) -> (r: &AgentRegistry)
        ensures
            r.records() == self.table(),
    {
        &self.registry
    }

    /// Give the registry back.
    pub fn into_registry(self) -> (r: AgentRegistry)
        ensures
            r.records() == self.table(),
    {
        self.registry
    }

    /// Find the best available agent for a task: a least-loaded agent among
    /// those that are `Ready` and have every required capability, or
    /// `NoCapableAgent` when there is none.
    pub fn schedule(&self, task: &Task) -> (r: SwarmResult<SchedulingDecision>)
        ensures
            r is Ok,
            r matches Ok(SchedulingDecision::NoCapableAgent { task_id }) ==> task_id == task.id
                && !any_qualifies(self.table(), task.spec.required_capabilities),
            r matches Ok(SchedulingDecision::Assigned { task_id, agent_id }) ==> task_id == task.id
                && least_loaded(self.table(), task.spec.required_capabilities, agent_id),
            any_qualifies(self.table(), task.spec.required_capabilities) <==> r matches Ok(
                SchedulingDecision::Assigned { .. },
            ),
    {
        match pick_agent(&self.registry, &task.spec.required_capabilities) {
            Some(agent_id) => Ok(SchedulingDecision::Assigned { task_id: task.id, agent_id }),
            None => Ok(SchedulingDecision::NoCapableAgent { task_id: task.id }),
        }
    }

    /// Whether the task's required capabilities could be met by any
    /// registered agent, available right now or not. A task that requires
    /// nothing is always satisfiable.
    pub fn is_satisfiable(&self, task: &Task) -> (r: bool)
        ensures
            r == satisfiable_spec(self.table(), task.spec.required_capabilities),
    {
        is_satisfiable_on(&self.registry, &task.spec.required_capabilities)
    }
}

/// A least-loaded qualifying agent of the registry, if there is one.
pub fn pick_agent(registry: &AgentRegistry, required: &CapabilitySet) -> (r: Option<AgentId>)
    ensures
        r matches Some(id) ==> least_loaded(registry.records(), *required, id),
        r is None <==> !any_qualifies(registry.records(), *required),
{
    let all = registry.all_agents();
    let ghost t = registry.records();
    let n = all.len();
    assert(keyed_by_id(t));
    let mut best: Option<usize> = None;
    let mut i: usize = 0;
    while i < n
        invariant
            i <= n == all@.len(),
            forall|k: int| 0 <= k < all@.len() ==> #[trigger] has_agent(t, all@[k].descriptor.id)
                && crate::orchestrator::registry::same_record(all@[k], t[all@[k].descriptor.id@]),
            forall|id: AgentId| has_agent(t, id) ==> exists|k: int|
                0 <= k < all@.len() && #[trigger] all@[k].descriptor.id == id,
            best matches Some(b) ==> b < i && qualifies(all@[b as int], *required),
            best is None ==> forall|k: int| 0 <= k < i ==> !qualifies(#[trigger] all@[k], *required),
            best matches Some(b) ==> forall|k: int| 0 <= k < i && qualifies(#[trigger] all@[k], *required)
                ==> all@[b as int].tasks_completed <= all@[k].tasks_completed,
        decreases n - i,
    {
        let rec = &all[i];
        if rec.status.is_available() && rec.descriptor.capabilities.satisfies_all(required) {
            match best {
                None => {
                    best = Some(i);
                },
                Some(b) => {
                    if rec.tasks_completed < all[b].tasks_completed {
                        best = Some(i);
                    }
                },
            }
        }
        i = i + 1;
    }
    match best {
        None => {
            proof {
                if any_qualifies(t, *required) {
                    let k = choose|k: u128| #[trigger] t.dom().contains(k) && qualifies(t[k], *required);
                    let id = t[k].descriptor.id;
                    assert(t.dom().contains(k));
                    assert(t[k].descriptor.id@ == k);
                    assert(has_agent(t, id));
                    let j = choose|j: int| 0 <= j < all@.len() && #[trigger] all@[j].descriptor.id == id;
                    assert(has_agent(t, all@[j].descriptor.id));
                    assert(!qualifies(all@[j], *required));
                }
            }
            None
        },
        Some(b) => {
            proof {
                let id = all@[b as int].descriptor.id;
                assert(has_agent(t, all@[b as int].descriptor.id));
                assert forall|k: u128| #[trigger] t.dom().contains(k) && qualifies(t[k], *required)
                    implies t[id@].tasks_completed <= t[k].tasks_completed by {
                    assert(t[k].descriptor.id@ == k);
                    let kid = t[k].descriptor.id;
                    assert(has_agent(t, kid));
                    let j = choose|j: int| 0 <= j < all@.len() && #[trigger] all@[j].descriptor.id == kid;
                    assert(has_agent(t, all@[j].descriptor.id));
                    assert(qualifies(all@[j], *required));
                }
                assert(any_qualifies(t, *required)) by {
                    assert(t.dom().contains(id@) && qualifies(t[id@], *required));
                }
            }
            Some(all[b].descriptor.id)
        },
    }
}

/// Whether some registered agent, in any state, satisfies `required`; a
/// requirement list that is empty is always satisfiable.
pub fn is_satisfiable_on(registry: &AgentRegistry, required: &CapabilitySet) -> (r: bool)
    ensures
        r == satisfiable_spec(registry.records(), *required),
{
    let all = registry.all_agents();
    if required.is_empty() {
        return true;
    }
    let ghost t = registry.records();
    let n = all.len();
    assert(keyed_by_id(t));
    assert(forall|k: int| 0 <= k < all@.len() ==> #[trigger] has_agent(t, all@[k].descriptor.id)
        && crate::orchestrator::registry::same_record(all@[k], t[all@[k].descriptor.id@]));
    let mut i: usize = 0;
    while i < n
        invariant
            i <= n == all@.len(),
            t == registry.records(),
            required@.len() != 0,
            forall|k: int| 0 <= k < all@.len() ==> #[trigger] has_agent(t, all@[k].descriptor.id)
                && crate::orchestrator::registry::same_record(all@[k], t[all@[k].descriptor.id@]),
            forall|id: AgentId| has_agent(t, id) ==> exists|k: int|
                0 <= k < all@.len() && #[trigger] all@[k].descriptor.id == id,
            forall|k: int| 0 <= k < i ==> !satisfies_all_spec(
                #[trigger] all@[k].descriptor.capabilities@,
                required@,
            ),
        decreases n - i,
    {
        if all[i].descriptor.capabilities.satisfies_all(required) {
            proof {
                let id = all@[i as int].descriptor.id;
                assert(has_agent(t, all@[i as int].descriptor.id));
                assert(t.dom().contains(id@));
                assert(t[id@].descriptor.capabilities@ == all@[i as int].descriptor.capabilities@);
                assert(satisfies_all_spec(t[id@].descriptor.capabilities@, required@));
            }
            return true;
        }
        i = i + 1;
    }
    proof {
        if exists|k: u128| #[trigger] t.dom().contains(k) && satisfies_all_spec(
            t[k].descriptor.capabilities@,
            required@,
        ) {
            let k = choose|k: u128| #[trigger] t.dom().contains(k) && satisfies_all_spec(
                t[k].descriptor.capabilities@,
                required@,
            );
            assert(t[k].descriptor.id@ == k);
            let kid = t[k].descriptor.id;
            assert(has_agent(t, kid));
            let j = choose|j: int| 0 <= j < all@.len() && #[trigger] all@[j].descriptor.id == kid;
            assert(has_agent(t, all@[j].descriptor.id));
        }
    }
    false
}

} // verus!
