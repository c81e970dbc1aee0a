//! The orchestrator's control state: agent registry, priority queue, task
//! table and supervision tree, with the decisions that tie them together.
//!
//! Every operation is a step from one state to the next; the events it
//! produces are appended to an outbox that the runtime drains and
//! broadcasts. Policy checks happen between steps: a submission is first
//! prepared, checked, then admitted; a scheduling attempt first picks the
//! next candidate, which is checked, then assigned.

use vstd::prelude::*;
use crate::agent::{AgentDescriptor, AgentStatus};
use crate::capability::CapabilitySet;
use crate::error::{SwarmError, SwarmResult};
use crate::event::EventKind;
use crate::identity::{AgentId, TaskId};
use crate::orchestrator::registry::{has_agent, AgentRecord, AgentRegistry};
use crate::orchestrator::scheduler::{any_qualifies, least_loaded, pick_agent};
use crate::orchestrator::supervision::SupervisionManager;
use crate::orchestrator::task_queue::{queued, QueueKey, TaskQueue};
use crate::orchestrator::task_store::{
    task_table, tasks_entries, tasks_get, tasks_insert, tasks_new, tasks_remove, TaskTable,
};
use crate::task::{is_terminal_spec, same_task, Task, TaskSpec, TaskStatus};
use crate::text::owned;
use crate::policy::PolicyContext;
use crate::json::{
    json_array, json_array_of, json_object_from, json_object_of, json_string, json_string_of, member_views,
};

verus! {

/// Configuration of the orchestrator.
#[derive(Debug, Clone, Copy, PartialEq, Eq, Structural)]
pub struct OrchestratorConfig {
    /// Capacity of the event broadcast channel.
    pub event_channel_capacity: usize,
    /// How many dispatch iterations to run per scheduling tick.
    pub max_dispatch_per_tick: usize,
    /// Default task timeout in milliseconds, applied to submitted tasks that
    /// set none; `None` disables the default deadline.
    pub default_task_timeout: Option<u64>,
    /// Maximum number of tasks scheduled or running at once.
    pub max_concurrent_tasks: usize,
}

impl OrchestratorConfig {
    /// The default configuration.
    pub open spec fn spec_default() -> OrchestratorConfig {
        OrchestratorConfig {
            event_channel_capacity: 1024,
            max_dispatch_per_tick: 16,
            default_task_timeout: Some(300_000),
            max_concurrent_tasks: 256,
        }
    }

    /// The default configuration: 1024 buffered events, 16 dispatches per
    /// tick, a five-minute default timeout, 256 concurrent tasks.
    pub fn default_config() -> (r: Self)
        ensures
            r == Self::spec_default(),
    {
        OrchestratorConfig {
            event_channel_capacity: 1024,
            max_dispatch_per_tick: 16,
            default_task_timeout: Some(300_000),
            max_concurrent_tasks: 256,
        }
    }
}

impl Default for OrchestratorConfig {
    fn default() -> (r: Self)
        ensures
            r == Self::spec_default(),
    {
        Self::default_config()
    }
}

/// Whether a task status counts against the concurrency limit.
pub open spec fn in_flight_status(s: TaskStatus) -> bool {
    s is Scheduled || s is Running
}

/// The keys of tasks of `t` that are scheduled or running.
pub open spec fn in_flight_keys(t: Map<u128, Task>) -> Set<u128> {
    t.dom().filter(|k: u128| in_flight_status(t[k].status))
}

/// What scheduling the head `h` of the queue gives: nothing when no agent
/// qualifies for it; `TaskNotFound` when it is not stored;
/// `AgentInvalidState` when it is stored but not `Pending`; otherwise the
/// head is scheduled.
pub open spec fn head_outcome(
    r: SwarmResult<Option<TaskId>>,
    h: Task,
    agents: Map<u128, AgentRecord>,
    tasks: Map<u128, Task>,
) -> bool {
    if !any_qualifies(agents, h.spec.required_capabilities) {
        r == Ok::<Option<TaskId>, SwarmError>(None)
    } else if !tasks.dom().contains(h.id@) {
        r matches Err(SwarmError::TaskNotFound { id }) && id == h.id
    } else if !(tasks[h.id@].status is Pending) {
        r matches Err(SwarmError::AgentInvalidState { reason, .. }) && reason@ == state_reason(
            crate::task::status_label(tasks[h.id@].status),
        )
    } else {
        r == Ok::<Option<TaskId>, SwarmError>(Some(h.id))
    }
}

/// The text `"task in state "` followed by a status label.
pub open spec fn state_reason(label: Seq<char>) -> Seq<char> {
    "task in state "@ + label
}

fn state_reason_text(status: &TaskStatus) -> (r: String)
    ensures
        r@ == state_reason(crate::task::status_label(*status)),
{
    let mut s = owned("task in state ");
    s.append(status.label());
    proof {
        reveal_strlit("task in state ");
    }
    s
}

/// The orchestrator's control state.
pub struct OrchestratorState {
    registry: AgentRegistry,
    task_queue: TaskQueue,
    tasks: TaskTable,
    supervision: SupervisionManager,
    events: Vec<EventKind>,
    default_task_timeout: Option<u64>,
    max_concurrent_tasks: usize,
}

impl OrchestratorState {
    /// The registered agents.
    pub closed spec fn agents(&self) -> Map<u128, AgentRecord> {
        self.registry.records()
    }

    /// The queued tasks in queue order, with their keys.
    pub closed spec fn queue(&self) -> Seq<(QueueKey, Task)> {
        self.task_queue.entries()
    }

    /// The queue's next sequence number.
    pub closed spec fn queue_seq(&self) -> u64 {
        self.task_queue.next_seq()
    }

    /// Every task submitted so far, keyed by task identifier value.
    pub closed spec fn tasks(&self) -> Map<u128, Task> {
        task_table(self.tasks)
    }

    /// The supervision nodes.
    pub closed spec fn supervision_nodes(&self) -> Map<u128, crate::agent::SupervisionTree> {
        self.supervision.nodes()
    }

    /// The events produced and not yet drained, oldest first.
    pub closed spec fn outbox(&self) -> Seq<EventKind> {
        self.events@
    }

    /// The default task timeout.
    pub closed spec fn default_timeout(&self) -> Option<u64> {
        self.default_task_timeout
    }

    /// The concurrency limit.
    pub closed spec fn max_concurrent(&self) -> usize {
        self.max_concurrent_tasks
    }

    /// A fresh control state for a configuration; its outbox holds
    /// `OrchestratorStarted`.
    pub fn new(config: &OrchestratorConfig) -> (r: Self)
        ensures
            r.agents().dom() == Set::<u128>::empty(),
            r.queue() == Seq::<(QueueKey, Task)>::empty(),
            r.queue_seq() == 0,
            r.tasks().dom() == Set::<u128>::empty(),
            r.supervision_nodes().dom() == Set::<u128>::empty(),
            r.outbox() == seq![EventKind::OrchestratorStarted],
            r.default_timeout() == config.default_task_timeout,
            r.max_concurrent() == config.max_concurrent_tasks,
    {
        let mut events: Vec<EventKind> = Vec::new();
        events.push(EventKind::OrchestratorStarted);
        OrchestratorState {
            registry: AgentRegistry::new(),
            task_queue: TaskQueue::new(),
            tasks: tasks_new(),
            supervision: SupervisionManager::new(),
            events,
            default_task_timeout: config.default_task_timeout,
            max_concurrent_tasks: config.max_concurrent_tasks,
        }
    }

    /// Hand the produced events to the caller and empty the outbox.
    pub fn drain_events(&mut self) -> (r: Vec<EventKind>)
        ensures
            r@ == old(self).outbox(),
            final(self).outbox() == Seq::<EventKind>::empty(),
            final(self).agents() == old(self).agents(),
            final(self).queue() == old(self).queue(),
            final(self).queue_seq() == old(self).queue_seq(),
            final(self).tasks() == old(self).tasks(),
            final(self).supervision_nodes() == old(self).supervision_nodes(),
    {
        let mut out: Vec<EventKind> = Vec::new();
        core::mem::swap(&mut out, &mut self.events);
        out
    }

    /// Publish an event produced elsewhere.
    pub fn publish_event(&mut self, kind: EventKind)
        ensures
            final(self).outbox() == old(self).outbox().push(kind),
            final(self).agents() == old(self).agents(),
            final(self).queue() == old(self).queue(),
            final(self).tasks() == old(self).tasks(),
    {
        self.events.push(kind);
    }

    /// Register an agent; it starts `Inactive` and becomes a supervision
    /// root. A duplicate identifier is refused and nothing changes.
    pub fn register_agent(&mut self, descriptor: AgentDescriptor) -> (r: SwarmResult<AgentId>)
        ensures
            has_agent(old(self).agents(), descriptor.id) ==> r is Err && final(self).agents()
                == old(self).agents() && final(self).outbox() == old(self).outbox(),
            !has_agent(old(self).agents(), descriptor.id) ==> (r == Ok::<AgentId, SwarmError>(
                descriptor.id,
            ) && has_agent(final(self).agents(), descriptor.id)
                && final(self).agents()[descriptor.id@].status == AgentStatus::Inactive
                && final(self).supervision_nodes().dom().contains(descriptor.id@)
                && final(self).supervision_nodes()[descriptor.id@].supervisor is None
                && final(self).outbox().len() == old(self).outbox().len() + 1
                && (final(self).outbox().last() matches EventKind::AgentRegistered { agent_id, name }
                && agent_id == descriptor.id && name@ == descriptor.name@)),
            final(self).queue() == old(self).queue(),
            final(self).queue_seq() == old(self).queue_seq(),
            final(self).tasks() == old(self).tasks(),
    {
        let name = descriptor.name.clone();
        let id = self.registry.register(descriptor)?;
        self.supervision.register_root(id);
        self.events.push(EventKind::AgentRegistered { agent_id: id, name });
        Ok(id)
    }

    /// Mark an agent `Ready`, reporting its previous status label; an
    /// unknown agent is `AgentNotFound`.
    pub fn set_agent_ready(&mut self, id: AgentId) -> (r: SwarmResult<()>)
        ensures
            !has_agent(old(self).agents(), id) ==> (r matches Err(SwarmError::AgentNotFound { id: e })
                && e == id) && final(self).agents() == old(self).agents() && final(self).outbox()
                == old(self).outbox(),
            has_agent(old(self).agents(), id) ==> (r is Ok && final(self).agents()[id@].status
                == AgentStatus::Ready && final(self).agents().dom() == old(self).agents().dom()
                && final(self).outbox().len() == old(self).outbox().len() + 1
                && (final(self).outbox().last() matches EventKind::AgentStatusChanged {
                agent_id,
                previous,
                current,
            } && agent_id == id && previous@ == crate::agent::agent_status_label(
                old(self).agents()[id@].status,
            ) && current@ == "ready"@)),
            final(self).queue() == old(self).queue(),
            final(self).queue_seq() == old(self).queue_seq(),
            final(self).tasks() == old(self).tasks(),
    {
        let rec = self.registry.get(&id)?;
        let previous = owned(rec.status.label());
        self.registry.update_status(&id, AgentStatus::Ready)?;
        self.events.push(
            EventKind::AgentStatusChanged { agent_id: id, previous, current: owned("ready") },
        );
        proof {
            reveal_strlit("ready");
        }
        Ok(())
    }

    /// Deregister an agent and remove it from the supervision tree; an
    /// unknown agent is `AgentNotFound` and nothing changes.
    pub fn deregister_agent(&mut self, id: AgentId) -> (r: SwarmResult<()>)
        ensures
            !has_agent(old(self).agents(), id) ==> r is Err && final(self).agents() == old(self).agents() && final(self).outbox() == old(self).outbox(),
            has_agent(old(self).agents(), id) ==> r is Ok && final(self).agents() == old(self).agents().remove(id@) && !final(self).supervision_nodes().dom().contains(id@)
                && final(self).outbox() == old(self).outbox().push(
                EventKind::AgentDeregistered { agent_id: id },
            ),
            final(self).queue() == old(self).queue(),
            final(self).queue_seq() == old(self).queue_seq(),
            final(self).tasks() == old(self).tasks(),
    {
        let _ = self.registry.deregister(&id)?;
        self.supervision.deregister(&id);
        self.events.push(EventKind::AgentDeregistered { agent_id: id });
        Ok(())
    }

    /// Register an agent under a supervisor in the supervision tree.
    pub fn set_supervisor(&mut self, agent_id: AgentId, supervisor_id: AgentId) -> (r: SwarmResult<
        (),
    >)
        ensures
            !old(self).supervision_nodes().dom().contains(supervisor_id@) ==> r is Err,
            old(self).supervision_nodes().dom().contains(supervisor_id@) ==> r is Ok
                && final(self).supervision_nodes()[agent_id@].supervisor == Some(supervisor_id),
            final(self).agents() == old(self).agents(),
            final(self).queue() == old(self).queue(),
            final(self).tasks() == old(self).tasks(),
            final(self).outbox() == old(self).outbox(),
    {
        self.supervision.register_under(agent_id, supervisor_id)
    }

    /// The supervision manager.
    pub fn supervision(&self) -> (r: &SupervisionManager)
        ensures
            r.nodes() == self.supervision_nodes(),
    {
        &self.supervision
    }

    /// The first step of a submission: apply the default timeout to a spec
    /// that sets none, then validate it.
    pub fn prepare_submission(&self, spec: TaskSpec) -> (r: SwarmResult<TaskSpec>)
        ensures
            r matches Ok(s) ==> s.name == spec.name && s.input == spec.input
                && s.required_capabilities == spec.required_capabilities && s.priority
                == spec.priority && s.retry_policy == spec.retry_policy && s.metadata
                == spec.metadata && s.timeout == (if spec.timeout is None {
                self.default_timeout()
            } else {
                spec.timeout
            }),
            r is Ok <==> crate::task::valid_task_name(spec.name@),
            r matches Err(e) ==> e is InvalidTaskSpec,
    {
        let mut spec = spec;
        if spec.timeout.is_none() {
            spec.timeout = self.default_task_timeout;
        }
        spec.validate()?;
        Ok(spec)
    }

    /// The last step of a submission: create the task, keep it in the task
    /// table and enqueue a copy; the outbox gets `TaskSubmitted`. The only
    /// failure is a fresh identifier that is already queued: the queue refuses
    /// the copy (`InvalidTaskSpec`), and the task stays in the table only.
    pub fn admit_task(&mut self, spec: TaskSpec) -> (r: SwarmResult<TaskId>)
        requires
            old(self).queue_seq() < u64::MAX,
        ensures
            r matches Ok(id) ==> (final(self).tasks().dom() == old(self).tasks().dom().insert(id@)
                && final(self).tasks()[id@].spec == spec && final(self).tasks()[id@].status
                == TaskStatus::Pending && queued(final(self).queue(), id)
                && final(self).queue().len() == old(self).queue().len() + 1
                && (final(self).outbox().last() matches EventKind::TaskSubmitted { task_id, name }
                && task_id == id && name@ == spec.name@)),
            r matches Ok(id) ==> !queued(old(self).queue(), id) && final(self).tasks() == old(self).tasks().insert(
                id@,
                final(self).tasks()[id@],
            ) && final(self).tasks()[id@].id == id && final(self).tasks()[id@].attempt_count == 0
                && final(self).queue_seq() == old(self).queue_seq() + 1
                && final(self).outbox().drop_last() == old(self).outbox(),
            r is Err ==> (r matches Err(SwarmError::InvalidTaskSpec { .. })) && final(self).queue() == old(self).queue()
                && final(self).queue_seq() == old(self).queue_seq() && final(self).outbox() == old(self).outbox()
                && exists|t: Task|
                #![trigger old(self).tasks().insert(t.id@, t)]
                t.spec == spec && t.status == TaskStatus::Pending && queued(old(self).queue(), t.id)
                    && final(self).tasks() == old(self).tasks().insert(t.id@, t),
            final(self).agents() == old(self).agents(),
    {
        let task = Task::new(spec);
        let task_id = task.id;
        let name = task.spec.name.clone();
        let copy = task.duplicate();
        let ghost before = task_table(self.tasks);
        let ghost fresh = task;
        tasks_insert(&mut self.tasks, task_id.as_uuid(), task);
        proof {
            assert(task_table(self.tasks).dom() =~= before.dom().insert(task_id@));
        }
        match self.task_queue.enqueue(copy) {
            Ok(()) => {},
            Err(e) => {
                proof {
                    assert(old(self).tasks().insert(fresh.id@, fresh) == self.tasks());
                }
                return Err(e);
            },
        }
        proof {
            let q = self.task_queue.entries();
            let pos = choose|pos: int, at: crate::types::Timestamp|
                0 <= pos <= old(self).queue().len() && q == old(self).queue().insert(
                    pos,
                    (crate::orchestrator::task_queue::entry_key(copy.spec.priority.rank(), at, old(self).queue_seq()), copy),
                );
            assert(q[pos.0].1.id == task_id);
        }
        let ghost ev = self.events@;
        self.events.push(EventKind::TaskSubmitted { task_id, name });
        proof {
            assert(self.events@.drop_last() =~= ev);
        }
        Ok(task_id)
    }

    /// Take in a persisted task snapshot as it is: a pending task that is not
    /// queued yet keeps its identifier, joins the task table and the queue,
    /// and the outbox gets `TaskSubmitted`; any other snapshot is refused
    /// with `InvalidTaskSpec` and nothing changes.
    pub fn import_task(&mut self, task: Task) -> (r: SwarmResult<TaskId>)
        requires
            old(self).queue_seq() < u64::MAX,
        ensures
            !(task.status is Pending) || queued(old(self).queue(), task.id) ==> (r matches Err(
                SwarmError::InvalidTaskSpec { .. },
            )) && final(self).tasks() == old(self).tasks() && final(self).queue() == old(self).queue(),
            task.status is Pending && !queued(old(self).queue(), task.id) ==> r == Ok::<TaskId, SwarmError>(task.id)
                && final(self).tasks() == old(self).tasks().insert(task.id@, task) && queued(final(self).queue(), task.id)
                && final(self).queue().len() == old(self).queue().len() + 1
                && (final(self).outbox().last() matches EventKind::TaskSubmitted { task_id, name }
                && task_id == task.id && name@ == task.spec.name@),
            final(self).agents() == old(self).agents(),
    {
        let task_id = task.id;
        let name = task.spec.name.clone();
        let copy = task.duplicate();
        self.task_queue.enqueue(copy)?;
        proof {
            let q = self.task_queue.entries();
            let pos = choose|pos: int, at: crate::types::Timestamp|
                0 <= pos <= old(self).queue().len() && q == old(self).queue().insert(
                    pos,
                    (crate::orchestrator::task_queue::entry_key(copy.spec.priority.rank(), at, old(self).queue_seq()), copy),
                );
            assert(q[pos.0].1.id == task_id);
        }
        tasks_insert(&mut self.tasks, task_id.as_uuid(), task);
        self.events.push(EventKind::TaskSubmitted { task_id, name });
        Ok(task_id)
    }

    /// The sequence number the queue gives the next task it accepts.
    pub fn queue_sequence(&self) -> (r: u64)
        ensures
            r == self.queue_seq(),
    {
        self.task_queue.next_sequence()
    }

    /// The number of tasks scheduled or running.
    pub fn in_flight_task_count(&self) -> (r: usize)
        ensures
            r == in_flight_keys(self.tasks()).len(),
    {
        let all = tasks_entries(&self.tasks);
        let ghost t = task_table(self.tasks);
        proof {
            assert forall|j: int| 0 <= j < all@.len() implies t.dom().contains(#[trigger] all@[j].0)
                && same_task(all@[j].1, t[all@[j].0]) by {
                assert(task_table(self.tasks).dom().contains(all@[j].0));
            }
        }
        let ghost mut seen: Set<u128> = Set::empty();
        let n = all.len();
        let mut count: usize = 0;
        let mut i: usize = 0;
        while i < n
            invariant
                i <= n == all@.len(),
                t == task_table(self.tasks),
                forall|j: int| #![trigger all@[j]] 0 <= j < all@.len() ==> t.dom().contains(all@[j].0)
                    && same_task(all@[j].1, t[all@[j].0]),
                forall|a: int, b: int| 0 <= a < b < all@.len() ==> all@[a].0 != all@[b].0,
                seen.finite(),
                count == seen.len(),
                count <= i,
                forall|k: u128| #[trigger] seen.contains(k) <==> exists|j: int|
                    0 <= j < i && all@[j].0 == k && in_flight_status(all@[j].1.status),
            decreases n - i,
        {
            if matches!(all[i].1.status, TaskStatus::Scheduled { .. } | TaskStatus::Running { .. }) {
                proof {
                    let k = all@[i as int].0;
                    if seen.contains(k) {
                        let j = choose|j: int| 0 <= j < i && all@[j].0 == k && in_flight_status(all@[j].1.status);
                        assert(false);
                    }
                    seen = seen.insert(k);
                }
                count = count + 1;
            }
            i = i + 1;
        }
        proof {
            assert(seen =~= in_flight_keys(t)) by {
                assert forall|k: u128| seen.contains(k) <==> in_flight_keys(t).contains(k) by {
                    if in_flight_keys(t).contains(k) {
                        assert(t.dom().contains(k));
                        let j = choose|j: int| 0 <= j < all@.len() && #[trigger] all@[j].0 == k;
                        assert(t.dom().contains(all@[j].0));
                    }
                    if seen.contains(k) {
                        let j = choose|j: int| 0 <= j < n && all@[j].0 == k && in_flight_status(all@[j].1.status);
                        assert(t.dom().contains(all@[j].0));
                    }
                }
            }
        }
        count
    }

    /// The first step of a scheduling attempt: a copy of the task at the head
    /// of the queue, or `None` when the queue is empty or the concurrency
    /// limit is reached.
    pub fn next_schedulable(&self) -> (r: Option<Task>)
        ensures
            in_flight_keys(self.tasks()).len() >= self.max_concurrent() ==> r is None,
            in_flight_keys(self.tasks()).len() < self.max_concurrent() ==> (self.queue().len() == 0
                <==> r is None),
            r matches Some(t) ==> self.queue().len() > 0 && same_task(t, self.queue()[0].1),
    {
        if self.in_flight_task_count() >= self.max_concurrent_tasks {
            return None;
        }
        self.task_queue.peek()
    }

    /// The last step of a scheduling attempt for a task taken by
    /// `next_schedulable`: pick a least-loaded qualifying agent; when there
    /// is one, the task leaves the queue, becomes `Scheduled` on that agent,
    /// the agent becomes `Busy`, and the outbox gets `TaskScheduled`. A task
    /// that is not queued, or not stored, is `TaskNotFound`; a stored task
    /// that is not `Pending` is `AgentInvalidState` naming its state.
    pub fn assign(&mut self, task: &Task) -> (r: SwarmResult<Option<TaskId>>)
        ensures
            !any_qualifies(old(self).agents(), task.spec.required_capabilities) ==> r == Ok::<
                Option<TaskId>,
                SwarmError,
            >(None) && final(self).queue() == old(self).queue() && final(self).tasks() == old(self).tasks() && final(self).agents() == old(self).agents(),
            any_qualifies(old(self).agents(), task.spec.required_capabilities) && !queued(old(self).queue(), task.id)
                ==> (r matches Err(SwarmError::TaskNotFound { id }) && id == task.id) && final(self).queue() == old(
                self,
            ).queue() && final(self).tasks() == old(self).tasks() && final(self).agents() == old(self).agents(),
            any_qualifies(old(self).agents(), task.spec.required_capabilities) && queued(old(self).queue(), task.id)
                && !old(self).tasks().dom().contains(task.id@) ==> (r matches Err(SwarmError::TaskNotFound { id })
                && id == task.id) && !queued(final(self).queue(), task.id) && final(self).tasks() == old(
                self,
            ).tasks() && final(self).agents() == old(self).agents(),
            any_qualifies(old(self).agents(), task.spec.required_capabilities) && queued(old(self).queue(), task.id)
                && old(self).tasks().dom().contains(task.id@) && !(old(self).tasks()[task.id@].status is Pending)
                ==> (r matches Err(SwarmError::AgentInvalidState { reason, .. }) && reason@ == state_reason(
                crate::task::status_label(old(self).tasks()[task.id@].status),
            )) && !queued(final(self).queue(), task.id) && final(self).tasks() == old(self).tasks()
                && final(self).agents() == old(self).agents(),
            any_qualifies(old(self).agents(), task.spec.required_capabilities) && queued(old(self).queue(), task.id)
                && old(self).tasks().dom().contains(task.id@) && old(self).tasks()[task.id@].status is Pending
                ==> r == Ok::<Option<TaskId>, SwarmError>(Some(task.id)) && final(self).queue().len() == old(
                self,
            ).queue().len() - 1 && final(self).tasks().dom() == old(self).tasks().dom()
                && final(self).tasks()[task.id@].spec == old(self).tasks()[task.id@].spec
                && final(self).tasks()[task.id@].attempt_count == old(self).tasks()[task.id@].attempt_count
                && final(self).agents().dom() == old(self).agents().dom(),
            r matches Ok(Some(id)) ==> id == task.id && !queued(final(self).queue(), id)
                && exists|agent: AgentId|
                least_loaded(old(self).agents(), task.spec.required_capabilities, agent)
                    && final(self).tasks()[id@].status == (TaskStatus::Scheduled {
                    assigned_to: agent,
                }) && final(self).agents()[agent@].status == (AgentStatus::Busy {
                    current_task: id,
                }) && final(self).outbox() == old(self).outbox().push(
                    EventKind::TaskScheduled { task_id: id, agent_id: agent },
                ),
    {
        match pick_agent(&self.registry, &task.spec.required_capabilities) {
            None => Ok(None),
            Some(agent_id) => {
                let task_id = task.id;
                match self.task_queue.remove(&task_id) {
                    Ok(_) => {},
                    Err(e) => {
                        return Err(e);
                    },
                }
                let ghost removed_queue = self.task_queue.entries();
                let ghost before = task_table(self.tasks);
                let mut t = match tasks_remove(&mut self.tasks, task_id.as_uuid()) {
                    Some(t) => t,
                    None => {
                        proof {
                            assert(task_table(self.tasks) =~= before);
                        }
                        return Err(SwarmError::TaskNotFound { id: task_id });
                    },
                };
                let ghost t0 = t;
                let outcome = t.schedule(agent_id);
                tasks_insert(&mut self.tasks, task_id.as_uuid(), t);
                match outcome {
                    Ok(()) => {},
                    Err(status) => {
                        proof {
                            assert(task_table(self.tasks) =~= before);
                        }
                        return Err(
                            SwarmError::AgentInvalidState {
                                id: agent_id,
                                reason: state_reason_text(&status),
                            },
                        );
                    },
                }
                proof {
                    assert(task_table(self.tasks).dom() =~= before.dom());
                }
                match self.registry.update_status(&agent_id, AgentStatus::Busy { current_task: task_id }) {
                    Ok(()) => {},
                    Err(e) => {
                        return Err(e);
                    },
                }
                self.events.push(EventKind::TaskScheduled { task_id, agent_id });
                proof {
                    assert(least_loaded(old(self).agents(), task.spec.required_capabilities, agent_id));
                    assert(task_table(self.tasks)[task_id@].status == (TaskStatus::Scheduled {
                        assigned_to: agent_id,
                    }));
                }
                Ok(Some(task_id))
            },
        }
    }

    /// Schedule the next queued task without a policy check: the two
    /// scheduling steps in a row. Under the concurrency limit, the head of
    /// the queue is scheduled whenever some agent qualifies for it and it is
    /// stored as `Pending`.
    pub fn try_schedule_next(&mut self) -> (r: SwarmResult<Option<TaskId>>)
        ensures
            in_flight_keys(old(self).tasks()).len() >= old(self).max_concurrent() ==> r
                == Ok::<Option<TaskId>, SwarmError>(None) && final(self).tasks() == old(self).tasks() && final(self).queue() == old(self).queue(),
            old(self).queue().len() == 0 ==> r == Ok::<Option<TaskId>, SwarmError>(None),
            r matches Ok(Some(id)) ==> in_flight_keys(old(self).tasks()).len() < old(self).max_concurrent() && old(self).queue().len() > 0 && id == old(self).queue()[0].1.id,
            in_flight_keys(old(self).tasks()).len() < old(self).max_concurrent() && old(self).queue().len() > 0
                ==> head_outcome(
                r,
                old(self).queue()[0].1,
                old(self).agents(),
                old(self).tasks(),
            ),
    {
        match self.next_schedulable() {
            None => Ok(None),
            Some(task) => {
                proof {
                    let h = old(self).queue()[0].1;
                    assert(task.spec.required_capabilities@ == h.spec.required_capabilities@);
                    assert(any_qualifies(old(self).agents(), task.spec.required_capabilities) == any_qualifies(
                        old(self).agents(),
                        h.spec.required_capabilities,
                    ));
                    assert(queued(old(self).queue(), task.id)) by {
                        assert(old(self).queue()[0].1.id == task.id);
                    }
                }
                self.assign(&task)
            },
        }
    }

    /// Record that an agent started a task: the task must exist and be
    /// `Scheduled`; it becomes `Running` with one more attempt counted.
    pub fn record_task_started(&mut self, task_id: TaskId, agent_id: AgentId) -> (r: SwarmResult<()>)
        requires
            old(self).tasks().dom().contains(task_id@) ==> old(self).tasks()[task_id@].attempt_count
                < u32::MAX,
        ensures
            !old(self).tasks().dom().contains(task_id@) ==> (r matches Err(
                SwarmError::TaskNotFound { id },
            ) && id == task_id) && final(self).tasks() == old(self).tasks(),
            old(self).tasks().dom().contains(task_id@) && !(old(self).tasks()[task_id@].status is Scheduled)
                ==> (r matches Err(SwarmError::AgentInvalidState { id, reason }) && id == agent_id
                && reason@ == state_reason(crate::task::status_label(old(self).tasks()[task_id@].status))),
            r is Ok ==> (final(self).tasks()[task_id@].status matches TaskStatus::Running {
                executing_on,
                ..
            } && executing_on == agent_id && final(self).outbox() == old(self).outbox().push(
                EventKind::TaskStarted { task_id, agent_id },
            )),
            old(self).tasks().dom().contains(task_id@) && old(self).tasks()[task_id@].status is Scheduled ==> r is Ok
                && final(self).tasks().dom() == old(self).tasks().dom()
                && final(self).tasks()[task_id@].attempt_count == old(self).tasks()[task_id@].attempt_count + 1
                && final(self).tasks()[task_id@].spec == old(self).tasks()[task_id@].spec
                && (forall|k: u128| #[trigger] old(self).tasks().dom().contains(k) && k != task_id@
                    ==> final(self).tasks()[k] == old(self).tasks()[k]),
            r is Err ==> final(self).tasks() == old(self).tasks() && final(self).outbox() == old(self).outbox(),
            final(self).agents() == old(self).agents(),
            final(self).queue() == old(self).queue(),
    {
        let mut t = match tasks_remove(&mut self.tasks, task_id.as_uuid()) {
            Some(t) => t,
            None => {
                return Err(SwarmError::TaskNotFound { id: task_id });
            },
        };
        let outcome = t.start_running(agent_id);
        tasks_insert(&mut self.tasks, task_id.as_uuid(), t);
        match outcome {
            Ok(()) => {
                self.events.push(EventKind::TaskStarted { task_id, agent_id });
                Ok(())
            },
            Err(status) => Err(
                SwarmError::AgentInvalidState { id: agent_id, reason: state_reason_text(&status) },
            ),
        }
    }

    /// Record that a task completed: the task becomes `Completed` (a task
    /// already in a terminal state stays as it is), then the
    /// agent becomes `Ready` with one more completed task counted.
    pub fn record_task_completed(&mut self, task_id: TaskId, agent_id: AgentId, output: serde_json::Value) -> (r: SwarmResult<()>)
        requires
            has_agent(old(self).agents(), agent_id) ==> old(self).agents()[agent_id@].tasks_completed
                < u64::MAX,
        ensures
            !old(self).tasks().dom().contains(task_id@) ==> (r matches Err(
                SwarmError::TaskNotFound { id },
            ) && id == task_id) && final(self).tasks() == old(self).tasks(),
            old(self).tasks().dom().contains(task_id@) && !is_terminal_spec(old(self).tasks()[task_id@].status)
                ==> (final(self).tasks()[task_id@].status matches TaskStatus::Completed { output: o, .. }
                && o == output),
            old(self).tasks().dom().contains(task_id@) ==> final(self).tasks().dom() == old(self).tasks().dom(),
            old(self).tasks().dom().contains(task_id@) && is_terminal_spec(old(self).tasks()[task_id@].status)
                ==> final(self).tasks() == old(self).tasks(),
            old(self).tasks().dom().contains(task_id@) && !has_agent(old(self).agents(), agent_id)
                ==> (r matches Err(SwarmError::AgentNotFound { id }) && id == agent_id),
            old(self).tasks().dom().contains(task_id@) && has_agent(old(self).agents(), agent_id) ==> r is Ok,
            r is Ok ==> final(self).agents()[agent_id@].status == AgentStatus::Ready
                && final(self).agents()[agent_id@].tasks_completed == old(self).agents()[agent_id@].tasks_completed + 1 && final(self).outbox() == old(self).outbox().push(EventKind::TaskCompleted { task_id }),
            final(self).queue() == old(self).queue(),
    {
        let mut t = match tasks_remove(&mut self.tasks, task_id.as_uuid()) {
            Some(t) => t,
            None => {
                return Err(SwarmError::TaskNotFound { id: task_id });
            },
        };
        t.complete(output);
        tasks_insert(&mut self.tasks, task_id.as_uuid(), t);
        self.registry.update_status(&agent_id, AgentStatus::Ready)?;
        self.registry.record_task_completed(&agent_id);
        self.events.push(EventKind::TaskCompleted { task_id });
        Ok(())
    }

    /// Record that a task failed: the task becomes `Failed` for the reason (a
    /// task already in a terminal state stays as it is),
    /// then the agent becomes `Ready` with one more failed task counted.
    pub fn record_task_failed(&mut self, task_id: TaskId, agent_id: AgentId, reason: String) -> (r: SwarmResult<()>)
        requires
            has_agent(old(self).agents(), agent_id) ==> old(self).agents()[agent_id@].tasks_failed
                < u64::MAX,
        ensures
            !old(self).tasks().dom().contains(task_id@) ==> (r matches Err(
                SwarmError::TaskNotFound { id },
            ) && id == task_id) && final(self).tasks() == old(self).tasks(),
            old(self).tasks().dom().contains(task_id@) && !is_terminal_spec(old(self).tasks()[task_id@].status)
                ==> (final(self).tasks()[task_id@].status matches TaskStatus::Failed { reason: why, .. }
                && why@ == reason@),
            old(self).tasks().dom().contains(task_id@) ==> final(self).tasks().dom() == old(self).tasks().dom(),
            old(self).tasks().dom().contains(task_id@) && is_terminal_spec(old(self).tasks()[task_id@].status)
                ==> final(self).tasks() == old(self).tasks(),
            old(self).tasks().dom().contains(task_id@) && !has_agent(old(self).agents(), agent_id)
                ==> (r matches Err(SwarmError::AgentNotFound { id }) && id == agent_id),
            old(self).tasks().dom().contains(task_id@) && has_agent(old(self).agents(), agent_id) ==> r is Ok,
            r is Ok ==> (final(self).agents()[agent_id@].status == AgentStatus::Ready
                && final(self).agents()[agent_id@].tasks_failed == old(self).agents()[agent_id@].tasks_failed + 1 && final(self).outbox().len() == old(self).outbox().len() + 1 && (final(self).outbox().last() matches EventKind::TaskFailed {
                task_id: tid,
                reason: why,
            } && tid == task_id && why@ == reason@)),
            final(self).queue() == old(self).queue(),
    {
        let mut t = match tasks_remove(&mut self.tasks, task_id.as_uuid()) {
            Some(t) => t,
            None => {
                return Err(SwarmError::TaskNotFound { id: task_id });
            },
        };
        t.fail(reason.clone());
        tasks_insert(&mut self.tasks, task_id.as_uuid(), t);
        self.registry.update_status(&agent_id, AgentStatus::Ready)?;
        self.registry.record_task_failed(&agent_id);
        self.events.push(EventKind::TaskFailed { task_id, reason });
        Ok(())
    }

    /// Record that a task timed out: the task becomes `TimedOut` (a task
    /// already in a terminal state stays as it is), then the
    /// agent becomes `Ready` with one more failed task counted.
    pub fn record_task_timed_out(&mut self, task_id: TaskId, agent_id: AgentId) -> (r: SwarmResult<()>)
        requires
            has_agent(old(self).agents(), agent_id) ==> old(self).agents()[agent_id@].tasks_failed
                < u64::MAX,
        ensures
            !old(self).tasks().dom().contains(task_id@) ==> (r matches Err(
                SwarmError::TaskNotFound { id },
            ) && id == task_id) && final(self).tasks() == old(self).tasks(),
            old(self).tasks().dom().contains(task_id@) && !is_terminal_spec(old(self).tasks()[task_id@].status)
                ==> final(self).tasks()[task_id@].status is TimedOut,
            old(self).tasks().dom().contains(task_id@) ==> final(self).tasks().dom() == old(self).tasks().dom(),
            old(self).tasks().dom().contains(task_id@) && is_terminal_spec(old(self).tasks()[task_id@].status)
                ==> final(self).tasks() == old(self).tasks(),
            old(self).tasks().dom().contains(task_id@) && !has_agent(old(self).agents(), agent_id)
                ==> (r matches Err(SwarmError::AgentNotFound { id }) && id == agent_id),
            old(self).tasks().dom().contains(task_id@) && has_agent(old(self).agents(), agent_id) ==> r is Ok,
            r is Ok ==> final(self).agents()[agent_id@].status == AgentStatus::Ready
                && final(self).agents()[agent_id@].tasks_failed == old(self).agents()[agent_id@].tasks_failed + 1 && final(self).outbox() == old(self).outbox().push(EventKind::TaskTimedOut { task_id }),
            final(self).queue() == old(self).queue(),
    {
        let mut t = match tasks_remove(&mut self.tasks, task_id.as_uuid()) {
            Some(t) => t,
            None => {
                return Err(SwarmError::TaskNotFound { id: task_id });
            },
        };
        t.time_out();
        tasks_insert(&mut self.tasks, task_id.as_uuid(), t);
        self.registry.update_status(&agent_id, AgentStatus::Ready)?;
        self.registry.record_task_failed(&agent_id);
        self.events.push(EventKind::TaskTimedOut { task_id });
        Ok(())
    }

    /// Cancel a queued task: it leaves the queue and, when it is in the task
    /// table, becomes `Cancelled` without a reason. A task that is not queued
    /// is `TaskNotFound` and nothing changes.
    pub fn cancel_task(&mut self, task_id: TaskId) -> (r: SwarmResult<()>)
        ensures
            !queued(old(self).queue(), task_id) ==> (r matches Err(SwarmError::TaskNotFound { id })
                && id == task_id) && final(self).queue() == old(self).queue() && final(self).tasks()
                == old(self).tasks(),
            queued(old(self).queue(), task_id) ==> r is Ok && !queued(final(self).queue(), task_id)
                && final(self).outbox() == old(self).outbox().push(
                EventKind::TaskCancelled { task_id },
            ),
            queued(old(self).queue(), task_id) && old(self).tasks().dom().contains(task_id@) ==> (final(self).tasks()[task_id@].status matches TaskStatus::Cancelled { reason, .. } && reason is None),
            final(self).agents() == old(self).agents(),
    {
        let _ = self.task_queue.remove(&task_id)?;
        match tasks_remove(&mut self.tasks, task_id.as_uuid()) {
            Some(mut t) => {
                t.status = TaskStatus::Cancelled { cancelled_at: crate::types::now(), reason: None };
                tasks_insert(&mut self.tasks, task_id.as_uuid(), t);
            },
            None => {},
        }
        self.events.push(EventKind::TaskCancelled { task_id });
        Ok(())
    }

    /// A copy of a task; an unknown task is `TaskNotFound`.
    pub fn get_task(&self, task_id: &TaskId) -> (r: SwarmResult<Task>)
        ensures
            !self.tasks().dom().contains(task_id@) ==> (r matches Err(SwarmError::TaskNotFound { id })
                && id == *task_id),
            self.tasks().dom().contains(task_id@) ==> r is Ok && same_task(
                r->Ok_0,
                self.tasks()[task_id@],
            ),
    {
        match tasks_get(&self.tasks, task_id.as_uuid()) {
            Some(t) => Ok(t),
            None => Err(SwarmError::TaskNotFound { id: *task_id }),
        }
    }

    /// The number of queued tasks.
    pub fn pending_task_count(&self) -> (r: usize)
        ensures
            r == self.queue().len(),
    {
        self.task_queue.len()
    }

    /// Copies of all agent records.
    pub fn list_agents(&self) -> (r: Vec<AgentRecord>)
        ensures
            r@.len() == self.agents().dom().len(),
            forall|i: int| 0 <= i < r@.len() ==> #[trigger] has_agent(self.agents(), r@[i].descriptor.id)
                && crate::orchestrator::registry::same_record(r@[i], self.agents()[r@[i].descriptor.id@]),
    {
        let r = self.registry.all_agents();
        proof {
            assert forall|i: int| 0 <= i < r@.len() implies #[trigger] has_agent(self.agents(), r@[i].descriptor.id)
                && crate::orchestrator::registry::same_record(r@[i], self.agents()[r@[i].descriptor.id@]) by {
                assert(has_agent(self.registry.records(), r@[i].descriptor.id));
            }
        }
        r
    }

    /// Record the outcome of a policy check: the outbox gets
    /// `PolicyEvaluated` with decision `allowed` or `denied`.
    pub fn policy_evaluated(&mut self, action: &str, subject: &str, allowed: bool)
        ensures
            final(self).outbox().len() == old(self).outbox().len() + 1,
            final(self).outbox().last() matches EventKind::PolicyEvaluated { action: a, subject: s, decision: d }
                && a@ == action@ && s@ == subject@ && d@ == (if allowed { "allowed"@ } else { "denied"@ }),
            final(self).agents() == old(self).agents(),
            final(self).queue() == old(self).queue(),
            final(self).tasks() == old(self).tasks(),
    {
        let decision = if allowed { owned("allowed") } else { owned("denied") };
        self.events.push(
            EventKind::PolicyEvaluated { action: owned(action), subject: owned(subject), decision },
        );
    }
}

/// The label a task priority carries in policy checks.
pub fn priority_label(p: crate::task::TaskPriority) -> (r: &'static str)
    ensures
        r@ == match p {
            crate::task::TaskPriority::Low => "low"@,
            crate::task::TaskPriority::Normal => "normal"@,
            crate::task::TaskPriority::High => "high"@,
            crate::task::TaskPriority::Critical => "critical"@,
        },
{
    proof {
        reveal_strlit("low");
        reveal_strlit("normal");
        reveal_strlit("high");
        reveal_strlit("critical");
    }
    match p {
        crate::task::TaskPriority::Low => "low",
        crate::task::TaskPriority::Normal => "normal",
        crate::task::TaskPriority::High => "high",
        crate::task::TaskPriority::Critical => "critical",
    }
}

/// The label of a task priority, as a text.
pub open spec fn priority_text(p: crate::task::TaskPriority) -> Seq<char> {
    match p {
        crate::task::TaskPriority::Low => "low"@,
        crate::task::TaskPriority::Normal => "normal"@,
        crate::task::TaskPriority::High => "high"@,
        crate::task::TaskPriority::Critical => "critical"@,
    }
}

/// The display text of a capability: `name@version`, or the bare name.
pub open spec fn capability_text(c: crate::capability::CapabilityView) -> Seq<char> {
    match c.1 {
        Some(v) => c.0 + "@"@ + v,
        None => c.0,
    }
}

/// The capability texts of a task as string documents.
pub open spec fn capability_documents(caps: Seq<crate::capability::CapabilityView>) -> Seq<serde_json::Value> {
    caps.map_values(|c: crate::capability::CapabilityView| json_string_of(capability_text(c)))
}

/// The metadata entries of a task as object members with string values.
pub open spec fn metadata_members(entries: Seq<(String, String)>) -> Seq<(Seq<char>, serde_json::Value)> {
    entries.map_values(|e: (String, String)| (e.0@, json_string_of(e.1@)))
}

/// The attributes a policy sees for a task: its name, priority label,
/// required capabilities and metadata.
pub open spec fn task_policy_attributes(spec: TaskSpec) -> serde_json::Value {
    json_object_of(
        seq![
            ("task_name"@, json_string_of(spec.name@)),
            ("priority"@, json_string_of(priority_text(spec.priority))),
            ("required_capabilities"@, json_array_of(capability_documents(spec.required_capabilities@))),
            ("metadata"@, json_object_of(metadata_members(spec.metadata.entry_list()))),
        ],
    )
}

/// The policy context of a task action: the action, the orchestrator as
/// subject, the task name as resource, and the task's attributes.
pub fn task_policy_context(action: &str, spec: &TaskSpec) -> (r: PolicyContext)
    ensures
        r.action@ == action@,
        r.subject@ == "orchestrator"@,
        r.resource@ == spec.name@,
        r.attributes == task_policy_attributes(*spec),
{
    let mut ctx = PolicyContext::new(action, "orchestrator", spec.name.as_str());
    let caps = spec.required_capabilities.as_slice();
    let mut items: Vec<serde_json::Value> = Vec::new();
    let mut i: usize = 0;
    while i < caps.len()
        invariant
            i <= caps@.len(),
            crate::capability::caps_view(caps@) == spec.required_capabilities@,
            items@ == capability_documents(crate::capability::caps_view(caps@).take(i as int)),
        decreases caps@.len() - i,
    {
        let text = caps[i].to_text();
        items.push(json_string(text));
        proof {
            assert(capability_documents(crate::capability::caps_view(caps@).take(i + 1)) =~= capability_documents(
                crate::capability::caps_view(caps@).take(i as int),
            ).push(json_string_of(capability_text(caps@[i as int]@))));
        }
        i = i + 1;
    }
    proof {
        assert(crate::capability::caps_view(caps@).take(caps@.len() as int) =~= crate::capability::caps_view(caps@));
    }
    let entries = spec.metadata.entries();
    let mut members: Vec<(String, serde_json::Value)> = Vec::new();
    let mut j: usize = 0;
    while j < entries.len()
        invariant
            j <= entries@.len(),
            entries@ == spec.metadata.entry_list(),
            member_views(members@) == metadata_members(entries@.take(j as int)),
        decreases entries@.len() - j,
    {
        let key = entries[j].0.clone();
        let text = entries[j].1.clone();
        assert(key@ == entries@[j as int].0@);
        assert(text@ == entries@[j as int].1@);
        let value = json_string(text);
        let ghost before = members@;
        members.push((key, value));
        proof {
            assert(members@ == before.push((key, value)));
            assert(member_views(members@) =~= member_views(before).push((key@, value)));
            assert(entries@.take(j + 1) =~= entries@.take(j as int).push(entries@[j as int]));
            assert(metadata_members(entries@.take(j + 1)) =~= metadata_members(entries@.take(j as int)).push(
                (entries@[j as int].0@, json_string_of(entries@[j as int].1@)),
            ));
        }
        j = j + 1;
    }
    proof {
        assert(entries@.take(entries@.len() as int) =~= entries@);
    }
    let mut attrs: Vec<(String, serde_json::Value)> = Vec::new();
    attrs.push((owned("task_name"), json_string(spec.name.clone())));
    attrs.push((owned("priority"), json_string(owned(priority_label(spec.priority)))));
    attrs.push((owned("required_capabilities"), json_array(items)));
    attrs.push((owned("metadata"), json_object_from(members)));
    proof {
        reveal_strlit("task_name");
        reveal_strlit("priority");
        reveal_strlit("required_capabilities");
        reveal_strlit("metadata");
        reveal_strlit("orchestrator");
        assert(member_views(attrs@) =~= seq![
            ("task_name"@, json_string_of(spec.name@)),
            ("priority"@, json_string_of(priority_text(spec.priority))),
            ("required_capabilities"@, json_array_of(capability_documents(spec.required_capabilities@))),
            ("metadata"@, json_object_of(metadata_members(spec.metadata.entry_list()))),
        ]);
    }
    ctx.attributes = json_object_from(attrs);
    ctx
}

} // verus!
