use swarm::agent::{AgentDescriptor, AgentKind, AgentStatus};
use swarm::capability::{Capability, CapabilitySet};
use swarm::error::SwarmError;
use swarm::event::EventKind;
use swarm::identity::{AgentId, TaskId};
use swarm::orchestrator::control::{task_policy_context, OrchestratorConfig, OrchestratorState};
use swarm::orchestrator::registry::AgentRegistry;
use swarm::orchestrator::scheduler::{Scheduler, SchedulingDecision};
use swarm::orchestrator::supervision::SupervisionManager;
use swarm::orchestrator::task_queue::TaskQueue;
use swarm::orchestrator::task_store::{InMemoryTaskStore, TaskStoreDocument};
use swarm::task::{Task, TaskPriority, TaskSpec, TaskStatus};

fn empty() -> serde_json::Value {
    serde_json::Value::Object(serde_json::Map::new())
}

fn make_descriptor(name: &str) -> AgentDescriptor {
    AgentDescriptor::new(name, AgentKind::Worker, CapabilitySet::new())
}

fn make_task(priority: TaskPriority) -> Task {
    let mut spec = TaskSpec::new("test-task", empty());
    spec.priority = priority;
    Task::new(spec)
}

fn make_registry_with_agent(name: &str, caps: CapabilitySet) -> (AgentRegistry, AgentId) {
    let mut registry = AgentRegistry::new();
    let desc = AgentDescriptor::new(name, AgentKind::Worker, caps);
    let id = registry.register(desc).unwrap();
    registry.update_status(&id, AgentStatus::Ready).unwrap();
    (registry, id)
}

fn caps(names: &[&str]) -> CapabilitySet {
    let mut c = CapabilitySet::new();
    for n in names {
        c.add(Capability::new(n));
    }
    c
}

fn state_with_ready_worker(capabilities: CapabilitySet) -> (OrchestratorState, AgentId) {
    let mut state = OrchestratorState::new(&OrchestratorConfig::default_config());
    let id = state
        .register_agent(AgentDescriptor::new("worker", AgentKind::Worker, capabilities))
        .unwrap();
    state.set_agent_ready(id).unwrap();
    (state, id)
}

#[test]
fn registry_register_and_retrieve() {
    let mut registry = AgentRegistry::new();
    let desc = make_descriptor("worker-1");
    let id = registry.register(desc).expect("should register");
    let record = registry.get(&id).expect("should find");
    assert_eq!(record.descriptor.name, "worker-1");
}

#[test]
fn register_duplicate_fails() {
    let mut registry = AgentRegistry::new();
    let id = registry.register(make_descriptor("worker-1")).unwrap();
    let desc2 = AgentDescriptor { id, ..make_descriptor("worker-1") };
    assert!(registry.register(desc2).is_err());
    assert_eq!(registry.len(), 1);
}

#[test]
fn update_status_and_available_agents() {
    let mut registry = AgentRegistry::new();
    let id = registry.register(make_descriptor("worker-1")).unwrap();

    assert!(registry.available_agents().is_empty());

    registry.update_status(&id, AgentStatus::Ready).unwrap();
    assert_eq!(registry.available_agents().len(), 1);
}

#[test]
fn deregister_removes_agent() {
    let mut registry = AgentRegistry::new();
    let id = registry.register(make_descriptor("worker-1")).unwrap();
    registry.deregister(&id).expect("should deregister");
    assert!(registry.get(&id).is_err());
    assert!(registry.is_empty());
}

#[test]
fn registry_counts_task_results() {
    let mut registry = AgentRegistry::new();
    let id = registry.register(make_descriptor("worker-1")).unwrap();
    registry.record_task_completed(&id);
    registry.record_task_completed(&id);
    registry.record_task_failed(&id);
    let record = registry.get(&id).unwrap();
    assert_eq!(record.tasks_completed, 2);
    assert_eq!(record.tasks_failed, 1);
}

#[test]
fn schedules_to_capable_agent() {
    let (registry, agent_id) = make_registry_with_agent("worker", caps(&["text-generation"]));
    let scheduler = Scheduler::new(registry);

    let mut spec = TaskSpec::new("gen-task", empty());
    spec.required_capabilities = caps(&["text-generation"]);
    let task = Task::new(spec);

    let decision = scheduler.schedule(&task).unwrap();
    assert!(matches!(decision, SchedulingDecision::Assigned { agent_id: id, .. } if id == agent_id));
}

#[test]
fn no_capable_agent_when_capability_missing() {
    let (registry, _) = make_registry_with_agent("worker", CapabilitySet::new());
    let scheduler = Scheduler::new(registry);

    let mut spec = TaskSpec::new("gen-task", empty());
    spec.required_capabilities = caps(&["image-analysis"]);
    let task = Task::new(spec);

    let decision = scheduler.schedule(&task).unwrap();
    assert!(matches!(decision, SchedulingDecision::NoCapableAgent { .. }));
    assert!(!scheduler.is_satisfiable(&task));
}

#[test]
fn unavailable_agent_not_scheduled() {
    let mut registry = AgentRegistry::new();
    let desc = AgentDescriptor::new("worker", AgentKind::Worker, CapabilitySet::new());
    let _id = registry.register(desc).unwrap();

    let scheduler = Scheduler::new(registry);
    let task = Task::new(TaskSpec::new("task", empty()));
    let decision = scheduler.schedule(&task).unwrap();
    assert!(matches!(decision, SchedulingDecision::NoCapableAgent { .. }));
}

#[test]
fn register_root_and_subordinate() {
    let mut mgr = SupervisionManager::new();
    let exec = AgentId::new();
    let worker = AgentId::new();

    mgr.register_root(exec);
    mgr.register_under(worker, exec).unwrap();

    assert_eq!(mgr.supervisor_of(&worker), Some(exec));
    assert_eq!(mgr.subordinates_of(&exec), vec![worker]);
    assert_eq!(mgr.escalation_target(&worker), Some(exec));
}

#[test]
fn register_under_unknown_supervisor_fails() {
    let mut mgr = SupervisionManager::new();
    let unknown = AgentId::new();
    let worker = AgentId::new();

    let result = mgr.register_under(worker, unknown);
    assert!(result.is_err());
}

#[test]
fn ancestry_chain() {
    let mut mgr = SupervisionManager::new();
    let exec = AgentId::new();
    let manager = AgentId::new();
    let worker = AgentId::new();

    mgr.register_root(exec);
    mgr.register_under(manager, exec).unwrap();
    mgr.register_under(worker, manager).unwrap();

    let chain = mgr.ancestry(&worker);
    assert_eq!(chain, vec![manager, exec]);
}

#[test]
fn deregister_removes_from_supervisor() {
    let mut mgr = SupervisionManager::new();
    let exec = AgentId::new();
    let worker = AgentId::new();

    mgr.register_root(exec);
    mgr.register_under(worker, exec).unwrap();
    mgr.deregister(&worker);

    assert!(mgr.subordinates_of(&exec).is_empty());
    assert_eq!(mgr.supervisor_of(&worker), None);
}

#[test]
fn enqueue_and_dequeue_fifo_same_priority() {
    let mut queue = TaskQueue::new();
    let t1 = make_task(TaskPriority::Normal);
    let t2 = make_task(TaskPriority::Normal);
    let id1 = t1.id;

    queue.enqueue(t1).unwrap();
    queue.enqueue(t2).unwrap();

    let dequeued = queue.dequeue().unwrap();
    assert_eq!(dequeued.id, id1, "FIFO within same priority");
}

#[test]
fn high_priority_dequeued_before_normal() {
    let mut queue = TaskQueue::new();
    let normal = make_task(TaskPriority::Normal);
    let high = make_task(TaskPriority::High);
    let high_id = high.id;

    queue.enqueue(normal).unwrap();
    queue.enqueue(high).unwrap();

    let first = queue.dequeue().unwrap();
    assert_eq!(first.id, high_id);
}

#[test]
fn remove_by_id() {
    let mut queue = TaskQueue::new();
    let task = make_task(TaskPriority::Normal);
    let id = task.id;
    queue.enqueue(task).unwrap();
    queue.remove(&id).expect("should remove");
    assert!(queue.is_empty());
    assert!(queue.remove(&id).is_err());
}

#[test]
fn queue_len() {
    let mut queue = TaskQueue::new();
    assert_eq!(queue.len(), 0);
    queue.enqueue(make_task(TaskPriority::Normal)).unwrap();
    queue.enqueue(make_task(TaskPriority::High)).unwrap();
    assert_eq!(queue.len(), 2);
}

#[test]
fn duplicate_task_id_is_rejected_without_mutating_queue() {
    let mut queue = TaskQueue::new();
    let task = make_task(TaskPriority::Normal);
    let duplicate = task.duplicate();
    let id = task.id;

    queue.enqueue(task).unwrap();
    let err = queue.enqueue(duplicate).expect_err("duplicate task ID should be rejected");

    assert!(matches!(err, SwarmError::InvalidTaskSpec { .. }));
    assert_eq!(queue.len(), 1);
    assert_eq!(queue.peek().unwrap().id, id);
    assert_eq!(queue.dequeue().unwrap().id, id);
    assert!(queue.is_empty());
}

#[test]
fn remove_one_task_does_not_drop_another_with_same_timestamp() {
    let mut queue = TaskQueue::new();
    let t1 = make_task(TaskPriority::Normal);
    let t2 = make_task(TaskPriority::Normal);
    let id2 = t2.id;

    queue.enqueue(t1).unwrap();
    queue.enqueue(t2).unwrap();

    let first = queue.dequeue().unwrap();
    assert_eq!(queue.len(), 1);
    assert_eq!(queue.peek().unwrap().id, id2);
    assert_ne!(first.id, queue.peek().unwrap().id);
}

#[test]
fn cancel_marks_pending_task_as_cancelled() {
    let mut store = InMemoryTaskStore::new();
    let task = make_task(TaskPriority::Normal);
    let id = task.id;
    store.record(task).unwrap();

    let cancelled = store.cancel(&id, Some("operator".into())).unwrap();

    assert!(matches!(cancelled.status, TaskStatus::Cancelled { .. }));
    assert_eq!(store.get(&id).unwrap().unwrap().status.label(), "cancelled");
}

#[test]
fn cancel_rejects_non_pending_tasks() {
    let mut store = InMemoryTaskStore::new();
    let mut task = make_task(TaskPriority::Normal);
    task.complete(serde_json::Value::from(true));
    let id = task.id;
    store.record(task).unwrap();

    let error = store.cancel(&id, None).unwrap_err();
    assert!(matches!(error, SwarmError::InvalidTaskSpec { .. }));
}

#[test]
fn retry_requeues_failed_task() {
    let mut store = InMemoryTaskStore::new();
    let mut task = make_task(TaskPriority::Normal);
    task.fail("transient".into());
    let id = task.id;
    store.record(task).unwrap();

    let retried = store.retry(&id).unwrap();

    assert_eq!(retried.status.label(), "pending");
    assert_eq!(store.get(&id).unwrap().unwrap().status.label(), "pending");
}

#[test]
fn retry_rejects_completed_tasks() {
    let mut store = InMemoryTaskStore::new();
    let mut task = make_task(TaskPriority::Normal);
    task.complete(serde_json::Value::from(true));
    let id = task.id;
    store.record(task).unwrap();

    let error = store.retry(&id).unwrap_err();

    assert!(matches!(error, SwarmError::InvalidTaskSpec { .. }));
}

#[test]
fn task_store_document_lists_newest_first_and_replaces() {
    let mut doc = TaskStoreDocument::new();
    let mut older = make_task(TaskPriority::Normal);
    older.created_at = 10;
    let mut newer = make_task(TaskPriority::Normal);
    newer.created_at = 20;
    let older_id = older.id;
    let newer_id = newer.id;
    doc.record(older);
    doc.record(newer);
    let listed = doc.list();
    assert_eq!(listed[0].id, newer_id);
    assert_eq!(listed[1].id, older_id);

    let mut replaced = doc.get(&older_id).unwrap();
    replaced.fail("boom".into());
    doc.record(replaced);
    assert_eq!(doc.list().len(), 2);
    assert_eq!(doc.get(&older_id).unwrap().status.label(), "failed");
    assert!(doc.get(&TaskId::new()).is_none());
    assert_eq!(doc.retry(&older_id).unwrap().status.label(), "pending");
}

#[test]
fn submit_and_schedule_task() {
    let (mut state, agent) = state_with_ready_worker(caps(&["text-generation"]));
    let mut spec = TaskSpec::new("gen", empty());
    spec.required_capabilities = caps(&["text-generation"]);
    let task_id = state.admit_task(spec).unwrap();
    assert_eq!(state.pending_task_count(), 1);

    let scheduled = state.try_schedule_next().unwrap();
    assert_eq!(scheduled, Some(task_id));
    let task = state.get_task(&task_id).unwrap();
    assert!(matches!(task.status, TaskStatus::Scheduled { assigned_to } if assigned_to == agent));
}

#[test]
fn task_not_scheduled_when_no_capable_agent() {
    let (mut state, _) = state_with_ready_worker(CapabilitySet::new());
    let mut spec = TaskSpec::new("gen", empty());
    spec.required_capabilities = caps(&["image-analysis"]);
    let task_id = state.admit_task(spec).unwrap();

    assert_eq!(state.try_schedule_next().unwrap(), None);
    assert_eq!(state.get_task(&task_id).unwrap().status, TaskStatus::Pending);
}

#[test]
fn full_task_lifecycle() {
    let (mut state, agent) = state_with_ready_worker(CapabilitySet::new());
    let task_id = state.admit_task(TaskSpec::new("work", empty())).unwrap();
    assert_eq!(state.try_schedule_next().unwrap(), Some(task_id));
    state.record_task_started(task_id, agent).unwrap();
    assert_eq!(state.in_flight_task_count(), 1);
    state
        .record_task_completed(task_id, agent, serde_json::Value::from("done"))
        .unwrap();
    assert_eq!(state.get_task(&task_id).unwrap().status.label(), "completed");
    assert_eq!(state.in_flight_task_count(), 0);
    let agents = state.list_agents();
    assert_eq!(agents.len(), 1);
    assert_eq!(agents[0].tasks_completed, 1);
    assert_eq!(agents[0].status, AgentStatus::Ready);
}

#[test]
fn invalid_task_name_rejected() {
    let (mut state, _) = state_with_ready_worker(CapabilitySet::new());
    let spec = TaskSpec::new("   ", empty());
    assert!(matches!(state.prepare_submission(spec), Err(SwarmError::InvalidTaskSpec { .. })));
    assert_eq!(state.pending_task_count(), 0);
}

#[test]
fn set_agent_ready_emits_actual_previous_status() {
    let mut state = OrchestratorState::new(&OrchestratorConfig::default_config());
    let agent_id = state.register_agent(make_descriptor("worker")).unwrap();
    state.drain_events();

    state.set_agent_ready(agent_id).unwrap();

    let events = state.drain_events();
    let changed = events.iter().find_map(|e| match e {
        EventKind::AgentStatusChanged { agent_id: a, previous, current } => Some((*a, previous.clone(), current.clone())),
        _ => None,
    });
    let (event_agent, previous, current) = changed.expect("status change event");
    assert_eq!(event_agent, agent_id);
    assert_eq!(previous, "inactive");
    assert_eq!(current, "ready");
}

#[test]
fn record_task_started_requires_existing_task() {
    let (mut state, agent_id) = state_with_ready_worker(CapabilitySet::new());
    let missing_task_id = TaskId::new();
    assert!(matches!(
        state.record_task_started(missing_task_id, agent_id),
        Err(SwarmError::TaskNotFound { id }) if id == missing_task_id
    ));
}

#[test]
fn submit_task_applies_default_timeout_when_missing() {
    let mut config = OrchestratorConfig::default_config();
    config.default_task_timeout = Some(5_000);
    let state = OrchestratorState::new(&config);
    let mut spec = TaskSpec::new("t", empty());
    spec.timeout = None;
    let prepared = state.prepare_submission(spec).unwrap();
    assert_eq!(prepared.timeout, Some(5_000));
    let mut explicit = TaskSpec::new("t", empty());
    explicit.timeout = Some(10);
    assert_eq!(state.prepare_submission(explicit).unwrap().timeout, Some(10));
}

#[test]
fn zero_default_timeout_preserves_timeout_none() {
    let mut config = OrchestratorConfig::default_config();
    config.default_task_timeout = None;
    let state = OrchestratorState::new(&config);
    let mut spec = TaskSpec::new("t", empty());
    spec.timeout = None;
    let prepared = state.prepare_submission(spec).unwrap();
    assert_eq!(prepared.timeout, None);
}

#[test]
fn scheduling_respects_global_concurrency_limit() {
    let mut config = OrchestratorConfig::default_config();
    config.max_concurrent_tasks = 1;
    let mut state = OrchestratorState::new(&config);
    for name in ["w1", "w2"] {
        let id = state.register_agent(make_descriptor(name)).unwrap();
        state.set_agent_ready(id).unwrap();
    }
    let first = state.admit_task(TaskSpec::new("one", empty())).unwrap();
    let _second = state.admit_task(TaskSpec::new("two", empty())).unwrap();
    assert_eq!(state.try_schedule_next().unwrap(), Some(first));
    assert_eq!(state.try_schedule_next().unwrap(), None);
    assert_eq!(state.pending_task_count(), 1);
}

#[test]
fn cancel_queued_task_removes_it() {
    let (mut state, _) = state_with_ready_worker(caps(&["missing"]));
    let mut spec = TaskSpec::new("t", empty());
    spec.required_capabilities = caps(&["other"]);
    let id = state.admit_task(spec).unwrap();
    state.cancel_task(id).unwrap();
    assert_eq!(state.get_task(&id).unwrap().status.label(), "cancelled");
    assert!(state.cancel_task(id).is_err());
}

#[test]
fn import_task_keeps_the_snapshot_identity() {
    let (mut state, agent) = state_with_ready_worker(CapabilitySet::new());
    let task = Task::new(TaskSpec::new("persisted", empty()));
    let id = task.id;
    assert_eq!(state.import_task(task.duplicate()).unwrap(), id);
    assert!(matches!(state.import_task(task), Err(SwarmError::InvalidTaskSpec { .. })));
    let mut done = Task::new(TaskSpec::new("done", empty()));
    done.complete(empty());
    assert!(state.import_task(done).is_err());
    assert_eq!(state.try_schedule_next().unwrap(), Some(id));
    assert!(matches!(state.get_task(&id).unwrap().status, TaskStatus::Scheduled { assigned_to } if assigned_to == agent));
}

#[test]
fn task_policy_context_describes_the_task() {
    let mut spec = TaskSpec::new("draft", empty());
    spec.priority = TaskPriority::High;
    spec.required_capabilities = caps(&["planning"]);
    spec.metadata.insert("team", "ops");
    let ctx = task_policy_context("submit_task", &spec);
    assert_eq!(ctx.action, "submit_task");
    assert_eq!(ctx.subject, "orchestrator");
    assert_eq!(ctx.resource, "draft");
    let expected: serde_json::Value = serde_json::from_str(
        r#"{"task_name": "draft", "priority": "high", "required_capabilities": ["planning"], "metadata": {"team": "ops"}}"#,
    )
    .unwrap();
    assert_eq!(ctx.attributes, expected);
}

#[test]
fn enqueue_at_orders_equal_priorities_by_arrival() {
    let mut queue = TaskQueue::new();
    let t1 = make_task(TaskPriority::Normal);
    let t2 = make_task(TaskPriority::Normal);
    let t3 = make_task(TaskPriority::Normal);
    let (id1, id2, id3) = (t1.id, t2.id, t3.id);
    queue.enqueue_at(t1, 10).unwrap();
    queue.enqueue_at(t2, 10).unwrap();
    queue.enqueue_at(t3, 20).unwrap();
    assert_eq!(queue.dequeue().unwrap().id, id1);
    assert_eq!(queue.dequeue().unwrap().id, id2);
    assert_eq!(queue.dequeue().unwrap().id, id3);
    assert!(queue.dequeue().is_none());
}

#[test]
fn enqueue_errors_name_the_status_and_the_task() {
    let mut queue = TaskQueue::new();
    let mut done = make_task(TaskPriority::Normal);
    done.complete(serde_json::Value::from(true));
    let err = queue.enqueue(done).unwrap_err();
    assert!(matches!(err, SwarmError::InvalidTaskSpec { reason }
        if reason == "only Pending tasks can be enqueued; got completed"));
    let task = make_task(TaskPriority::Normal);
    let id = task.id;
    let copy = task.duplicate();
    queue.enqueue(task).unwrap();
    let err = queue.enqueue(copy).unwrap_err();
    assert!(matches!(err, SwarmError::InvalidTaskSpec { reason }
        if reason == format!("task {} is already enqueued", id.to_text())));
}

#[test]
fn store_retry_reason_names_the_state() {
    let mut store = InMemoryTaskStore::new();
    let mut task = make_task(TaskPriority::Normal);
    task.complete(serde_json::Value::from(true));
    let id = task.id;
    store.record(task).unwrap();
    let error = store.retry(&id).unwrap_err();
    assert!(matches!(error, SwarmError::InvalidTaskSpec { reason }
        if reason == "only failed, cancelled, or timed out tasks can be retried from the task store; got completed"));
    assert_eq!(store.get(&id).unwrap().unwrap().status.label(), "completed");
}

#[test]
fn assign_refuses_a_task_that_is_not_queued() {
    let (mut state, _) = state_with_ready_worker(CapabilitySet::new());
    let task = make_task(TaskPriority::Normal);
    let id = task.id;
    assert!(matches!(state.assign(&task), Err(SwarmError::TaskNotFound { id: e }) if e == id));
    assert_eq!(state.pending_task_count(), 0);
}

#[test]
fn started_task_counts_one_more_attempt() {
    let (mut state, agent) = state_with_ready_worker(CapabilitySet::new());
    let task_id = state.admit_task(TaskSpec::new("work", empty())).unwrap();
    let queued = state.next_schedulable().unwrap();
    assert_eq!(state.assign(&queued).unwrap(), Some(task_id));
    state.record_task_started(task_id, agent).unwrap();
    let task = state.get_task(&task_id).unwrap();
    assert_eq!(task.attempt_count, 1);
    assert!(matches!(task.status, TaskStatus::Running { executing_on, .. } if executing_on == agent));
    assert!(state.record_task_started(task_id, agent).is_err());
    assert_eq!(state.get_task(&task_id).unwrap().attempt_count, 1);
}

#[test]
fn recording_a_failure_readies_the_agent() {
    let (mut state, agent) = state_with_ready_worker(CapabilitySet::new());
    let task_id = state.admit_task(TaskSpec::new("work", empty())).unwrap();
    state.try_schedule_next().unwrap();
    state.record_task_started(task_id, agent).unwrap();
    state.record_task_failed(task_id, agent, "boom".into()).unwrap();
    let agents = state.list_agents();
    assert_eq!(agents[0].tasks_failed, 1);
    assert_eq!(agents[0].status, AgentStatus::Ready);
    assert_eq!(state.get_task(&task_id).unwrap().status.label(), "failed");
    assert!(state.record_task_timed_out(task_id, agent).is_ok());
    assert_eq!(state.get_task(&task_id).unwrap().status.label(), "failed");
}
