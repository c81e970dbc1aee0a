use swarm::agent::{AgentDescriptor, AgentKind, AgentStatus, SupervisionTree};
use swarm::capability::{Capability, CapabilitySet};
use swarm::error::SwarmError;
use swarm::event::{EventEnvelope, EventKind};
use swarm::identity::{parse_uuid, uuid_text, AgentId, PolicyId, TaskId};
use swarm::policy::{PolicyContext, PolicyDecision};
use swarm::rbac::builtin_roles;
use swarm::rbac::{Permission, Role, Subject};
use swarm::rbac_engine::RbacEngine;
use swarm::task::{Task, TaskPriority, TaskSpec, TaskStatus};
use swarm::types::{Metadata, ResourceLimits, RetryPolicy};

fn make_task() -> Task {
    Task::new(TaskSpec::new("test-task", serde_json::Value::Null))
}

#[test]
fn supervision_tree_root_has_no_supervisor() {
    let id = AgentId::new();
    let tree = SupervisionTree::root(id);
    assert!(tree.supervisor.is_none());
    assert!(tree.subordinates.is_empty());
}

#[test]
fn supervision_tree_add_subordinate_no_duplicates() {
    let supervisor_id = AgentId::new();
    let subordinate_id = AgentId::new();
    let mut tree = SupervisionTree::root(supervisor_id);
    tree.add_subordinate(subordinate_id);
    tree.add_subordinate(subordinate_id);
    assert_eq!(tree.subordinates.len(), 1);
}

#[test]
fn supervision_tree_remove_subordinate_keeps_others() {
    let a = AgentId::new();
    let b = AgentId::new();
    let mut tree = SupervisionTree::with_supervisor(AgentId::new(), AgentId::new());
    tree.add_subordinate(a);
    tree.add_subordinate(b);
    tree.remove_subordinate(a);
    assert_eq!(tree.subordinates, vec![b]);
    assert!(tree.supervisor.is_some());
}

#[test]
fn agent_status_availability() {
    assert!(AgentStatus::Ready.is_available());
    assert!(!AgentStatus::Busy { current_task: TaskId::new() }.is_available());
    assert!(!AgentStatus::Stopped.is_available());
    assert_eq!(AgentStatus::Inactive.label(), "inactive");
    assert_eq!(AgentKind::Worker.label(), "worker");
}

#[test]
fn agent_descriptor_starts_with_defaults() {
    let d = AgentDescriptor::new("worker-1", AgentKind::Worker, CapabilitySet::new());
    assert_eq!(d.name, "worker-1");
    assert!(d.metadata.is_empty());
    assert_eq!(d.resource_limits.max_concurrency, Some(10));
}

#[test]
fn capability_satisfies_unversioned_requirement() {
    let owned = Capability::with_version("text-generation", "1.0");
    let req = Capability::new("text-generation");
    assert!(owned.satisfies(&req));
}

#[test]
fn capability_does_not_satisfy_wrong_version() {
    let owned = Capability::with_version("text-generation", "1.0");
    let req = Capability::with_version("text-generation", "2.0");
    assert!(!owned.satisfies(&req));
}

#[test]
fn capability_set_satisfies_all() {
    let mut set = CapabilitySet::new();
    set.add(Capability::new("text-generation"));
    set.add(Capability::new("image-analysis"));

    let mut required = CapabilitySet::new();
    required.add(Capability::new("text-generation"));

    assert!(set.satisfies_all(&required));
}

#[test]
fn capability_set_fails_missing_capability() {
    let mut set = CapabilitySet::new();
    set.add(Capability::new("text-generation"));

    let mut required = CapabilitySet::new();
    required.add(Capability::new("video-analysis"));

    assert!(!set.satisfies_all(&required));
}

#[test]
fn capability_set_ignores_duplicates() {
    let mut set = CapabilitySet::new();
    set.add(Capability::new("planning"));
    set.add(Capability::new("planning"));
    set.add(Capability::with_version("planning", "1"));
    assert_eq!(set.len(), 2);
    assert!(set.contains(&Capability::with_version("planning", "1")));
}

#[test]
fn capability_display() {
    let cap = Capability::with_version("text-generation", "1.0");
    assert_eq!(cap.to_text(), "text-generation@1.0");
    assert_eq!(Capability::new("plain").to_text(), "plain");
}

#[test]
fn policy_violation_is_security_error() {
    let err = SwarmError::PolicyViolation {
        policy_id: PolicyId::new(),
        action: "create_agent".into(),
        reason: "quota exceeded".into(),
    };
    assert!(err.is_security_error());
    assert!(!err.is_retryable());
}

#[test]
fn task_timeout_is_retryable() {
    let err = SwarmError::TaskTimeout {
        id: TaskId::new(),
        elapsed_ms: 5000,
    };
    assert!(err.is_retryable());
    assert!(!err.is_security_error());
}

#[test]
fn event_envelope_has_unique_ids() {
    let a = EventEnvelope::new(EventKind::OrchestratorStarted);
    let b = EventEnvelope::new(EventKind::OrchestratorStarted);
    assert_ne!(a.id, b.id);
}

#[test]
fn event_envelope_with_correlation() {
    let corr = swarm::identity::random_uuid();
    let ev = EventEnvelope::new(EventKind::OrchestratorStarted).with_correlation(corr);
    assert_eq!(ev.correlation_id, Some(corr));
    let ev = ev.with_source("unit");
    assert_eq!(ev.source.as_deref(), Some("unit"));
}

#[test]
fn agent_id_is_unique() {
    let a = AgentId::new();
    let b = AgentId::new();
    assert_ne!(a, b);
}

#[test]
fn agent_id_roundtrip_display_and_parse() {
    let id = AgentId::new();
    let s = id.to_text();
    let parsed: AgentId = AgentId::parse(&s).expect("should parse back");
    assert_eq!(id, parsed);
}

#[test]
fn task_id_and_agent_id_differ_in_type() {
    let _task_id: TaskId = TaskId::new();
    let _agent_id: AgentId = AgentId::new();
}

#[test]
fn uuid_text_is_hyphenated_lowercase_hex() {
    assert_eq!(uuid_text(0xd3f1), "00000000-0000-0000-0000-00000000d3f1");
    assert_eq!(parse_uuid("00000000-0000-0000-0000-00000000d3f1"), Some(0xd3f1));
    assert_eq!(parse_uuid("not-a-uuid"), None);
}

#[test]
fn policy_decision_is_allowed() {
    assert!(PolicyDecision::Allowed.is_allowed());
    assert!(!PolicyDecision::Allowed.is_denied());
}

#[test]
fn policy_decision_is_denied() {
    let denied = PolicyDecision::Denied {
        policy_id: PolicyId::new(),
        reason: "quota exceeded".into(),
    };
    assert!(denied.is_denied());
    assert!(!denied.is_allowed());
}

#[test]
fn policy_context_new() {
    let ctx = PolicyContext::new("schedule_task", "agent-1", "task-queue");
    assert_eq!(ctx.action, "schedule_task");
    assert_eq!(ctx.subject, "agent-1");
    assert_eq!(ctx.resource, "task-queue");
}

#[test]
fn permission_exact_match() {
    let p = Permission::new("create", "task");
    assert!(p.grants(&Permission::new("create", "task")));
    assert!(!p.grants(&Permission::new("delete", "task")));
}

#[test]
fn permission_wildcard_verb() {
    let p = Permission::new("*", "task");
    assert!(p.grants(&Permission::new("create", "task")));
    assert!(p.grants(&Permission::new("delete", "task")));
    assert!(!p.grants(&Permission::new("create", "agent")));
}

#[test]
fn permission_full_wildcard() {
    let p = Permission::wildcard();
    assert!(p.grants(&Permission::new("create", "task")));
    assert!(p.grants(&Permission::new("delete", "agent")));
    assert_eq!(p.to_text(), "*:*");
}

#[test]
fn role_has_permission() {
    let mut role = Role::new("executor", "Can execute tasks");
    role.add_permission(Permission::new("update", "task"));

    assert!(role.has_permission(&Permission::new("update", "task")));
    assert!(!role.has_permission(&Permission::new("delete", "task")));
}

#[test]
fn rbac_admin_role_grants_everything() {
    let admin = builtin_roles::admin();
    assert!(admin.has_permission(&Permission::new("delete", "agent")));
    assert!(admin.has_permission(&Permission::new("invoke", "plugin")));
}

#[test]
fn builtin_observer_only_reads() {
    let observer = builtin_roles::observer();
    assert!(observer.has_permission(&Permission::new("read", "agent")));
    assert!(!observer.has_permission(&Permission::new("create", "task")));
}

#[test]
fn subject_display() {
    let s = Subject::Agent("abc-123".into());
    assert_eq!(s.as_str(), "agent:abc-123");
    assert_eq!(Subject::ServiceAccount("ci".into()).as_str(), "serviceaccount:ci");
}

#[test]
fn task_initial_status_is_pending() {
    let task = make_task();
    assert_eq!(task.status, TaskStatus::Pending);
    assert_eq!(task.attempt_count, 0);
}

#[test]
fn task_lifecycle_happy_path() {
    let mut task = make_task();
    let agent = AgentId::new();

    task.schedule(agent).expect("schedule should succeed");
    assert!(matches!(task.status, TaskStatus::Scheduled { .. }));

    task.start_running(agent).expect("start_running should succeed");
    assert!(matches!(task.status, TaskStatus::Running { .. }));
    assert_eq!(task.attempt_count, 1);

    task.complete(serde_json::Value::from("ok"));
    assert!(task.status.is_terminal());
    assert_eq!(task.status.label(), "completed");
}

#[test]
fn task_schedule_rejects_invalid_state() {
    let mut task = make_task();
    let agent = AgentId::new();
    task.schedule(agent).unwrap();
    assert!(task.schedule(agent).is_err());
}

#[test]
fn task_retry_only_from_retryable_states() {
    let mut task = make_task();
    assert!(task.retry().is_err());
    task.fail("transient".into());
    assert!(task.status.can_retry());
    task.retry().unwrap();
    assert_eq!(task.status, TaskStatus::Pending);
    task.time_out();
    assert_eq!(task.status.label(), "timed_out");
    task.retry().unwrap();
    task.cancel(Some("operator".into()));
    assert_eq!(task.status.label(), "cancelled");
    task.retry().unwrap();
    task.complete(serde_json::Value::Null);
    assert!(task.retry().is_err());
    assert_eq!(task.status.label(), "completed");
}

#[test]
fn task_spec_validation_rejects_blank_names() {
    assert!(TaskSpec::new("   ", serde_json::Value::Null).validate().is_err());
    assert!(TaskSpec::new("ok", serde_json::Value::Null).validate().is_ok());
}

#[test]
fn task_priority_ordering() {
    assert!(TaskPriority::Critical > TaskPriority::High);
    assert!(TaskPriority::High > TaskPriority::Normal);
    assert!(TaskPriority::Normal > TaskPriority::Low);
    assert!(TaskPriority::Critical.level() > TaskPriority::Low.level());
}

#[test]
fn metadata_insert_and_get() {
    let mut m = Metadata::new();
    m.insert("env", "production");
    assert_eq!(m.get("env"), Some("production"));
    assert_eq!(m.get("missing"), None);
    m.insert("env", "staging");
    assert_eq!(m.get("env"), Some("staging"));
    assert_eq!(m.entries().len(), 1);
}

#[test]
fn resource_limits_default_has_sensible_values() {
    let limits = ResourceLimits::default();
    assert!(limits.max_execution_time.is_some());
    assert!(limits.max_concurrency.is_some());
}

#[test]
fn retry_policy_default_values() {
    let policy = RetryPolicy::default();
    assert_eq!(policy.max_attempts, 3);
    let none = RetryPolicy::no_retry();
    assert_eq!(none.max_attempts, 0);
}

#[test]
fn assign_role_and_check_permission() {
    let mut engine = RbacEngine::new();
    engine.define_role(builtin_roles::task_executor());

    let subject = Subject::Agent("worker-1".into());
    engine.assign_role(&subject, "task-executor");

    assert!(engine.has_permission(&subject, &Permission::new("read", "task")));
    assert!(!engine.has_permission(&subject, &Permission::new("delete", "agent")));
}

#[test]
fn no_permission_without_role() {
    let engine = RbacEngine::new();
    let subject = Subject::User("alice".into());
    assert!(!engine.has_permission(&subject, &Permission::new("create", "task")));
}

#[test]
fn rbac_engine_admin_role_grants_everything() {
    let mut engine = RbacEngine::new();
    engine.define_role(builtin_roles::admin());

    let subject = Subject::User("admin-user".into());
    engine.assign_role(&subject, "admin");

    assert!(engine.has_permission(&subject, &Permission::new("delete", "agent")));
    assert!(engine.has_permission(&subject, &Permission::new("invoke", "plugin")));
}

#[test]
fn revoke_role_removes_permissions() {
    let mut engine = RbacEngine::new();
    engine.define_role(builtin_roles::task_executor());
    let subject = Subject::Agent("worker".into());
    engine.assign_role(&subject, "task-executor");
    engine.revoke_role(&subject, "task-executor");
    assert!(!engine.has_permission(&subject, &Permission::new("read", "task")));
}

#[test]
fn effective_permissions_collect_assigned_roles() {
    let mut engine = RbacEngine::new();
    engine.define_role(builtin_roles::task_executor());
    engine.define_role(builtin_roles::observer());
    let subject = Subject::Plugin("p".into());
    engine.assign_role(&subject, "observer");
    engine.assign_role(&subject, "task-executor");
    engine.assign_role(&subject, "missing-role");
    assert_eq!(engine.effective_permissions(&subject).len(), 4);
}

#[test]
fn agent_not_found_display() {
    let id = AgentId::new();
    let err = SwarmError::AgentNotFound { id };
    assert!(err.message().contains("agent not found"));
    assert_eq!(err.message(), format!("agent not found: {}", id.to_text()));
}

#[test]
fn error_messages_follow_their_variant() {
    let err = SwarmError::TaskTimeout { id: TaskId::from_uuid(1), elapsed_ms: 5000 };
    assert_eq!(err.message(), "task 00000000-0000-0000-0000-000000000001 timed out after 5000ms");
    let err = SwarmError::PermissionDenied {
        subject: "echo".into(),
        permission: "create:task".into(),
        resource: "plugin.invoke:echo".into(),
    };
    assert_eq!(err.message(), "permission denied: subject 'echo' lacks 'create:task' on 'plugin.invoke:echo'");
    let io = SwarmError::Io(std::io::Error::new(std::io::ErrorKind::Other, "disk gone"));
    assert_eq!(io.message(), "I/O error: disk gone");
}

#[test]
fn terminal_tasks_are_immutable() {
    let mut task = Task::new(TaskSpec::new("t", serde_json::Value::Null));
    task.fail("boom".into());
    let status = task.status.clone();
    let updated = task.updated_at;
    task.complete(serde_json::Value::from(1));
    assert_eq!(task.status, status);
    assert_eq!(task.updated_at, updated);
    task.time_out();
    task.cancel(None);
    assert_eq!(task.status, status);
    assert_eq!(task.updated_at, updated);
}

#[test]
fn whole_retry_delays() {
    let policy = RetryPolicy::default();
    assert_eq!(policy.whole_delay_for_attempt(0), Some(0));
    let mut fixed = RetryPolicy::no_retry();
    fixed.initial_delay = 500;
    fixed.max_delay = 200;
    assert_eq!(fixed.whole_delay_for_attempt(3), Some(200));
}
