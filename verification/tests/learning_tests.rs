use swarm::identity::LearningRuleId;
use swarm::learning::event::{LearningEvent, LearningEventKind};
use swarm::learning::output::{LearningCategory, LearningOutput, LearningStatus};
use swarm::learning::scope::{LearningScope, LearningScopeConfig};
use swarm::learning::store::{
    InMemoryLearningStore, LearningLifecycleAction, LearningOutputFilter, LearningStoreDocument,
};
use swarm::learning::strategy::{sorted_unique, text_before, ExecutionTemplateStrategy, LearningContext};

fn json(text: &str) -> serde_json::Value {
    serde_json::from_str(text).unwrap()
}

fn empty() -> serde_json::Value {
    json("{}")
}

#[test]
fn auto_output_creation() {
    let output = LearningOutput::auto(
        LearningCategory::PreferenceAdaptation,
        "Prefer provider X for embeddings",
        json(r#"{"preferred_provider": "openai"}"#),
    );
    assert!(!output.requires_approval);
    assert_eq!(output.status, LearningStatus::Pending);
    assert_eq!(output.scope, LearningScope::Global);
}

#[test]
fn review_output_creation() {
    let output = LearningOutput::requires_review(
        LearningCategory::ConfigurationEvolution,
        "Increase timeout for analytics tasks",
        json(r#"{"timeout_secs": 600}"#),
        json(r#"{"reason": "repeated timeouts observed"}"#),
    );
    assert!(output.requires_approval);
    assert_eq!(output.status, LearningStatus::PendingApproval);
}

#[test]
fn scope_label_uses_primary_scope() {
    let mut output = LearningOutput::auto(LearningCategory::PatternExtraction, "Capture workflow pattern", json(r#"{"ok": true}"#));
    output.set_scope(LearningScope::Workflow { workflow_id: "intake".into() });

    assert_eq!(output.scope_label(), "workflow:intake");
}

#[test]
fn set_scope_changes_only_the_scope() {
    let mut output = LearningOutput::auto(LearningCategory::PatternExtraction, "x", empty());
    output.set_scope(LearningScope::Tenant { tenant_id: "t1".into() });
    assert_eq!(output.scope_label(), "tenant:t1");
    assert_eq!(output.agent_id, None);
    assert_eq!(output.description, "x");
}

#[test]
fn category_from_str_accepts_built_in_label() {
    let category = "plan_template".parse::<LearningCategory>().unwrap();
    assert_eq!(category, LearningCategory::PlanTemplate);
}

#[test]
fn category_from_str_preserves_custom_values() {
    let category = "my_custom_category".parse::<LearningCategory>().unwrap();
    assert_eq!(category, LearningCategory::Custom("my_custom_category".into()));
    assert!("  ".parse::<LearningCategory>().is_err());
    assert_eq!(LearningCategory::Custom("x".into()).label(), "x");
    assert_eq!(LearningCategory::FineTuningData.label(), "fine_tuning_data");
}

#[test]
fn learning_status_labels_and_terminal_states() {
    assert_eq!(LearningStatus::PendingApproval.label(), "pending_approval");
    assert!(LearningStatus::Rejected.is_terminal());
    assert!(LearningStatus::RolledBack.is_terminal());
    assert!(!LearningStatus::Applied.is_terminal());
}

#[test]
fn scope_configs_set_flags() {
    let c = LearningScopeConfig::with_approval(LearningScope::Global);
    assert!(c.enabled && c.require_approval);
    let d = LearningScopeConfig::disabled(LearningScope::Global);
    assert!(!d.enabled);
    let e = LearningScopeConfig::enabled(LearningScope::Global);
    assert!(e.enabled && !e.require_approval);
}

#[test]
fn record_and_approve() {
    let mut store = InMemoryLearningStore::new();
    let output = LearningOutput::requires_review(
        LearningCategory::ConfigurationEvolution,
        "Increase timeout",
        json(r#"{"timeout": 600}"#),
        json(r#"{"reason": "timeouts observed"}"#),
    );
    let id = output.id;
    store.record(output).unwrap();

    let pending = store.list_pending_approvals(&LearningScope::Global).unwrap();
    assert_eq!(pending.len(), 1);

    store.approve(&id).unwrap();
    let approved = store.get(&id).unwrap().unwrap();
    assert_eq!(approved.status, LearningStatus::Applied);
    assert!(approved.applied_at.is_some());
    assert!(store.list_pending_approvals(&LearningScope::Global).unwrap().is_empty());
}

#[test]
fn rollback() {
    let mut store = InMemoryLearningStore::new();
    let output = LearningOutput::auto(LearningCategory::PreferenceAdaptation, "Test", empty());
    let id = output.id;
    store.record(output).unwrap();
    store.approve(&id).unwrap();
    store.rollback(&id).unwrap();

    let rolled_back = store.get(&id).unwrap().unwrap();
    assert_eq!(rolled_back.status, LearningStatus::RolledBack);
}

#[test]
fn unknown_output_is_an_error() {
    let mut store = InMemoryLearningStore::new();
    assert!(store.approve(&LearningRuleId::new()).is_err());
    assert!(store.get(&LearningRuleId::new()).unwrap().is_none());
}

#[test]
fn filters_team_and_workflow_outputs_by_primary_scope() {
    let mut store = InMemoryLearningStore::new();

    let mut team_output = LearningOutput::requires_review(
        LearningCategory::PatternExtraction,
        "Persist team pattern",
        json(r#"{"task_count": 3}"#),
        json(r#"{"source": "team-run"}"#),
    );
    team_output.set_scope(LearningScope::Team { team_id: "team-a".into() });
    store.record(team_output).unwrap();

    let mut workflow_output = LearningOutput::requires_review(
        LearningCategory::PlanTemplate,
        "Persist workflow template",
        json(r#"{"steps": 4}"#),
        json(r#"{"source": "workflow-run"}"#),
    );
    workflow_output.set_scope(LearningScope::Workflow { workflow_id: "workflow-a".into() });
    store.record(workflow_output).unwrap();

    let team_pending = store.list_pending_approvals(&LearningScope::Team { team_id: "team-a".into() }).unwrap();
    assert_eq!(team_pending.len(), 1);
    assert_eq!(team_pending[0].scope.label(), "team");

    let workflow_pending = store
        .list_pending_approvals(&LearningScope::Workflow { workflow_id: "workflow-a".into() })
        .unwrap();
    assert_eq!(workflow_pending.len(), 1);
    assert_eq!(workflow_pending[0].scope.label(), "workflow");

    assert_eq!(store.count(&LearningScope::Global).unwrap(), 2);
    assert_eq!(store.count(&LearningScope::Team { team_id: "team-b".into() }).unwrap(), 0);
}

#[test]
fn file_store_persists_outputs_across_instances() {
    let mut doc = LearningStoreDocument::new();
    let output = LearningOutput::requires_review(LearningCategory::PlanTemplate, "t", empty(), empty());
    let id = output.id;
    doc.record(output);
    let reopened = LearningStoreDocument { outputs: doc.outputs };
    let got = reopened.get(&id).unwrap();
    assert_eq!(got.status, LearningStatus::PendingApproval);
    assert_eq!(reopened.count(&LearningScope::Global), 1);
}

#[test]
fn document_lifecycle_and_batch_updates() {
    let mut doc = LearningStoreDocument::new();
    let a = LearningOutput::requires_review(LearningCategory::PlanTemplate, "a", empty(), empty());
    let b = LearningOutput::requires_review(LearningCategory::PatternExtraction, "b", empty(), empty());
    let c = LearningOutput::auto(LearningCategory::PlanTemplate, "c", empty());
    let a_id = a.id;
    let c_id = c.id;
    doc.record(a);
    doc.record(b);
    doc.record(c);

    let filter = LearningOutputFilter {
        category: Some(LearningCategory::PlanTemplate),
        status: Some(LearningStatus::PendingApproval),
    };
    let listed = doc.list_filtered(&LearningScope::Global, &filter);
    assert_eq!(listed.len(), 1);
    assert_eq!(listed[0].id, a_id);

    let updated = doc.update_matching(&LearningScope::Global, &filter, LearningLifecycleAction::Approve);
    assert_eq!(updated.len(), 1);
    assert_eq!(updated[0].status, LearningStatus::Applied);
    assert_eq!(doc.get(&a_id).unwrap().status, LearningStatus::Applied);
    assert_eq!(doc.get(&c_id).unwrap().status, LearningStatus::Pending);
    assert_eq!(doc.list_pending_approvals(&LearningScope::Global).len(), 1);

    doc.reject(&c_id).unwrap();
    assert_eq!(doc.get(&c_id).unwrap().status, LearningStatus::Rejected);
    assert!(doc.rollback(&LearningRuleId::new()).is_err());
    assert_eq!(LearningLifecycleAction::Rollback.label(), "rollback");
}

#[test]
fn text_helpers_order_and_dedup() {
    assert!(text_before("a", "b"));
    assert!(text_before("ab", "b"));
    assert!(!text_before("b", "b"));
    let sorted = sorted_unique(&vec!["planning".to_string(), "ticketing".to_string(), "planning".to_string()]);
    assert_eq!(sorted, vec!["planning".to_string(), "ticketing".to_string()]);
}

#[test]
fn execution_template_strategy_builds_plan_template_output() {
    let strategy = ExecutionTemplateStrategy::new();
    let event = LearningEvent::task_completed(
        "agent-1",
        "task-1",
        json(
            r#"{
                "task_name": "draft-plan",
                "input": { "ticket": 42, "priority": "high" },
                "output": { "summary": "done", "owner": "ops" },
                "required_capabilities": ["planning", "ticketing", "planning"],
                "metadata": {
                    "swarm.provider.name": "demo-provider",
                    "swarm.personality.name": "Enterprise Base"
                }
            }"#,
        ),
    );

    let outputs = strategy
        .observe(
            &event,
            &LearningContext {
                scope: LearningScope::Workflow { workflow_id: "triage".into() },
                require_approval: false,
                tenant_id: Some("tenant-1".into()),
            },
        )
        .unwrap();

    assert_eq!(outputs.len(), 1);
    assert_eq!(outputs[0].category, LearningCategory::PlanTemplate);
    assert_eq!(outputs[0].scope.label(), "workflow");
    assert_eq!(outputs[0].status, LearningStatus::Pending);
    assert_eq!(outputs[0].delta["required_capabilities"], json(r#"["planning", "ticketing"]"#));
    assert_eq!(outputs[0].delta["output_keys"], json(r#"["owner", "summary"]"#));
    assert_eq!(outputs[0].delta["input_keys"], json(r#"["priority", "ticket"]"#));
    assert_eq!(outputs[0].tenant_id.as_deref(), Some("tenant-1"));
}

#[test]
fn execution_template_strategy_requires_approval_when_asked() {
    let strategy = ExecutionTemplateStrategy::new();
    let event = LearningEvent::task_completed("agent-1", "task-1", json(r#"{"task_name": " x ", "output": {"a": 1}}"#));
    let outputs = strategy
        .observe(&event, &LearningContext { scope: LearningScope::Global, require_approval: true, tenant_id: None })
        .unwrap();
    assert_eq!(outputs.len(), 1);
    assert_eq!(outputs[0].status, LearningStatus::PendingApproval);
    assert!(outputs[0].requires_approval);
    assert_eq!(outputs[0].delta["template_name"], "x");
    assert_eq!(outputs[0].agent_id.as_deref(), Some("agent-1"));
    let no_output = LearningEvent::task_completed("agent-1", "task-1", json(r#"{"task_name": "x"}"#));
    let none = strategy
        .observe(&no_output, &LearningContext { scope: LearningScope::Global, require_approval: true, tenant_id: None })
        .unwrap();
    assert!(none.is_empty());
}

#[test]
fn execution_template_strategy_ignores_non_completed_events() {
    let strategy = ExecutionTemplateStrategy::new();
    let event = LearningEvent::feedback("agent-1", json(r#"{"score": 1}"#));
    assert_eq!(event.kind, LearningEventKind::FeedbackReceived);

    let outputs = strategy
        .observe(&event, &LearningContext { scope: LearningScope::Global, require_approval: true, tenant_id: None })
        .unwrap();

    assert!(outputs.is_empty());
}

#[test]
fn execution_template_strategy_apply_accepts_output() {
    let strategy = ExecutionTemplateStrategy::new();
    let ctx = LearningContext { scope: LearningScope::Global, require_approval: false, tenant_id: None };
    let output = LearningOutput::auto(LearningCategory::PlanTemplate, "t", json(r#"{"template_name": "draft"}"#));
    let result = strategy.apply(&output, &ctx).unwrap();
    assert!(result.success);
    assert_eq!(result.output_id, output.id);
    assert_eq!(result.message, format!("execution-template accepted output {}", output.id.to_text()));
    assert_eq!(strategy.name(), "execution-template");
    assert!(strategy.always_requires_approval());
}
