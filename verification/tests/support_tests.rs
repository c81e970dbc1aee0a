use swarm::builtin_policies::{ActionAllowlistPolicy, AllowAllPolicy, DenyAllPolicy};
use swarm::config::loader::{parse_bool_env, parse_routing_strategy, ConfigLoader, EnvOverrides};
use swarm::config::model::{MemoryBackendKind, ProviderRoutingStrategy};
use swarm::config::secrets::EnvSecretsProvider;
use swarm::error::SwarmError;
use swarm::identity::PolicyId;
use swarm::memory::access::{MemoryAccessProfile, MemoryAccessRule};
use swarm::memory::entry::{MemoryEntry, MemoryScope, MemoryType, SensitivityLevel};
use swarm::memory::in_memory::InMemoryBackend;
use swarm::memory::query::MemoryQuery;
use swarm::memory::retention::RetentionPolicy;
use swarm::personality::boundary::PersonalityBoundary;
use swarm::personality::profile::{PersonalityOverlay, PersonalityProfile, RiskTolerance, TraitMap};
use swarm::personality::registry::PersonalityRegistry;
use swarm::policy::{PolicyContext, PolicyDecision, PolicyOutcome};
use swarm::policy_engine::{enforce_decision, EvaluationStep, PolicyEngine};

fn json(text: &str) -> serde_json::Value {
    serde_json::from_str(text).unwrap()
}

fn agent_scope(id: &str) -> MemoryScope {
    MemoryScope::Agent { agent_id: id.into() }
}

// ── Configuration ────────────────────────────────────────────────────────────

#[test]
fn default_config_is_valid() {
    let cfg = ConfigLoader::defaults();
    assert_eq!(cfg.instance_name, "ai-office-swarm");
    assert_eq!(cfg.orchestrator.event_channel_capacity, 1024);
    assert!(cfg.providers.enabled);
    assert_eq!(cfg.memory.retention_interval_secs, 300);
    assert!(cfg.learning.require_approval_by_default);
}

#[test]
fn env_overrides_apply_extended_settings() {
    let mut env = EnvOverrides::none();
    env.default_provider = Some("openai".into());
    env.routing_strategy = Some("round-robin".into());
    env.memory_backend = Some("plugin".into());
    env.memory_auto_apply_retention = Some("false".into());
    env.learning_enabled = Some("true".into());
    env.learning_require_approval_by_default = Some("false".into());

    let cfg = ConfigLoader::with_env_overrides(ConfigLoader::defaults(), &env);

    assert_eq!(cfg.providers.default_provider.as_deref(), Some("openai"));
    assert_eq!(cfg.providers.routing.strategy, ProviderRoutingStrategy::RoundRobin);
    assert_eq!(cfg.memory.backend, MemoryBackendKind::Plugin);
    assert!(!cfg.memory.auto_apply_retention);
    assert!(cfg.learning.enabled);
    assert!(!cfg.learning.require_approval_by_default);
}

#[test]
fn env_overrides_keep_values_that_do_not_parse() {
    let mut env = EnvOverrides::none();
    env.event_channel_capacity = Some("lots".into());
    env.memory_backend = Some("tape".into());
    env.instance_name = Some("swarm-b".into());
    let cfg = ConfigLoader::with_env_overrides(ConfigLoader::defaults(), &env);
    assert_eq!(cfg.orchestrator.event_channel_capacity, 1024);
    assert_eq!(cfg.memory.backend, MemoryBackendKind::InMemory);
    assert_eq!(cfg.instance_name, "swarm-b");
    assert_eq!(parse_bool_env("YES"), Some(true));
    assert_eq!(parse_bool_env("off"), Some(false));
    assert_eq!(parse_bool_env("maybe"), None);
    assert_eq!(parse_routing_strategy("lowest_cost"), Some(ProviderRoutingStrategy::LowestCost));
}

#[test]
fn env_var_name_without_prefix() {
    let p = EnvSecretsProvider::new();
    assert_eq!(p.env_var_name("github.api_token"), "GITHUB_API_TOKEN");
}

#[test]
fn env_var_name_with_prefix() {
    let p = EnvSecretsProvider::with_prefix("SWARM");
    assert_eq!(p.env_var_name("github.api_token"), "SWARM_GITHUB_API_TOKEN");
}

#[test]
fn missing_env_var_returns_error() {
    let p = EnvSecretsProvider::with_prefix("SWARM_TEST_NONEXISTENT_XYZ");
    let err = p.missing_secret("some.secret");
    assert!(matches!(err, SwarmError::ConfigMissing { key } if key == "SWARM_TEST_NONEXISTENT_XYZ_SOME_SECRET"));
}

// ── Memory ───────────────────────────────────────────────────────────────────

#[test]
fn empty_profile_denies_all() {
    let profile = MemoryAccessProfile::new();
    let scope = agent_scope("a1");
    assert!(!profile.can_read(&scope));
    assert!(!profile.can_write(&scope));
}

#[test]
fn profile_with_rule() {
    let mut profile = MemoryAccessProfile::new();
    let scope = agent_scope("a1");
    profile.add_rule(MemoryAccessRule {
        scope: scope.clone(),
        read: true,
        write: false,
        max_sensitivity: SensitivityLevel::Internal,
    });
    assert!(profile.can_read(&scope));
    assert!(!profile.can_write(&scope));
    assert_eq!(profile.max_sensitivity_for(&scope), Some(SensitivityLevel::Internal));
    assert!(!profile.can_read(&agent_scope("a2")));
}

#[test]
fn memory_entry_creation() {
    let entry = MemoryEntry::new(agent_scope("agent-1"), MemoryType::Structured, json(r#"{"key": "value"}"#));
    assert_eq!(entry.scope.label(), "agent");
    assert_eq!(entry.memory_type.label(), "structured");
    assert!(!entry.is_expired());
    assert!(entry.expired_at(0) == false);
}

#[test]
fn memory_entry_expires_after_its_deadline() {
    let mut entry = MemoryEntry::new(agent_scope("a"), MemoryType::Episodic, json("{}"));
    entry.expires_at = Some(100);
    assert!(!entry.expired_at(100));
    assert!(entry.expired_at(101));
}

#[test]
fn sensitivity_ordering() {
    assert!(SensitivityLevel::Public < SensitivityLevel::Internal);
    assert!(SensitivityLevel::Internal < SensitivityLevel::Confidential);
    assert!(SensitivityLevel::Confidential < SensitivityLevel::Restricted);
    assert!(SensitivityLevel::Restricted.exceeds(&SensitivityLevel::Internal));
}

#[test]
fn query_builder() {
    let q = MemoryQuery::all().with_scope(agent_scope("a1")).with_type(MemoryType::Semantic).with_limit(10);
    assert_eq!(q.limit, Some(10));
    assert!(q.scope.is_some());
    assert!(q.memory_type.is_some());
    assert!(!q.include_expired);
}

#[test]
fn retention_policy_defaults() {
    let policy = RetentionPolicy::default();
    assert!(policy.max_age.is_none());
    assert!(policy.max_entries.is_none());
    assert!(policy.require_audit_on_delete);
    assert_eq!(RetentionPolicy::max_age(60).max_age, Some(60));
}

#[test]
fn store_and_retrieve() {
    let mut backend = InMemoryBackend::new();
    let scope = agent_scope("a1");
    let entry = MemoryEntry::new(scope.clone(), MemoryType::Structured, json(r#"{"key": "value"}"#));
    let now = entry.created_at;
    let id = backend.store(entry).unwrap();
    backend
        .store(MemoryEntry::new(agent_scope("other"), MemoryType::Structured, json("{}")))
        .unwrap();

    let results = backend.retrieve(&MemoryQuery::all().with_scope(scope), now).unwrap();
    assert_eq!(results.len(), 1);
    assert_eq!(results[0].id, id);
}

#[test]
fn retrieve_skips_expired_and_sensitive_entries() {
    let mut backend = InMemoryBackend::new();
    let mut expired = MemoryEntry::new(agent_scope("a"), MemoryType::Structured, json("{}"));
    expired.expires_at = Some(10);
    let mut secret = MemoryEntry::new(agent_scope("a"), MemoryType::Structured, json("{}"));
    secret.sensitivity = SensitivityLevel::Restricted;
    let plain = MemoryEntry::new(agent_scope("a"), MemoryType::Structured, json("{}"));
    let plain_id = plain.id;
    backend.store(expired).unwrap();
    backend.store(secret).unwrap();
    backend.store(plain).unwrap();

    let q = MemoryQuery::all().with_max_sensitivity(SensitivityLevel::Internal);
    let results = backend.retrieve(&q, 20).unwrap();
    assert_eq!(results.len(), 1);
    assert_eq!(results[0].id, plain_id);
}

#[test]
fn delete_entry() {
    let mut backend = InMemoryBackend::new();
    let entry = MemoryEntry::new(agent_scope("a1"), MemoryType::Episodic, json("{}"));
    let id = backend.store(entry).unwrap();
    backend.delete(&id).unwrap();
    assert!(backend.get(&id).unwrap().is_none());
    assert!(backend.delete(&id).is_err());
}

#[test]
fn redact_fields() {
    let mut backend = InMemoryBackend::new();
    let entry = MemoryEntry::new(
        agent_scope("a1"),
        MemoryType::Structured,
        json(r#"{"name": "John", "email": "john@example.com", "role": "admin"}"#),
    );
    let id = backend.store(entry).unwrap();
    backend.redact(&id, &["email".into()]).unwrap();

    let retrieved = backend.get(&id).unwrap().unwrap();
    assert_eq!(retrieved.content["email"], "[REDACTED]");
    assert_eq!(retrieved.content["name"], "John");
}

#[test]
fn retention_removes_old_entries() {
    let mut backend = InMemoryBackend::new();
    let mut old = MemoryEntry::new(agent_scope("a"), MemoryType::Structured, json("{}"));
    old.created_at = 1_000;
    let mut fresh = MemoryEntry::new(agent_scope("a"), MemoryType::Structured, json("{}"));
    fresh.created_at = 100_000;
    let old_id = old.id;
    let fresh_id = fresh.id;
    backend.store(old).unwrap();
    backend.store(fresh).unwrap();

    let removed = backend.apply_retention(&RetentionPolicy::max_age(60), 100_000).unwrap();
    assert_eq!(removed, 1);
    assert!(backend.get(&old_id).unwrap().is_none());
    assert!(backend.get(&fresh_id).unwrap().is_some());
    assert!(backend.health_check().is_ok());
}

// ── Personality ──────────────────────────────────────────────────────────────

#[test]
fn default_boundary_allows_all() {
    let boundary = PersonalityBoundary::default();
    assert!(boundary.risk_within_bounds(RiskTolerance::VeryHigh));
    assert!(boundary.tone_within_bounds("casual"));
    assert!(boundary.verbosity_within_bounds(5));
}

#[test]
fn boundary_restricts_risk() {
    let boundary = PersonalityBoundary { max_risk_tolerance: Some(RiskTolerance::Low), ..Default::default() };
    assert!(boundary.risk_within_bounds(RiskTolerance::Low));
    assert!(boundary.risk_within_bounds(RiskTolerance::VeryLow));
    assert!(!boundary.risk_within_bounds(RiskTolerance::Medium));
}

#[test]
fn boundary_restricts_tone() {
    let boundary = PersonalityBoundary {
        allowed_tones: vec!["formal".into(), "professional".into()],
        ..Default::default()
    };
    assert!(boundary.tone_within_bounds("formal"));
    assert!(!boundary.tone_within_bounds("casual"));
}

#[test]
fn boundary_restricts_verbosity() {
    let boundary = PersonalityBoundary { max_verbosity: Some(3), ..Default::default() };
    assert!(boundary.verbosity_within_bounds(3));
    assert!(!boundary.verbosity_within_bounds(4));
}

#[test]
fn profile_creation() {
    let profile = PersonalityProfile::new("Test Agent", "1.0.0");
    assert_eq!(profile.name, "Test Agent");
    assert_eq!(profile.version, "1.0.0");
    assert_eq!(profile.risk_tolerance, RiskTolerance::Medium);
}

#[test]
fn overlay_merge() {
    let base = PersonalityProfile::new("Base", "1.0.0");
    let overlay = PersonalityOverlay {
        risk_tolerance: Some(RiskTolerance::Low),
        domain_hints: Some(vec!["security".into()]),
        ..Default::default()
    };
    let merged = base.merge_overlay(&overlay);
    assert_eq!(merged.risk_tolerance, RiskTolerance::Low);
    assert_eq!(merged.domain_hints, vec!["security"]);
    assert_eq!(merged.communication_style.tone, base.communication_style.tone);
    assert_eq!(merged.id, base.id);
}

#[test]
fn overlay_traits_override_base_traits() {
    let mut base = PersonalityProfile::new("Base", "1.0.0");
    base.custom_traits.insert("humor".into(), json("1"));
    base.custom_traits.insert("focus".into(), json("2"));
    let mut traits = TraitMap::new();
    traits.insert("humor".into(), json("5"));
    let overlay = PersonalityOverlay { custom_traits: traits, ..Default::default() };
    let merged = base.merge_overlay(&overlay);
    assert_eq!(merged.custom_traits.get("humor"), Some(&json("5")));
    assert_eq!(merged.custom_traits.get("focus"), Some(&json("2")));
    assert_eq!(merged.custom_traits.pairs().len(), 2);
}

#[test]
fn register_and_get() {
    let mut registry = PersonalityRegistry::new();
    let profile = PersonalityProfile::new("Test", "1.0.0");
    let id = profile.id;
    registry.register(profile).unwrap();
    let retrieved = registry.get(&id).unwrap();
    assert_eq!(retrieved.name, "Test");
    assert_eq!(registry.len(), 1);
    assert_eq!(registry.list()[0].1, "Test");
}

#[test]
fn duplicate_registration_fails() {
    let mut registry = PersonalityRegistry::new();
    let profile = PersonalityProfile::new("Test", "1.0.0");
    let dup = profile.duplicate();
    registry.register(profile).unwrap();
    assert!(registry.register(dup).is_err());
    assert_eq!(registry.len(), 1);
}

#[test]
fn deregister_unknown_profile_fails() {
    let mut registry = PersonalityRegistry::new();
    let profile = PersonalityProfile::new("Test", "1.0.0");
    let id = profile.id;
    registry.register(profile).unwrap();
    registry.deregister(&id).unwrap();
    assert!(registry.is_empty());
    assert!(registry.deregister(&id).is_err());
}

// ── Policies ─────────────────────────────────────────────────────────────────

enum Builtin {
    Allow(AllowAllPolicy),
    Deny(DenyAllPolicy),
}

impl Builtin {
    fn evaluate(&self, ctx: &PolicyContext) -> PolicyOutcome {
        match self {
            Builtin::Allow(p) => p.evaluate(ctx).unwrap(),
            Builtin::Deny(p) => p.evaluate(ctx).unwrap(),
        }
    }
}

fn evaluate(engine: &PolicyEngine<Builtin>, ctx: &PolicyContext) -> PolicyDecision {
    let mut outcomes = Vec::new();
    for i in 0..engine.len() {
        let slot = engine.slot(i);
        outcomes.push((slot.id, slot.policy.evaluate(ctx)));
    }
    engine.decide(outcomes)
}

fn ctx() -> PolicyContext {
    PolicyContext::new("create_task", "agent-1", "task-queue")
}

#[test]
fn allow_all_always_allows() {
    let p = AllowAllPolicy::new("test");
    let outcome = p.evaluate(&PolicyContext::new("anything", "anyone", "resource")).unwrap();
    assert_eq!(outcome, PolicyOutcome::Allow);
}

#[test]
fn deny_all_always_denies() {
    let p = DenyAllPolicy::new("test", "blocked");
    let outcome = p.evaluate(&PolicyContext::new("anything", "anyone", "resource")).unwrap();
    assert!(matches!(outcome, PolicyOutcome::Deny { .. }));
}

#[test]
fn action_allowlist_permits_listed_action() {
    let p = ActionAllowlistPolicy::new("test", &["create_task", "read_task"]);
    let outcome = p.evaluate(&PolicyContext::new("create_task", "agent", "task-queue")).unwrap();
    assert_eq!(outcome, PolicyOutcome::Allow);
}

#[test]
fn action_allowlist_denies_unlisted_action() {
    let p = ActionAllowlistPolicy::new("test", &["create_task"]);
    let outcome = p.evaluate(&PolicyContext::new("delete_agent", "agent", "agent-registry")).unwrap();
    assert!(matches!(outcome, PolicyOutcome::Deny { .. }));
}

#[test]
fn allow_by_default_when_no_policies() {
    let engine: PolicyEngine<Builtin> = PolicyEngine::allow_by_default();
    assert!(evaluate(&engine, &ctx()).is_allowed());
}

#[test]
fn deny_by_default_when_no_policies() {
    let engine: PolicyEngine<Builtin> = PolicyEngine::deny_by_default();
    assert!(evaluate(&engine, &ctx()).is_denied());
}

#[test]
fn deny_all_policy_overrides_default() {
    let mut engine = PolicyEngine::allow_by_default();
    let p = DenyAllPolicy::new("deny-all", "testing");
    engine.register(p.id, 0, Builtin::Deny(p));
    assert!(evaluate(&engine, &PolicyContext::new("any-action", "anyone", "anything")).is_denied());
}

#[test]
fn allow_all_policy_overrides_deny_default() {
    let mut engine = PolicyEngine::deny_by_default();
    let p = AllowAllPolicy::new("allow-all");
    engine.register(p.id, 0, Builtin::Allow(p));
    assert!(evaluate(&engine, &PolicyContext::new("any-action", "anyone", "anything")).is_allowed());
}

#[test]
fn higher_priority_policy_decides_first() {
    let mut engine = PolicyEngine::deny_by_default();
    let allow = AllowAllPolicy::new("allow-all");
    let deny = DenyAllPolicy::new("deny-all", "blocked");
    let deny_id = deny.id;
    engine.register(allow.id, 1, Builtin::Allow(allow));
    engine.register(deny.id, 5, Builtin::Deny(deny));
    match evaluate(&engine, &ctx()) {
        PolicyDecision::Denied { policy_id, reason } => {
            assert_eq!(policy_id, deny_id);
            assert_eq!(reason, "blocked");
        }
        PolicyDecision::Allowed => panic!("expected the higher priority deny"),
    }
    engine.unregister(&deny_id);
    assert_eq!(engine.len(), 1);
    assert!(evaluate(&engine, &ctx()).is_allowed());
}

#[test]
fn deny_by_default_uses_stable_policy_id() {
    let engine: PolicyEngine<Builtin> = PolicyEngine::deny_by_default();
    let first = match evaluate(&engine, &ctx()) {
        PolicyDecision::Denied { policy_id, .. } => policy_id,
        PolicyDecision::Allowed => panic!("expected deny-by-default to deny"),
    };
    let second = match evaluate(&engine, &ctx()) {
        PolicyDecision::Denied { policy_id, .. } => policy_id,
        PolicyDecision::Allowed => panic!("expected deny-by-default to deny"),
    };
    assert_eq!(first, second);
    assert_eq!(first, PolicyId::parse("00000000-0000-0000-0000-00000000d3f1").expect("test UUID should parse"));
}

#[test]
fn deny_by_default_uses_same_policy_id_across_engines() {
    let a: PolicyEngine<Builtin> = PolicyEngine::deny_by_default();
    let b: PolicyEngine<Builtin> = PolicyEngine::deny_by_default();
    assert_eq!(evaluate(&a, &ctx()), evaluate(&b, &ctx()));
}

#[test]
fn enforce_returns_error_on_deny() {
    let mut engine = PolicyEngine::allow_by_default();
    let p = DenyAllPolicy::new("deny-all", "blocked");
    engine.register(p.id, 0, Builtin::Deny(p));
    let decision = evaluate(&engine, &PolicyContext::new("delete_agent", "user", "agent"));
    let err = enforce_decision(decision, "delete_agent").unwrap_err();
    assert!(matches!(err, SwarmError::PolicyViolation { action, reason, .. } if action == "delete_agent" && reason == "blocked"));
    assert!(enforce_decision(PolicyDecision::Allowed, "x").is_ok());
}

#[test]
fn retention_keeps_the_newest_entries_in_scope() {
    let mut backend = InMemoryBackend::new();
    let mut ids = Vec::new();
    for (i, at) in [5_000i64, 1_000, 4_000, 2_000, 3_000].iter().enumerate() {
        let mut e = MemoryEntry::new(agent_scope("a"), MemoryType::Structured, json("{}"));
        e.created_at = *at;
        ids.push((i, *at, e.id));
        backend.store(e).unwrap();
    }
    let mut other = MemoryEntry::new(agent_scope("b"), MemoryType::Structured, json("{}"));
    other.created_at = 10;
    let other_id = other.id;
    backend.store(other).unwrap();

    let mut policy = RetentionPolicy::max_entries(2);
    policy.scope = Some(agent_scope("a"));
    let removed = backend.apply_retention(&policy, 6_000).unwrap();
    assert_eq!(removed, 3);
    for (_, at, id) in ids {
        assert_eq!(backend.get(&id).unwrap().is_some(), at >= 4_000);
    }
    assert!(backend.get(&other_id).unwrap().is_some());
}

#[test]
fn env_overrides_leave_other_settings_alone() {
    let mut env = EnvOverrides::none();
    env.memory_backend = Some("plugin".into());
    let base = ConfigLoader::defaults();
    let cfg = ConfigLoader::with_env_overrides(ConfigLoader::defaults(), &env);
    assert_eq!(cfg.memory.backend, MemoryBackendKind::Plugin);
    assert_eq!(cfg.providers.enabled, base.providers.enabled);
    assert_eq!(cfg.providers.allowlist, base.providers.allowlist);
    assert_eq!(cfg.plugins.auto_load, base.plugins.auto_load);
    assert_eq!(cfg.roles.strict_validation, base.roles.strict_validation);
    assert_eq!(cfg.telemetry.otlp_enabled, base.telemetry.otlp_enabled);
}

#[test]
fn next_step_asks_in_order_and_stops_at_the_first_explicit_outcome() {
    let mut engine: PolicyEngine<u8> = PolicyEngine::deny_by_default();
    let low = PolicyId::new();
    let high = PolicyId::new();
    let third = PolicyId::new();
    engine.register(low, 1, 1);
    engine.register(high, 10, 2);
    engine.register(third, 0, 3);
    let mut outcomes = Vec::new();
    match engine.next_step(&outcomes) {
        EvaluationStep::Ask { index, policy_id } => {
            assert_eq!(index, 0);
            assert_eq!(policy_id, high);
        }
        EvaluationStep::Decided(_) => panic!("nothing decided yet"),
    }
    outcomes.push((high, PolicyOutcome::Abstain));
    match engine.next_step(&outcomes) {
        EvaluationStep::Ask { index, policy_id } => {
            assert_eq!(index, 1);
            assert_eq!(policy_id, low);
        }
        EvaluationStep::Decided(_) => panic!("only abstentions so far"),
    }
    outcomes.push((low, PolicyOutcome::Deny { reason: "no".into() }));
    match engine.next_step(&outcomes) {
        EvaluationStep::Decided(PolicyDecision::Denied { policy_id, reason }) => {
            assert_eq!(policy_id, low);
            assert_eq!(reason, "no");
        }
        _ => panic!("the denial decides"),
    }
}

#[test]
fn next_step_falls_back_when_every_policy_abstains() {
    let mut engine: PolicyEngine<u8> = PolicyEngine::allow_by_default();
    let only = PolicyId::new();
    engine.register(only, 0, 1);
    let outcomes = vec![(only, PolicyOutcome::Abstain)];
    assert!(matches!(engine.next_step(&outcomes), EvaluationStep::Decided(PolicyDecision::Allowed)));
}
