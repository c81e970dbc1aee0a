use std::cmp::Ordering;

use swarm::cli::args::TaskSubmitArgs;
use swarm::cli::learning::{
    batch_action_filter, default_status_for_action, format_batch_action_verb, learning_output_filter,
    learning_scope_label, parse_learning_category, parse_learning_status, pending_filter, required_scope_id,
    resolve_scope,
};
use swarm::cli::role::{resolve_roles_dir, role_validation_verdict};
use swarm::cli::task::{
    build_task_spec, combined_capabilities, orchestrator_config_from_swarm, parse_metadata, parse_priority,
    parse_retryable_status_filter, plan_processing, plan_retry, status_matches,
};
use swarm::cli::update::{
    archive_kind, asset_name_for_target, check_tar_entry, compare_versions, executable_name,
    format_check_report, normalize_tag, normalize_version, plan_update, release_url, supported_target_triple,
    tar_entry_type_label, validate_relative_archive_path, validate_tar_entry_type, ArchiveKind, UpdatePlan,
};
use swarm::config::model::{LearningScopeKind, SwarmConfig};
use swarm::learning::output::{LearningCategory, LearningOutput, LearningStatus};
use swarm::learning::scope::LearningScope;
use swarm::learning::store::LearningLifecycleAction;
use swarm::capability::Capability;
use swarm::cli::workers::{builtin_worker_output, demo_task_spec, echo_worker_output, sorted_texts};
use swarm::task::{Task, TaskPriority, TaskSpec};

fn empty() -> serde_json::Value {
    serde_json::Value::Object(serde_json::Map::new())
}

fn submit_args(name: &str, input: &str, priority: &str) -> TaskSubmitArgs {
    TaskSubmitArgs {
        name: name.into(),
        input: input.into(),
        priority: priority.into(),
        capabilities: vec![],
        metadata: vec![],
        timeout_secs: None,
        format: "text".into(),
    }
}

#[test]
fn demo_uses_loaded_orchestrator_config() {
    let mut config = SwarmConfig::default();
    config.orchestrator.event_channel_capacity = 32;
    config.orchestrator.max_dispatch_per_tick = 7;

    let orchestrator_config = orchestrator_config_from_swarm(&config.orchestrator);

    assert_eq!(orchestrator_config.event_channel_capacity, 32);
    assert_eq!(orchestrator_config.max_dispatch_per_tick, 7);
    assert_eq!(orchestrator_config.default_task_timeout, Some(300_000));
}

#[test]
fn orchestrator_config_zero_timeout_disables_default() {
    let mut config = SwarmConfig::default();
    config.orchestrator.default_task_timeout_secs = 0;
    assert_eq!(orchestrator_config_from_swarm(&config.orchestrator).default_task_timeout, None);
}

#[test]
fn resolve_scope_uses_global_without_id() {
    let mut config = SwarmConfig::default();
    config.learning.default_scope = LearningScopeKind::Global;

    let scope = resolve_scope(None, None, &config).unwrap();
    assert_eq!(scope, LearningScope::Global);
}

#[test]
fn resolve_scope_requires_scope_id_for_tenant_scope() {
    let config = SwarmConfig::default();
    let error = resolve_scope(Some("tenant"), None, &config).unwrap_err();
    assert!(error.to_string().contains("--scope-id is required"));
}

#[test]
fn resolve_scope_builds_requested_scope() {
    let config = SwarmConfig::default();
    let scope = resolve_scope(Some(" Team "), Some("ops"), &config).unwrap();
    assert_eq!(scope, LearningScope::Team { team_id: "ops".into() });
    assert!(resolve_scope(Some("galaxy"), None, &config).is_err());
    assert_eq!(required_scope_id("agent", Some("a1")), Ok("a1"));
}

#[test]
fn learning_scope_label_prefers_agent_scope() {
    let mut output = LearningOutput::auto(LearningCategory::PreferenceAdaptation, "Test", empty());
    output.set_scope(LearningScope::Agent { agent_id: "agent-1".into() });

    assert_eq!(learning_scope_label(&output), "agent:agent-1");
}

#[test]
fn learning_scope_label_supports_team_scope() {
    let mut output = LearningOutput::auto(LearningCategory::PreferenceAdaptation, "Test", empty());
    output.set_scope(LearningScope::Team { team_id: "ops".into() });

    assert_eq!(learning_scope_label(&output), "team:ops");
}

#[test]
fn parse_learning_status_rejects_unknown_values() {
    let error = parse_learning_status("mystery").unwrap_err();
    assert!(error.to_string().contains("unsupported learning status"));
    assert_eq!(parse_learning_status("rolled_back"), Ok(LearningStatus::RolledBack));
}

#[test]
fn parse_learning_category_supports_builtin_labels() {
    let category = parse_learning_category("plan_template").unwrap();
    assert_eq!(category, LearningCategory::PlanTemplate);
}

#[test]
fn learning_output_filter_parses_category_and_status() {
    let filter = learning_output_filter(Some("plan_template"), Some("pending_approval")).unwrap();
    assert_eq!(filter.category, Some(LearningCategory::PlanTemplate));
    assert_eq!(filter.status, Some(LearningStatus::PendingApproval));
}

#[test]
fn learning_output_filter_matches_expected_output() {
    let filter = learning_output_filter(Some("plan_template"), Some("pending_approval")).unwrap();
    let output = LearningOutput::requires_review(LearningCategory::PlanTemplate, "Template", empty(), empty());

    assert!(filter.matches(&output));
}

#[test]
fn batch_filters_default_their_status() {
    let approve = batch_action_filter(None, None, LearningLifecycleAction::Approve).unwrap();
    assert_eq!(approve.status, Some(LearningStatus::PendingApproval));
    let rollback = batch_action_filter(None, None, LearningLifecycleAction::Rollback).unwrap();
    assert_eq!(rollback.status, Some(LearningStatus::Applied));
    assert_eq!(default_status_for_action(LearningLifecycleAction::Reject), LearningStatus::PendingApproval);
    assert_eq!(format_batch_action_verb(LearningLifecycleAction::Rollback), "Rolled back");
    let pending = pending_filter(Some("plan_template")).unwrap();
    assert_eq!(pending.status, Some(LearningStatus::PendingApproval));
}

#[test]
fn parse_retryable_status_filter_rejects_non_retryable_status() {
    let error = parse_retryable_status_filter(Some("completed")).unwrap_err();
    assert!(error.to_string().contains("unsupported retry batch status 'completed'"));
    assert_eq!(parse_retryable_status_filter(Some(" FAILED ")), Ok(Some("failed")));
    assert_eq!(parse_retryable_status_filter(None), Ok(None));
}

#[test]
fn parse_priority_accepts_supported_labels() {
    assert_eq!(parse_priority("low").unwrap(), TaskPriority::Low);
    assert_eq!(parse_priority("normal").unwrap(), TaskPriority::Normal);
    assert_eq!(parse_priority("high").unwrap(), TaskPriority::High);
    assert_eq!(parse_priority("critical").unwrap(), TaskPriority::Critical);
    assert!(parse_priority("urgent").is_err());
}

#[test]
fn parse_metadata_requires_key_value_pairs() {
    let m = parse_metadata(&["team=ops".to_string(), "env = prod".to_string()]).unwrap();
    assert_eq!(m.get("team"), Some("ops"));
    assert_eq!(m.get("env"), Some("prod"));
    assert!(parse_metadata(&["novalue".to_string()]).is_err());
    assert!(parse_metadata(&["=x".to_string()]).is_err());
}

#[test]
fn build_task_spec_reads_all_arguments() {
    let config = SwarmConfig::default();
    let mut args = submit_args("draft", "{\"ticket\": 42}", "high");
    args.capabilities = vec![" planning ".into()];
    args.metadata = vec!["team=ops".into()];
    let spec = build_task_spec(&args, &config).unwrap();
    assert_eq!(spec.name, "draft");
    assert_eq!(spec.priority, TaskPriority::High);
    assert_eq!(spec.timeout, Some(300_000));
    assert!(spec.required_capabilities.contains(&Capability::new("planning")));
    assert_eq!(spec.input["ticket"], 42);

    let mut explicit = submit_args("draft", "{}", "low");
    explicit.timeout_secs = Some(0);
    assert_eq!(build_task_spec(&explicit, &config).unwrap().timeout, None);
}

#[test]
fn build_task_spec_reports_invalid_input() {
    let config = SwarmConfig::default();
    let error = build_task_spec(&submit_args("draft", "{not json", "low"), &config).unwrap_err();
    assert!(error.starts_with("invalid JSON input: "));
    assert!(build_task_spec(&submit_args("  ", "{}", "low"), &config).is_err());
    let mut blank_cap = submit_args("draft", "{}", "low");
    blank_cap.capabilities = vec!["  ".into()];
    assert_eq!(
        build_task_spec(&blank_cap, &config).unwrap_err(),
        "capability names must not be empty"
    );
}

#[test]
fn process_rejects_zero_workers() {
    let error = plan_processing(vec![], None, 0).unwrap_err();
    assert!(error.to_string().contains("workers must be at least 1"));
}

#[test]
fn process_respects_limit_and_leaves_remaining_tasks_pending() {
    let tasks = vec![
        Task::new(TaskSpec::new("task-0", empty())),
        Task::new(TaskSpec::new("task-1", empty())),
    ];
    let plan = plan_processing(tasks, Some(1), 1).unwrap();
    assert_eq!(plan.available_pending, 2);
    assert_eq!(plan.tasks.len(), 1);
}

#[test]
fn retry_batch_requeues_retryable_tasks_by_default() {
    let mut failed = Task::new(TaskSpec::new("failed-task", empty()));
    failed.fail("transient".into());
    let pending = Task::new(TaskSpec::new("pending-task", empty()));
    let mut timed_out = Task::new(TaskSpec::new("timed-out-task", empty()));
    timed_out.time_out();

    let plan = plan_retry(vec![failed, pending, timed_out], None, None).unwrap();
    assert_eq!(plan.available_retryable, 2);
    assert_eq!(plan.tasks.len(), 2);
    assert!(plan.tasks.iter().all(|t| t.status.can_retry()));
}

#[test]
fn retry_batch_respects_status_and_limit_filters() {
    let mut tasks = Vec::new();
    for index in 0..2 {
        let mut task = Task::new(TaskSpec::new(&format!("failed-{index}"), empty()));
        task.fail("transient".into());
        tasks.push(task);
    }
    let mut cancelled = Task::new(TaskSpec::new("cancelled", empty()));
    cancelled.cancel(Some("operator".into()));
    tasks.push(cancelled);

    let plan = plan_retry(tasks, Some("failed"), Some(1)).unwrap();
    assert_eq!(plan.available_retryable, 2);
    assert_eq!(plan.tasks.len(), 1);
    assert!(plan.tasks.iter().all(|t| t.status.label() == "failed"));
    assert!(plan_retry(vec![], Some("completed"), None).is_err());
}

#[test]
fn status_filter_and_capabilities_of_tasks() {
    let mut a = TaskSpec::new("a", empty());
    a.required_capabilities.add(Capability::new("planning"));
    let mut b = TaskSpec::new("b", empty());
    b.required_capabilities.add(Capability::new("planning"));
    b.required_capabilities.add(Capability::new("ticketing"));
    let tasks = vec![Task::new(a), Task::new(b)];
    assert_eq!(combined_capabilities(&tasks).len(), 2);
    assert!(status_matches(&tasks[0], Some(" Pending ")));
    assert!(!status_matches(&tasks[0], Some("failed")));
    assert!(status_matches(&tasks[0], None));
}

#[test]
fn normalizes_versions_and_tags() {
    assert_eq!(normalize_version("v0.2.1"), "0.2.1");
    assert_eq!(normalize_version("0.2.1"), "0.2.1");
    assert_eq!(normalize_tag("0.2.1"), "v0.2.1");
    assert_eq!(normalize_tag("v0.2.1"), "v0.2.1");
    assert_eq!(normalize_tag("release-2026-03-18"), "release-2026-03-18");
}

#[test]
fn compares_semver_values_with_or_without_prefix() {
    assert_eq!(compare_versions("v1.2.0", "1.1.9"), Some(Ordering::Greater));
    assert_eq!(compare_versions("v1.2.0", "1.2.0"), Some(Ordering::Equal));
    assert_eq!(compare_versions("1.1.9", "v1.2.0"), Some(Ordering::Less));
    assert_eq!(compare_versions("not-a-version", "1.2.0"), None);
}

#[test]
fn formats_check_report_for_all_version_states() {
    assert_eq!(
        format_check_report(
            "1.0.0",
            "1.2.0",
            "https://example.invalid/releases/v1.2.0",
            "v1.2.0",
            Some(Ordering::Greater)
        ),
        "Current version: 1.0.0\nAvailable version: 1.2.0\nRelease: https://example.invalid/releases/v1.2.0\nAn update is available."
    );
    assert_eq!(
        format_check_report(
            "1.2.0",
            "1.2.0",
            "https://example.invalid/releases/v1.2.0",
            "v1.2.0",
            Some(Ordering::Equal)
        ),
        "Current version: 1.2.0\nAvailable version: 1.2.0\nRelease: https://example.invalid/releases/v1.2.0\nNo update required."
    );
    assert_eq!(
        format_check_report(
            "1.3.0",
            "1.2.0",
            "https://example.invalid/releases/v1.2.0",
            "v1.2.0",
            Some(Ordering::Less)
        ),
        "Current version: 1.3.0\nAvailable version: 1.2.0\nRelease: https://example.invalid/releases/v1.2.0\nNo update required: the running build is newer than the latest published release."
    );
    assert_eq!(
        format_check_report(
            "1.0.0",
            "not-a-semver-tag",
            "https://example.invalid/releases/not-a-semver-tag",
            "not-a-semver-tag",
            None
        ),
        "Current version: 1.0.0\nAvailable version: not-a-semver-tag\nRelease: https://example.invalid/releases/not-a-semver-tag\nUnable to compare versions automatically for release tag 'not-a-semver-tag'. Try `swarm update --version not-a-semver-tag` to target that release explicitly."
    );
}

#[test]
fn derives_expected_asset_names() {
    assert_eq!(asset_name_for_target("x86_64-unknown-linux-gnu"), "swarm-x86_64-unknown-linux-gnu.tar.gz");
    assert_eq!(asset_name_for_target("x86_64-pc-windows-msvc"), "swarm-x86_64-pc-windows-msvc.zip");
    assert_eq!(executable_name(true), "swarm.exe");
    assert_eq!(executable_name(false), "swarm");
}

#[test]
fn rejects_unsupported_release_targets() {
    assert_eq!(supported_target_triple("macos", "aarch64").unwrap(), "aarch64-apple-darwin");
    assert!(supported_target_triple("linux", "aarch64").is_err());
    assert!(supported_target_triple("windows", "aarch64").is_err());
    assert_eq!(supported_target_triple("linux", "x86_64").unwrap(), "x86_64-unknown-linux-gnu");
}

#[test]
fn rejects_archive_paths_that_escape_extract_dir() {
    assert!(validate_relative_archive_path("swarm").is_ok());
    assert!(validate_relative_archive_path("nested/swarm").is_ok());
    assert!(validate_relative_archive_path("../swarm").is_err());
    assert!(validate_relative_archive_path("/tmp/swarm").is_err());
}

#[test]
fn rejects_unsupported_tar_entry_types() {
    assert!(validate_tar_entry_type(b'0').is_ok());
    assert!(validate_tar_entry_type(b'5').is_ok());
    assert!(validate_tar_entry_type(b'2').is_err());
    assert!(validate_tar_entry_type(b'1').is_err());
}

#[test]
fn tar_entry_errors_name_the_entry() {
    assert_eq!(tar_entry_type_label(b'2'), "symlink (byte 0x32)");
    assert_eq!(
        validate_tar_entry_type(b'2').unwrap_err(),
        "tar entry type 'symlink (byte 0x32)' is not supported for self-update extraction"
    );
    assert_eq!(
        check_tar_entry("a.tar.gz", "../x", b'0').unwrap_err(),
        "Archive 'a.tar.gz' contains an unsafe path '../x'"
    );
    assert_eq!(
        check_tar_entry("a.tar.gz", "x", b'2').unwrap_err(),
        "Archive 'a.tar.gz' contains an unsupported entry type for 'x'"
    );
    assert!(check_tar_entry("a.tar.gz", "dir/x", b'0').is_ok());
}

#[test]
fn archive_kind_follows_extension() {
    assert_eq!(archive_kind("swarm.zip"), Ok(ArchiveKind::Zip));
    assert_eq!(archive_kind("swarm.tar.gz"), Ok(ArchiveKind::TarGz));
    assert_eq!(archive_kind("swarm.rar").unwrap_err(), "Unsupported archive format: swarm.rar");
}

#[test]
fn update_plan_and_release_url() {
    assert_eq!(plan_update(true, Some(Ordering::Less), "1.0.0", "2.0.0"), Ok(UpdatePlan::Install));
    assert_eq!(plan_update(false, Some(Ordering::Equal), "1.0.0", "1.0.0"), Ok(UpdatePlan::UpToDate));
    assert_eq!(
        plan_update(false, Some(Ordering::Less), "1.0.0", "2.0.0").unwrap_err(),
        "The latest published version (1.0.0) is older than the running build version (2.0.0)."
    );
    assert_eq!(plan_update(false, None, "x", "1.0.0"), Ok(UpdatePlan::Install));
    assert_eq!(
        release_url(Some("1.2.0")),
        "https://api.github.com/repos/JosunLP/AiOfficeSwarm/releases/tags/v1.2.0"
    );
    assert_eq!(release_url(None), "https://api.github.com/repos/JosunLP/AiOfficeSwarm/releases/latest");
}

#[test]
fn role_commands_decide_directory_and_verdict() {
    let config = SwarmConfig::default();
    assert_eq!(resolve_roles_dir(&config, None), "roles");
    assert_eq!(resolve_roles_dir(&config, Some("custom".into())), "custom");
    assert!(role_validation_verdict(false, 3, 0, false).is_ok());
    assert_eq!(
        role_validation_verdict(true, 3, 0, false).unwrap_err(),
        "role validation failed (strict=true, warnings=3, errors=0)"
    );
    assert!(role_validation_verdict(false, 0, 0, true).is_err());
}

#[test]
fn builtin_worker_output_sorts_capabilities() {
    let mut spec = TaskSpec::new("draft", serde_json::from_str(r#"{"ticket": 42}"#).unwrap());
    spec.required_capabilities.add(Capability::new("ticketing"));
    spec.required_capabilities.add(Capability::with_version("planning", "2"));
    spec.metadata.insert("team", "ops");
    let task = Task::new(spec);
    let out = builtin_worker_output("CLI-Worker-1", &task);
    let expected: serde_json::Value = serde_json::from_str(
        r#"{"worker": "CLI-Worker-1", "task": "draft", "input": {"ticket": 42},
            "metadata": {"team": "ops"}, "required_capabilities": ["planning@2", "ticketing"],
            "status": "completed"}"#,
    )
    .unwrap();
    assert_eq!(out, expected);

    let echo = echo_worker_output("Worker-Alpha", &task);
    assert_eq!(echo["agent"], "Worker-Alpha");
    assert_eq!(echo["echo"]["ticket"], 42);

    let demo = demo_task_spec(3);
    assert_eq!(demo.name, "task-3");
    assert_eq!(demo.input["message"], "Hello from task 3");

    let sorted = sorted_texts(vec!["b".into(), "a".into(), "b".into(), "ab".into()]);
    assert_eq!(sorted, vec!["a".to_string(), "ab".to_string(), "b".to_string(), "b".to_string()]);
}

#[test]
fn every_builtin_category_label_parses_back() {
    let all = [
        LearningCategory::PreferenceAdaptation,
        LearningCategory::PatternExtraction,
        LearningCategory::FeedbackIncorporation,
        LearningCategory::PlanTemplate,
        LearningCategory::ScoringImprovement,
        LearningCategory::KnowledgeAccumulation,
        LearningCategory::ConfigurationEvolution,
        LearningCategory::FineTuningData,
    ];
    for c in all.iter() {
        let parsed = parse_learning_category(c.label()).unwrap();
        assert_eq!(parsed.label(), c.label());
        assert!(!matches!(parsed, LearningCategory::Custom(_)));
    }
}

#[test]
fn custom_category_label_parses_back() {
    let parsed = parse_learning_category("my_custom_category").unwrap();
    assert!(matches!(&parsed, LearningCategory::Custom(v) if v == "my_custom_category"));
    assert_eq!(parse_learning_category(parsed.label()).unwrap().label(), "my_custom_category");
}
