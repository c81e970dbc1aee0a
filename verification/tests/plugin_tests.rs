use swarm::error::SwarmError;
use swarm::identity::PluginId;
use swarm::plugin::host::{PluginHost, PluginInvocationPolicy, PluginPermissionPolicy};
use swarm::plugin::lifecycle::PluginState;
use swarm::plugin::manifest::{
    is_valid_permission, parse_semver_triplet, PluginAction, PluginCapabilityKind, PluginManifest, WasmPermission,
};
use swarm::plugin::registry::PluginRegistry;
use swarm::plugin::wasm::{
    checked_memory_range, classify_invoke_return, default_min_host_version, invoke_return_error, keep_first_error,
    lifecycle_code_error, settle_invocation, GuestAllocations, InvokeReturn, WasmActionEntry, WasmManifestFile,
    WasmPluginSection, RESULT_BUFFER_CAPACITY,
};

const HOST_VERSION: &str = "0.1.0";

fn echo_manifest() -> PluginManifest {
    let mut manifest = PluginManifest::new("echo", "1.0.0", "test", "Echoes inputs");
    manifest.capabilities.push(PluginCapabilityKind::ActionProvider);
    manifest.actions.push(PluginAction {
        name: "echo".into(),
        description: "Echo the provided parameters".into(),
        input_schema: None,
        output_schema: None,
    });
    manifest
}

fn echo_with_permissions(required: &[&str], wasm: Vec<WasmPermission>) -> PluginManifest {
    let mut m = echo_manifest();
    m.required_permissions = required.iter().map(|p| p.to_string()).collect();
    m.wasm_permissions = wasm;
    m
}

fn load(host: &mut PluginHost, manifest: PluginManifest) -> Result<PluginId, SwarmError> {
    let id = host.begin_load(manifest, HOST_VERSION)?;
    host.finish_load(&id, Ok(()))
}

#[test]
fn plugin_state_labels() {
    assert_eq!(PluginState::Active.label(), "active");
    assert_eq!(PluginState::Failed { reason: "err".into(), failed_at: 0 }.label(), "failed");
}

#[test]
fn plugin_state_is_active() {
    assert!(PluginState::Active.is_active());
    assert!(!PluginState::Loading.is_active());
}

#[test]
fn manifest_has_unique_id() {
    let a = PluginManifest::new("plugin-a", "1.0.0", "author", "desc");
    let b = PluginManifest::new("plugin-b", "1.0.0", "author", "desc");
    assert_ne!(a.id, b.id);
}

#[test]
fn wasm_permission_as_str() {
    assert_eq!(
        WasmPermission::Network("api.test.com:443".into()).compact_string(),
        "network:api.test.com:443"
    );
    assert_eq!(WasmPermission::EnvVar("MY_KEY".into()).compact_string(), "env_var:MY_KEY");
    assert_eq!(WasmPermission::FileRead("/etc/ssl".into()).compact_string(), "file_read:/etc/ssl");
    assert_eq!(WasmPermission::FileWrite("/tmp".into()).compact_string(), "file_write:/tmp");
    assert_eq!(WasmPermission::Custom("special".into()).compact_string(), "custom:special");
}

#[test]
fn manifest_wasm_permissions_default_empty() {
    let m = PluginManifest::new("test", "1.0.0", "author", "desc");
    assert!(m.wasm_permissions.is_empty());
    assert_eq!(m.min_host_version, "0.1.0");
}

#[test]
fn validate_manifest_rejects_duplicate_actions() {
    let mut manifest = PluginManifest::new("test", "1.0.0", "author", "desc");
    manifest.capabilities.push(PluginCapabilityKind::ActionProvider);
    manifest.actions.push(PluginAction {
        name: "echo".into(),
        description: "first".into(),
        input_schema: None,
        output_schema: None,
    });
    manifest.actions.push(PluginAction {
        name: "echo".into(),
        description: "second".into(),
        input_schema: None,
        output_schema: None,
    });

    assert!(matches!(
        manifest.validate_for_host("0.1.0"),
        Err(SwarmError::ConfigInvalid { reason, .. }) if reason.contains("duplicate action")
    ));
}

#[test]
fn validate_manifest_rejects_invalid_permission_format() {
    let mut manifest = PluginManifest::new("test", "1.0.0", "author", "desc");
    manifest.required_permissions.push("read-config".into());

    assert!(matches!(
        manifest.validate_for_host("0.1.0"),
        Err(SwarmError::ConfigInvalid { reason, .. }) if reason.contains("verb:resource")
    ));
}

#[test]
fn validate_manifest_rejects_incompatible_host_version() {
    let manifest = PluginManifest {
        min_host_version: "9.9.9".into(),
        ..PluginManifest::new("test", "1.0.0", "author", "desc")
    };

    assert!(matches!(
        manifest.validate_for_host("0.1.0"),
        Err(SwarmError::PluginVersionMismatch { .. })
    ));
}

#[test]
fn manifest_helpers_check_formats() {
    assert!(is_valid_permission("read:config"));
    assert!(!is_valid_permission("read:"));
    assert!(!is_valid_permission("read-config"));
    assert_eq!(parse_semver_triplet("1.2.3").unwrap(), (1, 2, 3));
    assert!(parse_semver_triplet("1.2").is_err());
    assert!(echo_manifest().validate_for_host("0.1.0").is_ok());
}

#[test]
fn plugin_registry_register_and_retrieve() {
    let mut reg = PluginRegistry::new();
    let manifest = PluginManifest::new("my-plugin", "1.0.0", "author", "desc");
    let id = reg.register(manifest).unwrap();
    let record = reg.get(&id).unwrap();
    assert_eq!(record.manifest.name, "my-plugin");
    assert_eq!(record.state.label(), "discovered");
}

#[test]
fn update_state_to_active() {
    let mut reg = PluginRegistry::new();
    let id = reg.register(PluginManifest::new("plugin", "1.0.0", "author", "desc")).unwrap();
    reg.update_state(&id, PluginState::Active).unwrap();
    assert!(reg.get(&id).unwrap().state.is_active());
    assert_eq!(reg.active_plugins().len(), 1);
    reg.deregister(&id).unwrap();
    assert!(reg.get(&id).is_none());
    assert!(reg.deregister(&id).is_err());
}

#[test]
fn load_invoke_unload() {
    let mut host = PluginHost::new();
    let id = load(&mut host, echo_manifest()).unwrap();
    assert!(host.registry().get(&id).unwrap().state.is_active());
    assert_eq!(host.prepare_invoke(&id, "echo").unwrap(), "echo");
    host.begin_unload(&id).unwrap();
    host.finish_unload(&id).unwrap();
    assert_eq!(host.registry().get(&id).unwrap().state.label(), "unloaded");
}

#[test]
fn failed_load_keeps_failed_plugin_record() {
    let mut host = PluginHost::new();
    let id = host.begin_load(echo_manifest(), HOST_VERSION).unwrap();
    let err = host.finish_load(&id, Err("boom".into())).unwrap_err();
    assert!(matches!(err, SwarmError::PluginInitFailed { reason, .. } if reason == "boom"));
    let record = host.registry().get(&id).unwrap();
    assert!(matches!(record.state, PluginState::Failed { reason, .. } if reason == "boom"));
}

#[test]
fn failed_load_can_be_retried_with_same_plugin_id() {
    let mut host = PluginHost::new();
    let manifest = echo_manifest();
    let first = manifest.duplicate();
    let id = host.begin_load(first, HOST_VERSION).unwrap();
    host.finish_load(&id, Err("boom".into())).unwrap_err();
    let again = load(&mut host, manifest).unwrap();
    assert_eq!(again, id);
    assert!(host.registry().get(&id).unwrap().state.is_active());
}

#[test]
fn invoke_rejects_once_unload_starts_even_if_instance_was_already_cloned() {
    let mut host = PluginHost::new();
    let id = load(&mut host, echo_manifest()).unwrap();
    host.begin_unload(&id).unwrap();
    let err = host.prepare_invoke(&id, "echo").unwrap_err();
    assert!(matches!(err, SwarmError::PluginOperationFailed { reason, .. } if reason == "plugin is unloading"));
}

#[test]
fn load_rejects_invalid_manifest_before_registration() {
    let mut host = PluginHost::new();
    let mut manifest = PluginManifest::new("invalid-manifest", "1.0.0", "test", "Has invalid manifest metadata");
    manifest.required_permissions.push("invalid-permission".into());

    let error = host.begin_load(manifest, HOST_VERSION).expect_err("invalid manifest should be rejected");

    assert!(matches!(error, SwarmError::ConfigInvalid { .. }));
    assert!(host.registry().all().is_empty());
}

#[test]
fn load_allows_manifest_permissions_by_default() {
    let mut host = PluginHost::new();
    let manifest = echo_with_permissions(&["create:task"], vec![WasmPermission::EnvVar("API_KEY".into())]);
    assert!(load(&mut host, manifest).is_ok());
}

#[test]
fn load_rejects_framework_permissions_outside_allowlist() {
    let mut host = PluginHost::with_permission_policy(
        PluginPermissionPolicy::new().with_allowed_framework_permissions(&["read:config"]),
    );

    let error = host
        .begin_load(echo_with_permissions(&["create:task"], vec![]), HOST_VERSION)
        .expect_err("unexpected framework permission should be denied");

    assert!(matches!(
        error,
        SwarmError::PermissionDenied { permission, .. } if permission == "create:task"
    ));
    assert!(host.registry().all().is_empty());
}

#[test]
fn load_rejects_wasm_permissions_outside_allowlist() {
    let mut host = PluginHost::with_permission_policy(
        PluginPermissionPolicy::new()
            .with_allowed_wasm_permissions(vec![WasmPermission::Network("api.example.com:443".into())]),
    );
    let error = host
        .begin_load(echo_with_permissions(&[], vec![WasmPermission::EnvVar("API_KEY".into())]), HOST_VERSION)
        .expect_err("unexpected wasm permission should be denied");
    assert!(matches!(
        error,
        SwarmError::PermissionDenied { permission, resource, .. }
            if permission == "env_var:API_KEY" && resource == "plugin_host.load"
    ));
    assert!(host.registry().all().is_empty());
}

#[test]
fn load_accepts_permissions_inside_allowlists() {
    let mut host = PluginHost::with_permission_policy(
        PluginPermissionPolicy::new()
            .with_allowed_framework_permissions(&["read:config"])
            .with_allowed_wasm_permissions(vec![WasmPermission::Network("api.example.com:443".into())]),
    );
    let manifest = echo_with_permissions(
        &["read:config"],
        vec![WasmPermission::Network("api.example.com:443".into())],
    );
    assert!(load(&mut host, manifest).is_ok());
}

#[test]
fn invoke_rejects_actions_missing_from_manifest() {
    let mut host = PluginHost::new();
    let plugin_id = load(&mut host, echo_manifest()).unwrap();

    let error = host
        .prepare_invoke(&plugin_id, "missing-action")
        .expect_err("undeclared actions should be rejected");

    assert!(matches!(
        error,
        SwarmError::PluginOperationFailed { reason, .. }
            if reason == "action 'missing-action' is not declared by the plugin manifest"
    ));
}

#[test]
fn invoke_rejects_runtime_permissions_outside_grant_list() {
    let mut host = PluginHost::with_invocation_policy(
        PluginInvocationPolicy::new().with_granted_framework_permissions(&["read:config"]),
    );
    let plugin_id = load(&mut host, echo_with_permissions(&["create:task"], vec![])).unwrap();

    let error = host.prepare_invoke(&plugin_id, "echo").expect_err("missing invocation grants should be denied");

    assert!(matches!(
        error,
        SwarmError::PermissionDenied { permission, resource, .. }
            if permission == "create:task" && resource == "plugin.invoke:echo"
    ));
}

#[test]
fn invoke_accepts_runtime_permissions_inside_grant_list() {
    let mut host = PluginHost::with_policies(
        PluginPermissionPolicy::new(),
        PluginInvocationPolicy::new().with_granted_framework_permissions(&["create:task"]),
    );
    let plugin_id = load(&mut host, echo_with_permissions(&["create:task"], vec![])).unwrap();
    assert_eq!(host.prepare_invoke(&plugin_id, "echo").unwrap(), "echo");
}

#[test]
fn invoke_fails_before_load() {
    let host = PluginHost::new();
    let err = host.prepare_invoke(&PluginId::new(), "echo").unwrap_err();
    assert!(matches!(err, SwarmError::PluginOperationFailed { reason, .. } if reason == "plugin not loaded"));
}

#[test]
fn into_plugin_manifest_conversion() {
    let file = WasmManifestFile {
        plugin: WasmPluginSection {
            id: None,
            name: "Full Plugin".into(),
            version: "1.2.3".into(),
            author: "x".into(),
            description: "y".into(),
            min_host_version: default_min_host_version(),
            wasm_file: "full.wasm".into(),
            capabilities: vec![PluginCapabilityKind::ActionProvider, PluginCapabilityKind::MemoryBackend],
            actions: vec![
                WasmActionEntry { name: "a".into(), description: "first".into(), input_schema: None, output_schema: None },
                WasmActionEntry { name: "b".into(), description: "second".into(), input_schema: None, output_schema: None },
            ],
            required_permissions: vec!["read:config".into(), "create:task".into()],
            wasm_permissions: vec![WasmPermission::Network("api.example.com:443".into())],
        },
    };
    let manifest = file.into_plugin_manifest();
    assert_eq!(manifest.name, "Full Plugin");
    assert_eq!(manifest.version, "1.2.3");
    assert_eq!(manifest.min_host_version, "0.1.0");
    assert_eq!(manifest.capabilities.len(), 2);
    assert_eq!(manifest.actions.len(), 2);
    assert_eq!(manifest.actions[1].name, "b");
    assert_eq!(manifest.required_permissions.len(), 2);
    assert_eq!(manifest.wasm_permissions.len(), 1);
}

#[test]
fn wasm_memory_ranges_are_checked() {
    assert_eq!(checked_memory_range("p", 100, 10, 20, "read").unwrap(), (10, 30));
    assert!(matches!(
        checked_memory_range("p", 100, -4, 1, "read"),
        Err(SwarmError::PluginOperationFailed { reason, .. }) if reason == "read: negative pointer -4"
    ));
    assert!(matches!(
        checked_memory_range("p", 100, 90, 20, "read"),
        Err(SwarmError::PluginOperationFailed { reason, .. }) if reason == "read: range 90..110 exceeds linear memory size 100"
    ));
}

#[test]
fn invoke_error_without_message_uses_unspecified_error_text() {
    let ret = classify_invoke_return(-1, RESULT_BUFFER_CAPACITY);
    assert_eq!(ret, InvokeReturn::Unspecified);
    assert!(matches!(
        invoke_return_error("p", ret),
        Some(SwarmError::PluginOperationFailed { reason, .. }) if reason == "WASM plugin returned an unspecified error"
    ));
    assert_eq!(classify_invoke_return(12, RESULT_BUFFER_CAPACITY), InvokeReturn::ReadResult { len: 12 });
    assert_eq!(classify_invoke_return(-12, RESULT_BUFFER_CAPACITY), InvokeReturn::ReadError { len: 12 });
}

#[test]
fn invoke_rejects_error_length_exceeding_result_buffer_capacity() {
    let ret = classify_invoke_return(-(RESULT_BUFFER_CAPACITY + 1), RESULT_BUFFER_CAPACITY);
    assert_eq!(ret, InvokeReturn::Oversized { success: false, len: 262145 });
    assert!(matches!(
        invoke_return_error("p", ret),
        Some(SwarmError::PluginOperationFailed { reason, .. })
            if reason == "WASM plugin returned error length 262145 exceeding result buffer capacity 262144"
    ));
}

#[test]
fn guest_buffers_release_in_reverse_and_keep_first_error() {
    let mut allocations = GuestAllocations::new();
    allocations.push(1, 10);
    allocations.push(2, 20);
    let order = allocations.release_order();
    assert_eq!(order[0].ptr, 2);
    assert_eq!(order[1].ptr, 1);

    let first = keep_first_error(None, Err(SwarmError::ChannelError { reason: "one".into() }));
    let kept = keep_first_error(first, Err(SwarmError::ChannelError { reason: "two".into() }));
    assert!(matches!(kept, Some(SwarmError::ChannelError { reason }) if reason == "one"));

    let settled: Result<u8, SwarmError> =
        settle_invocation(Ok(5), Err(SwarmError::ChannelError { reason: "cleanup".into() }));
    assert!(settled.is_err());
    assert_eq!(settle_invocation::<u8>(Ok(5), Ok(())).unwrap(), 5);

    assert_eq!(lifecycle_code_error("p", "swarm_on_load returned error code ", 0), None);
    assert_eq!(
        lifecycle_code_error("p", "swarm_on_load returned error code ", -3),
        Some("swarm_on_load returned error code -3".to_string())
    );
}

#[test]
fn prepare_invoke_rejects_actions_missing_from_manifest() {
    let mut host = PluginHost::new();
    let id = load(&mut host, echo_manifest()).unwrap();
    let err = host.prepare_invoke(&id, "missing-action").unwrap_err();
    assert!(matches!(err, SwarmError::PluginOperationFailed { reason, .. }
        if reason == "action 'missing-action' is not declared by the plugin manifest"));
}

#[test]
fn prepare_invoke_matches_actions_ignoring_case_inside_grant_list() {
    let policy = PluginInvocationPolicy::new().with_granted_framework_permissions(&["read:config"]);
    let mut host = PluginHost::with_invocation_policy(policy);
    let id = load(&mut host, echo_with_permissions(&["read:config"], vec![])).unwrap();
    assert_eq!(host.prepare_invoke(&id, "ECHO").unwrap(), "echo");
}

#[test]
fn prepare_invoke_rejects_permissions_outside_grant_list() {
    let policy = PluginInvocationPolicy::new().with_granted_framework_permissions(&["read:config"]);
    let mut host = PluginHost::with_invocation_policy(policy);
    let id = load(&mut host, echo_with_permissions(&["create:task"], vec![])).unwrap();
    let err = host.prepare_invoke(&id, "echo").unwrap_err();
    assert!(matches!(err, SwarmError::PermissionDenied { permission, resource, .. }
        if permission == "create:task" && resource == "plugin.invoke:echo"));
    assert!(host.registry().get(&id).unwrap().state.is_active());
}

#[test]
fn begin_load_refuses_an_occupied_slot_and_keeps_the_registry() {
    let mut host = PluginHost::new();
    let manifest = echo_manifest();
    let again = manifest.duplicate();
    let id = load(&mut host, manifest).unwrap();
    let err = host.begin_load(again, HOST_VERSION).unwrap_err();
    assert!(matches!(err, SwarmError::Internal { .. }));
    assert!(host.registry().get(&id).unwrap().state.is_active());
}

#[test]
fn manifest_with_duplicate_action_names_ignoring_case_is_refused() {
    let mut manifest = echo_manifest();
    manifest.actions.push(PluginAction {
        name: "ECHO".into(),
        description: "again".into(),
        input_schema: None,
        output_schema: None,
    });
    assert!(manifest.validate_for_host("0.1.0").is_err());
    let mut host = PluginHost::new();
    assert!(host.begin_load(manifest, HOST_VERSION).is_err());
}
