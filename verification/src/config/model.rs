//! The configuration model and its defaults.

use vstd::prelude::*;
use crate::text::owned;

verus! {

/// Orchestrator settings.
#[derive(Debug, Clone, Copy, PartialEq, Eq, Structural)]
pub struct OrchestratorConfig {
    /// Capacity of the event broadcast channel.
    pub event_channel_capacity: usize,
    /// How many dispatch iterations to run per scheduling tick.
    pub max_dispatch_per_tick: usize,
    /// Default task timeout in seconds; `0` disables the default deadline.
    pub default_task_timeout_secs: u64,
    /// Maximum number of tasks scheduled or running at once.
    pub max_concurrent_tasks: usize,
}

impl OrchestratorConfig {
    /// The default orchestrator settings.
    pub open spec fn spec_default() -> Self {
        OrchestratorConfig {
            event_channel_capacity: 1024,
            max_dispatch_per_tick: 16,
            default_task_timeout_secs: 300,
            max_concurrent_tasks: 256,
        }
    }
}

impl Default for OrchestratorConfig {
    fn default() -> (r: Self)
        ensures
            r == Self::spec_default(),
    {
        OrchestratorConfig {
            event_channel_capacity: 1024,
            max_dispatch_per_tick: 16,
            default_task_timeout_secs: 300,
            max_concurrent_tasks: 256,
        }
    }
}

/// Log output format.
#[derive(Debug, Clone, Copy, PartialEq, Eq, Structural)]
pub enum LogFormat {
    /// Human-readable text.
    Text,
    /// Structured JSON.
    Json,
}

/// Telemetry settings.
#[derive(Debug, Clone)]
pub struct TelemetryConfig {
    /// Log level filter (`trace`, `debug`, `info`, `warn`, `error`).
    pub log_level: String,
    /// Log output format.
    pub log_format: LogFormat,
    /// Whether OTLP export is enabled.
    pub otlp_enabled: bool,
    /// OTLP collector endpoint.
    pub otlp_endpoint: Option<String>,
}

impl Default for TelemetryConfig {
    fn default() -> (r: Self)
        ensures
            r.log_level@ == "info"@,
            r.log_format == LogFormat::Text,
            !r.otlp_enabled,
            r.otlp_endpoint is None,
    {
        proof {
            reveal_strlit("info");
        }
        TelemetryConfig { log_level: owned("info"), log_format: LogFormat::Text, otlp_enabled: false, otlp_endpoint: None }
    }
}

/// How providers are chosen.
#[derive(Debug, Clone, Copy, PartialEq, Eq, Structural)]
pub enum ProviderRoutingStrategy {
    /// The first provider with the needed capabilities.
    CapabilityMatch,
    /// The cheapest provider.
    LowestCost,
    /// The fastest provider.
    LowestLatency,
    /// Providers in turn.
    RoundRobin,
}

impl Default for ProviderRoutingStrategy {
    fn default() -> (r: Self)
        ensures
            r == ProviderRoutingStrategy::CapabilityMatch,
    {
        ProviderRoutingStrategy::CapabilityMatch
    }
}

/// Cost preference in routing.
#[derive(Debug, Clone, Copy, PartialEq, Eq, Structural)]
pub enum RoutingCostPreference {
    /// Cheapest first.
    Cheapest,
    /// Balance cost and quality.
    Balanced,
    /// Best quality first.
    BestQuality,
}

impl Default for RoutingCostPreference {
    fn default() -> (r: Self)
        ensures
            r == RoutingCostPreference::Balanced,
    {
        RoutingCostPreference::Balanced
    }
}

/// Latency preference in routing.
#[derive(Debug, Clone, Copy, PartialEq, Eq, Structural)]
pub enum RoutingLatencyPreference {
    /// Fastest first.
    Fastest,
    /// Balance latency and other factors.
    Balanced,
    /// No latency preference.
    NoPreference,
}

impl Default for RoutingLatencyPreference {
    fn default() -> (r: Self)
        ensures
            r == RoutingLatencyPreference::Balanced,
    {
        RoutingLatencyPreference::Balanced
    }
}

/// Provider routing settings.
#[derive(Debug, Clone, Copy, PartialEq, Eq, Structural)]
pub struct ProviderRoutingConfig {
    /// The routing strategy.
    pub strategy: ProviderRoutingStrategy,
    /// Whether routing may fall back to another provider.
    pub fallback_allowed: bool,
    /// Cost preference.
    pub cost_preference: RoutingCostPreference,
    /// Latency preference.
    pub latency_preference: RoutingLatencyPreference,
}

impl ProviderRoutingConfig {
    /// The default routing settings.
    pub open spec fn spec_default() -> Self {
        ProviderRoutingConfig {
            strategy: ProviderRoutingStrategy::CapabilityMatch,
            fallback_allowed: true,
            cost_preference: RoutingCostPreference::Balanced,
            latency_preference: RoutingLatencyPreference::Balanced,
        }
    }
}

impl Default for ProviderRoutingConfig {
    fn default() -> (r: Self)
        ensures
            r == Self::spec_default(),
    {
        ProviderRoutingConfig {
            strategy: ProviderRoutingStrategy::default(),
            fallback_allowed: true,
            cost_preference: RoutingCostPreference::default(),
            latency_preference: RoutingLatencyPreference::default(),
        }
    }
}

/// Provider settings.
#[derive(Debug, Clone)]
pub struct ProvidersConfig {
    /// Whether providers are enabled.
    pub enabled: bool,
    /// Whether only healthy providers may be used.
    pub require_healthy: bool,
    /// The default provider.
    pub default_provider: Option<String>,
    /// The default model.
    pub default_model: Option<String>,
    /// Providers explicitly allowed.
    pub allowlist: Vec<String>,
    /// Providers explicitly blocked.
    pub blocklist: Vec<String>,
    /// Routing settings.
    pub routing: ProviderRoutingConfig,
}

impl Default for ProvidersConfig {
    fn default() -> (r: Self)
        ensures
            r.enabled,
            r.require_healthy,
            r.default_provider is None,
            r.default_model is None,
            r.allowlist@.len() == 0,
            r.blocklist@.len() == 0,
            r.routing == ProviderRoutingConfig::spec_default(),
    {
        ProvidersConfig {
            enabled: true,
            require_healthy: true,
            default_provider: None,
            default_model: None,
            allowlist: Vec::new(),
            blocklist: Vec::new(),
            routing: ProviderRoutingConfig::default(),
        }
    }
}

/// Which memory backend is used.
#[derive(Debug, Clone, Copy, PartialEq, Eq, Structural)]
pub enum MemoryBackendKind {
    /// The built-in in-memory backend.
    InMemory,
    /// A backend supplied by a plugin.
    Plugin,
}

impl Default for MemoryBackendKind {
    fn default() -> (r: Self)
        ensures
            r == MemoryBackendKind::InMemory,
    {
        MemoryBackendKind::InMemory
    }
}

/// Memory settings.
#[derive(Debug, Clone, Copy, PartialEq, Eq, Structural)]
pub struct MemoryConfig {
    /// The backend.
    pub backend: MemoryBackendKind,
    /// Whether retention policies are applied automatically.
    pub auto_apply_retention: bool,
    /// Whether personal data is redacted.
    pub redact_personal_data: bool,
    /// Seconds between retention sweeps.
    pub retention_interval_secs: u64,
}

impl MemoryConfig {
    /// The default memory settings.
    pub open spec fn spec_default() -> Self {
        MemoryConfig {
            backend: MemoryBackendKind::InMemory,
            auto_apply_retention: true,
            redact_personal_data: true,
            retention_interval_secs: 300,
        }
    }
}

impl Default for MemoryConfig {
    fn default() -> (r: Self)
        ensures
            r == Self::spec_default(),
    {
        MemoryConfig {
            backend: MemoryBackendKind::default(),
            auto_apply_retention: true,
            redact_personal_data: true,
            retention_interval_secs: 300,
        }
    }
}

/// The kind of scope learning applies to by default.
#[derive(Debug, Clone, Copy, PartialEq, Eq, Structural)]
pub enum LearningScopeKind {
    /// One agent.
    Agent,
    /// One team.
    Team,
    /// One tenant.
    Tenant,
    /// One workflow.
    Workflow,
    /// Everything.
    Global,
}

impl Default for LearningScopeKind {
    fn default() -> (r: Self)
        ensures
            r == LearningScopeKind::Tenant,
    {
        LearningScopeKind::Tenant
    }
}

/// Learning settings.
#[derive(Debug, Clone, Copy, PartialEq, Eq, Structural)]
pub struct LearningConfig {
    /// Whether learning is enabled.
    pub enabled: bool,
    /// Whether learned outputs need approval by default.
    pub require_approval_by_default: bool,
    /// Maximum number of outputs awaiting approval.
    pub max_pending_outputs: u64,
    /// The default scope.
    pub default_scope: LearningScopeKind,
}

impl LearningConfig {
    /// The default learning settings.
    pub open spec fn spec_default() -> Self {
        LearningConfig {
            enabled: false,
            require_approval_by_default: true,
            max_pending_outputs: 100,
            default_scope: LearningScopeKind::Tenant,
        }
    }
}

impl Default for LearningConfig {
    fn default() -> (r: Self)
        ensures
            r == Self::spec_default(),
    {
        LearningConfig {
            enabled: false,
            require_approval_by_default: true,
            max_pending_outputs: 100,
            default_scope: LearningScopeKind::default(),
        }
    }
}

/// Plugin settings.
#[derive(Debug, Clone)]
pub struct PluginsConfig {
    /// Directory plugins are loaded from.
    pub plugin_dir: Option<String>,
    /// Whether plugins are loaded at start.
    pub auto_load: bool,
}

impl Default for PluginsConfig {
    fn default() -> (r: Self)
        ensures
            r.plugin_dir is None,
            !r.auto_load,
    {
        PluginsConfig { plugin_dir: None, auto_load: false }
    }
}

/// Role settings.
#[derive(Debug, Clone)]
pub struct RolesConfig {
    /// Directory role definitions are loaded from.
    pub roles_dir: Option<String>,
    /// Whether roles are loaded at start.
    pub auto_load: bool,
    /// Whether invalid role files fail loading.
    pub strict_validation: bool,
}

impl Default for RolesConfig {
    fn default() -> (r: Self)
        ensures
            r.roles_dir matches Some(d) && d@ == "roles"@,
            r.auto_load,
            !r.strict_validation,
    {
        proof {
            reveal_strlit("roles");
        }
        RolesConfig { roles_dir: Some(owned("roles")), auto_load: true, strict_validation: false }
    }
}

/// The root configuration of a swarm instance.
#[derive(Debug, Clone)]
pub struct SwarmConfig {
    /// Human-readable name of this instance.
    pub instance_name: String,
    /// Orchestrator settings.
    pub orchestrator: OrchestratorConfig,
    /// Telemetry settings.
    pub telemetry: TelemetryConfig,
    /// Provider settings.
    pub providers: ProvidersConfig,
    /// Memory settings.
    pub memory: MemoryConfig,
    /// Learning settings.
    pub learning: LearningConfig,
    /// Plugin settings.
    pub plugins: PluginsConfig,
    /// Role settings.
    pub roles: RolesConfig,
}

/// Whether `c` holds the default settings.
pub open spec fn is_default_config(c: SwarmConfig) -> bool {
    &&& c.instance_name@ == "ai-office-swarm"@
    &&& c.orchestrator == OrchestratorConfig::spec_default()
    &&& c.telemetry.log_level@ == "info"@
    &&& c.telemetry.log_format == LogFormat::Text
    &&& !c.telemetry.otlp_enabled
    &&& c.telemetry.otlp_endpoint is None
    &&& c.providers.enabled
    &&& c.providers.require_healthy
    &&& c.providers.default_provider is None
    &&& c.providers.default_model is None
    &&& c.providers.allowlist@.len() == 0
    &&& c.providers.blocklist@.len() == 0
    &&& c.providers.routing == ProviderRoutingConfig::spec_default()
    &&& c.memory == MemoryConfig::spec_default()
    &&& c.learning == LearningConfig::spec_default()
    &&& c.plugins.plugin_dir is None
    &&& !c.plugins.auto_load
    &&& (c.roles.roles_dir matches Some(d) && d@ == "roles"@)
    &&& c.roles.auto_load
    &&& !c.roles.strict_validation
}

impl Default for SwarmConfig {
    fn default() -> (r: Self)
        ensures
            is_default_config(r),
    {
        proof {
            reveal_strlit("ai-office-swarm");
        }
        SwarmConfig {
            instance_name: owned("ai-office-swarm"),
            orchestrator: OrchestratorConfig::default(),
            telemetry: TelemetryConfig::default(),
            providers: ProvidersConfig::default(),
            memory: MemoryConfig::default(),
            learning: LearningConfig::default(),
            plugins: PluginsConfig::default(),
            roles: RolesConfig::default(),
        }
    }
}

} // verus!
