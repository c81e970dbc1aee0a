//! Configuration defaults and environment-variable overrides.
//!
//! Only explicitly recognized variables are applied; a value that cannot be
//! understood leaves the setting as it was.

use vstd::prelude::*;
use crate::config::model::{
    LearningConfig, MemoryBackendKind, MemoryConfig, OrchestratorConfig, ProviderRoutingConfig, ProviderRoutingStrategy,
    ProvidersConfig, RolesConfig, SwarmConfig, TelemetryConfig,
};
use crate::text::{chars_eq_str, chars_of, lower_spec, normalized, parse_u64, parse_u64_spec, trim_spec};

verus! {

/// Whether the normalized text (trimmed, ASCII-lowercased) of `v` is one of
/// `words`.
pub open spec fn normalized_is(v: Seq<char>, words: Seq<Seq<char>>) -> bool {
    words.contains(lower_spec(trim_spec(v)))
}

/// The boolean a flag value stands for: `1`, `true`, `yes`, `on` are true;
/// `0`, `false`, `no`, `off` are false (ignoring case and surrounding
/// whitespace); anything else is not a boolean.
pub open spec fn bool_env_spec(v: Seq<char>) -> Option<bool> {
    if normalized_is(v, seq!["1"@, "true"@, "yes"@, "on"@]) {
        Some(true)
    } else if normalized_is(v, seq!["0"@, "false"@, "no"@, "off"@]) {
        Some(false)
    } else {
        None
    }
}

/// Whether `a` and `b` are the two words of one on/off pair: `1`/`0`,
/// `true`/`false`, `yes`/`no`, `on`/`off`.
pub open spec fn opposite_flag_words(a: Seq<char>, b: Seq<char>) -> bool {
    ||| a == "1"@ && b == "0"@
    ||| a == "true"@ && b == "false"@
    ||| a == "yes"@ && b == "no"@
    ||| a == "on"@ && b == "off"@
}

/// Of the two words of an on/off pair, the first turns a flag on and the
/// second turns it off, whatever their case and surrounding whitespace.
pub proof fn lemma_flag_words_are_opposites(on: Seq<char>, off: Seq<char>)
    requires
        opposite_flag_words(lower_spec(trim_spec(on)), lower_spec(trim_spec(off))),
    ensures
        bool_env_spec(on) == Some(true),
        bool_env_spec(off) == Some(false),
{
    reveal_strlit("1");
    reveal_strlit("true");
    reveal_strlit("yes");
    reveal_strlit("on");
    reveal_strlit("0");
    reveal_strlit("false");
    reveal_strlit("no");
    reveal_strlit("off");
    let yes = seq!["1"@, "true"@, "yes"@, "on"@];
    let no = seq!["0"@, "false"@, "no"@, "off"@];
    let a = lower_spec(trim_spec(on));
    let b = lower_spec(trim_spec(off));
    assert(yes[0] == "1"@ && yes[1] == "true"@ && yes[2] == "yes"@ && yes[3] == "on"@);
    assert(no[0] == "0"@ && no[1] == "false"@ && no[2] == "no"@ && no[3] == "off"@);
    if a == "1"@ {
        assert(yes.contains(a));
    } else if a == "true"@ {
        assert(yes.contains(a));
    } else if a == "yes"@ {
        assert(yes.contains(a));
    } else {
        assert(yes.contains(a));
    }
    assert(!yes.contains(b)) by {
        if yes.contains(b) {
            let k = choose|k: int| 0 <= k < 4 && yes[k] == b;
            assert(yes[k].len() == b.len());
            assert(yes[k][0] == b[0]);
        }
    }
    if b == "0"@ {
        assert(no.contains(b));
    } else if b == "false"@ {
        assert(no.contains(b));
    } else if b == "no"@ {
        assert(no.contains(b));
    } else {
        assert(no.contains(b));
    }
}

fn is_one_of(n: &Vec<char>, words: &[&str]) -> (r: bool)
    ensures
        r == exists|i: int| 0 <= i < words@.len() && n@ == #[trigger] words@[i]@,
{
    let mut i: usize = 0;
    while i < words.len()
        invariant
            i <= words@.len(),
            forall|k: int| 0 <= k < i ==> n@ != #[trigger] words@[k]@,
        decreases words@.len() - i,
    {
        if chars_eq_str(n.as_slice(), words[i]) {
            return true;
        }
        i = i + 1;
    }
    false
}

/// Read a boolean flag value.
pub fn parse_bool_env(value: &str) -> (r: Option<bool>)
    ensures
        r == bool_env_spec(value@),
{
    let n = normalized(value);
    let yes: [&str; 4] = ["1", "true", "yes", "on"];
    let no: [&str; 4] = ["0", "false", "no", "off"];
    proof {
        reveal_strlit("1");
        reveal_strlit("true");
        reveal_strlit("yes");
        reveal_strlit("on");
        reveal_strlit("0");
        reveal_strlit("false");
        reveal_strlit("no");
        reveal_strlit("off");
    }
    if is_one_of(&n, yes.as_slice()) {
        proof {
            let i = choose|i: int| 0 <= i < 4 && n@ == #[trigger] yes@[i]@;
            assert(seq!["1"@, "true"@, "yes"@, "on"@][i] == n@);
        }
        Some(true)
    } else if is_one_of(&n, no.as_slice()) {
        proof {
            let i = choose|i: int| 0 <= i < 4 && n@ == #[trigger] no@[i]@;
            assert(seq!["0"@, "false"@, "no"@, "off"@][i] == n@);
            if seq!["1"@, "true"@, "yes"@, "on"@].contains(n@) {
                let k = choose|k: int| 0 <= k < 4 && seq!["1"@, "true"@, "yes"@, "on"@][k] == n@;
                assert(yes@[k]@ == n@);
            }
        }
        Some(false)
    } else {
        proof {
            if seq!["1"@, "true"@, "yes"@, "on"@].contains(n@) {
                let k = choose|k: int| 0 <= k < 4 && seq!["1"@, "true"@, "yes"@, "on"@][k] == n@;
                assert(yes@[k]@ == n@);
            }
            if seq!["0"@, "false"@, "no"@, "off"@].contains(n@) {
                let k = choose|k: int| 0 <= k < 4 && seq!["0"@, "false"@, "no"@, "off"@][k] == n@;
                assert(no@[k]@ == n@);
            }
        }
        None
    }
}

/// The routing strategy a value names, if it names one.
pub open spec fn routing_strategy_spec(v: Seq<char>) -> Option<ProviderRoutingStrategy> {
    if normalized_is(v, seq!["capability-match"@, "capability_match"@, "capability"@]) {
        Some(ProviderRoutingStrategy::CapabilityMatch)
    } else if normalized_is(v, seq!["lowest-cost"@, "lowest_cost"@, "cost"@]) {
        Some(ProviderRoutingStrategy::LowestCost)
    } else if normalized_is(v, seq!["lowest-latency"@, "lowest_latency"@, "latency"@]) {
        Some(ProviderRoutingStrategy::LowestLatency)
    } else if normalized_is(v, seq!["round-robin"@, "round_robin"@, "rr"@]) {
        Some(ProviderRoutingStrategy::RoundRobin)
    } else {
        None
    }
}

proof fn lemma_one_of(n: Seq<char>, arr: Seq<&str>, words: Seq<Seq<char>>)
    requires
        arr.len() == words.len(),
        forall|i: int| 0 <= i < arr.len() ==> #[trigger] arr[i]@ == words[i],
    ensures
        (exists|i: int| 0 <= i < arr.len() && n == #[trigger] arr[i]@) == words.contains(n),
{
    if words.contains(n) {
        let k = choose|k: int| 0 <= k < words.len() && words[k] == n;
        assert(arr[k]@ == n);
    }
}

/// Read a routing strategy name.
pub fn parse_routing_strategy(value: &str) -> (r: Option<ProviderRoutingStrategy>)
    ensures
        r == routing_strategy_spec(value@),
{
    let n = normalized(value);
    let a: [&str; 3] = ["capability-match", "capability_match", "capability"];
    let b: [&str; 3] = ["lowest-cost", "lowest_cost", "cost"];
    let c: [&str; 3] = ["lowest-latency", "lowest_latency", "latency"];
    let d: [&str; 3] = ["round-robin", "round_robin", "rr"];
    proof {
        reveal_strlit("capability-match");
        reveal_strlit("capability_match");
        reveal_strlit("capability");
        reveal_strlit("lowest-cost");
        reveal_strlit("lowest_cost");
        reveal_strlit("cost");
        reveal_strlit("lowest-latency");
        reveal_strlit("lowest_latency");
        reveal_strlit("latency");
        reveal_strlit("round-robin");
        reveal_strlit("round_robin");
        reveal_strlit("rr");
        lemma_one_of(n@, a@, seq!["capability-match"@, "capability_match"@, "capability"@]);
        lemma_one_of(n@, b@, seq!["lowest-cost"@, "lowest_cost"@, "cost"@]);
        lemma_one_of(n@, c@, seq!["lowest-latency"@, "lowest_latency"@, "latency"@]);
        lemma_one_of(n@, d@, seq!["round-robin"@, "round_robin"@, "rr"@]);
    }
    if is_one_of(&n, a.as_slice()) {
        Some(ProviderRoutingStrategy::CapabilityMatch)
    } else if is_one_of(&n, b.as_slice()) {
        Some(ProviderRoutingStrategy::LowestCost)
    } else if is_one_of(&n, c.as_slice()) {
        Some(ProviderRoutingStrategy::LowestLatency)
    } else if is_one_of(&n, d.as_slice()) {
        Some(ProviderRoutingStrategy::RoundRobin)
    } else {
        None
    }
}

/// The memory backend a value names, if it names one.
pub open spec fn memory_backend_spec(v: Seq<char>) -> Option<MemoryBackendKind> {
    if normalized_is(v, seq!["in-memory"@, "in_memory"@, "memory"@]) {
        Some(MemoryBackendKind::InMemory)
    } else if normalized_is(v, seq!["plugin"@]) {
        Some(MemoryBackendKind::Plugin)
    } else {
        None
    }
}

/// Read a memory backend name.
pub fn parse_memory_backend(value: &str) -> (r: Option<MemoryBackendKind>)
    ensures
        r == memory_backend_spec(value@),
{
    let n = normalized(value);
    let a: [&str; 3] = ["in-memory", "in_memory", "memory"];
    let b: [&str; 1] = ["plugin"];
    proof {
        reveal_strlit("in-memory");
        reveal_strlit("in_memory");
        reveal_strlit("memory");
        reveal_strlit("plugin");
        lemma_one_of(n@, a@, seq!["in-memory"@, "in_memory"@, "memory"@]);
        lemma_one_of(n@, b@, seq!["plugin"@]);
    }
    if is_one_of(&n, a.as_slice()) {
        Some(MemoryBackendKind::InMemory)
    } else if is_one_of(&n, b.as_slice()) {
        Some(MemoryBackendKind::Plugin)
    } else {
        None
    }
}

/// The values of the recognized environment variables, each present only
/// when the variable is set.
#[derive(Debug, Clone)]
pub struct EnvOverrides {
    /// `SWARM_LOG_LEVEL`
    pub log_level: Option<String>,
    /// `SWARM_INSTANCE_NAME`
    pub instance_name: Option<String>,
    /// `SWARM_EVENT_CHANNEL_CAPACITY`
    pub event_channel_capacity: Option<String>,
    /// `SWARM_ROLES_DIR`
    pub roles_dir: Option<String>,
    /// `SWARM_PROVIDER_DEFAULT_PROVIDER`
    pub default_provider: Option<String>,
    /// `SWARM_PROVIDER_DEFAULT_MODEL`
    pub default_model: Option<String>,
    /// `SWARM_PROVIDER_ROUTING_STRATEGY`
    pub routing_strategy: Option<String>,
    /// `SWARM_MEMORY_BACKEND`
    pub memory_backend: Option<String>,
    /// `SWARM_MEMORY_AUTO_APPLY_RETENTION`
    pub memory_auto_apply_retention: Option<String>,
    /// `SWARM_LEARNING_ENABLED`
    pub learning_enabled: Option<String>,
    /// `SWARM_LEARNING_REQUIRE_APPROVAL_BY_DEFAULT`
    pub learning_require_approval_by_default: Option<String>,
}

impl EnvOverrides {
    /// No variable set.
    pub fn none() -> (r: Self)
        ensures
            r.log_level is None && r.instance_name is None && r.event_channel_capacity is None
                && r.roles_dir is None && r.default_provider is None && r.default_model is None
                && r.routing_strategy is None && r.memory_backend is None
                && r.memory_auto_apply_retention is None && r.learning_enabled is None
                && r.learning_require_approval_by_default is None,
    {
        EnvOverrides {
            log_level: None,
            instance_name: None,
            event_channel_capacity: None,
            roles_dir: None,
            default_provider: None,
            default_model: None,
            routing_strategy: None,
            memory_backend: None,
            memory_auto_apply_retention: None,
            learning_enabled: None,
            learning_require_approval_by_default: None,
        }
    }
}

/// The number a capacity value stands for, when it is a `usize`.
pub open spec fn capacity_spec(v: Seq<char>) -> Option<usize> {
    match parse_u64_spec(v) {
        Some(n) if n <= usize::MAX => Some(n as usize),
        _ => None,
    }
}

/// An optional override: the new value when one is given, else the old.
pub open spec fn or_keep<T>(o: Option<T>, old: T) -> T {
    match o {
        Some(v) => v,
        None => old,
    }
}

/// Loads and merges configuration.
pub struct ConfigLoader;

impl ConfigLoader {
    /// The default configuration.
    pub fn defaults() -> (r: SwarmConfig)
        ensures
            crate::config::model::is_default_config(r),
    {
        SwarmConfig::default()
    }

    /// Apply the recognized environment variables to a configuration. Text
    /// settings take a set variable as is; the capacity, strategy, backend
    /// and flags change only when their variable holds a value they
    /// understand. Every other setting keeps its value.
    pub fn with_env_overrides(config: SwarmConfig, env: &EnvOverrides) -> (r: SwarmConfig)
        ensures
            r.telemetry.log_level@ == or_keep(crate::text::opt_view(env.log_level), config.telemetry.log_level@),
            r.instance_name@ == or_keep(crate::text::opt_view(env.instance_name), config.instance_name@),
            r.orchestrator.event_channel_capacity == (match env.event_channel_capacity {
                Some(v) => or_keep(capacity_spec(v@), config.orchestrator.event_channel_capacity),
                None => config.orchestrator.event_channel_capacity,
            }),
            crate::text::opt_view(r.roles.roles_dir) == (match env.roles_dir {
                Some(v) => Some(v@),
                None => crate::text::opt_view(config.roles.roles_dir),
            }),
            crate::text::opt_view(r.providers.default_provider) == (match env.default_provider {
                Some(v) => Some(v@),
                None => crate::text::opt_view(config.providers.default_provider),
            }),
            crate::text::opt_view(r.providers.default_model) == (match env.default_model {
                Some(v) => Some(v@),
                None => crate::text::opt_view(config.providers.default_model),
            }),
            r.providers.routing.strategy == (match env.routing_strategy {
                Some(v) => or_keep(routing_strategy_spec(v@), config.providers.routing.strategy),
                None => config.providers.routing.strategy,
            }),
            r.memory.backend == (match env.memory_backend {
                Some(v) => or_keep(memory_backend_spec(v@), config.memory.backend),
                None => config.memory.backend,
            }),
            r.memory.auto_apply_retention == (match env.memory_auto_apply_retention {
                Some(v) => or_keep(bool_env_spec(v@), config.memory.auto_apply_retention),
                None => config.memory.auto_apply_retention,
            }),
            r.learning.enabled == (match env.learning_enabled {
                Some(v) => or_keep(bool_env_spec(v@), config.learning.enabled),
                None => config.learning.enabled,
            }),
            r.learning.require_approval_by_default == (match env.learning_require_approval_by_default {
                Some(v) => or_keep(bool_env_spec(v@), config.learning.require_approval_by_default),
                None => config.learning.require_approval_by_default,
            }),
            r.orchestrator.max_dispatch_per_tick == config.orchestrator.max_dispatch_per_tick,
            r.orchestrator.default_task_timeout_secs == config.orchestrator.default_task_timeout_secs,
            r.orchestrator.max_concurrent_tasks == config.orchestrator.max_concurrent_tasks,
            r.memory.redact_personal_data == config.memory.redact_personal_data,
            r.memory.retention_interval_secs == config.memory.retention_interval_secs,
            r.learning.max_pending_outputs == config.learning.max_pending_outputs,
            r.learning.default_scope == config.learning.default_scope,
            r.providers.routing.fallback_allowed == config.providers.routing.fallback_allowed,
            r == (SwarmConfig {
                instance_name: r.instance_name,
                orchestrator: OrchestratorConfig {
                    event_channel_capacity: r.orchestrator.event_channel_capacity,
                    ..config.orchestrator
                },
                telemetry: TelemetryConfig { log_level: r.telemetry.log_level, ..config.telemetry },
                providers: ProvidersConfig {
                    default_provider: r.providers.default_provider,
                    default_model: r.providers.default_model,
                    routing: ProviderRoutingConfig {
                        strategy: r.providers.routing.strategy,
                        ..config.providers.routing
                    },
                    ..config.providers
                },
                memory: MemoryConfig {
                    backend: r.memory.backend,
                    auto_apply_retention: r.memory.auto_apply_retention,
                    ..config.memory
                },
                learning: LearningConfig {
                    enabled: r.learning.enabled,
                    require_approval_by_default: r.learning.require_approval_by_default,
                    ..config.learning
                },
                roles: RolesConfig { roles_dir: r.roles.roles_dir, ..config.roles },
                ..config
            }),
    {
        let mut config = config;
        config.telemetry.log_level = override_text(config.telemetry.log_level, &env.log_level);
        config.instance_name = override_text(config.instance_name, &env.instance_name);
        config.orchestrator.event_channel_capacity = override_capacity(
            config.orchestrator.event_channel_capacity,
            &env.event_channel_capacity,
        );
        config.roles.roles_dir = override_opt_text(config.roles.roles_dir, &env.roles_dir);
        config.providers.default_provider = override_opt_text(
            config.providers.default_provider,
            &env.default_provider,
        );
        config.providers.default_model = override_opt_text(
            config.providers.default_model,
            &env.default_model,
        );
        config.providers.routing.strategy = override_strategy(
            config.providers.routing.strategy,
            &env.routing_strategy,
        );
        config.memory.backend = override_backend(config.memory.backend, &env.memory_backend);
        config.memory.auto_apply_retention = override_flag(
            config.memory.auto_apply_retention,
            &env.memory_auto_apply_retention,
        );
        config.learning.enabled = override_flag(config.learning.enabled, &env.learning_enabled);
        config.learning.require_approval_by_default = override_flag(
            config.learning.require_approval_by_default,
            &env.learning_require_approval_by_default,
        );
        config
    }
}

fn override_text(cur: String, v: &Option<String>) -> (r: String)
    ensures
        r@ == or_keep(crate::text::opt_view(*v), cur@),
{
    match v {
        Some(s) => s.clone(),
        None => cur,
    }
}

fn override_opt_text(cur: Option<String>, v: &Option<String>) -> (r: Option<String>)
    ensures
        crate::text::opt_view(r) == (match *v {
            Some(s) => Some(s@),
            None => crate::text::opt_view(cur),
        }),
{
    match v {
        Some(s) => Some(s.clone()),
        None => cur,
    }
}

fn override_capacity(cur: usize, v: &Option<String>) -> (r: usize)
    ensures
        r == (match *v {
            Some(s) => or_keep(capacity_spec(s@), cur),
            None => cur,
        }),
{
    match v {
        Some(s) => {
            let cs = chars_of(s.as_str());
            match parse_u64(cs.as_slice()) {
                Some(n) => {
                    if n as u128 <= usize::MAX as u128 {
                        n as usize
                    } else {
                        cur
                    }
                },
                None => cur,
            }
        },
        None => cur,
    }
}

fn override_strategy(cur: ProviderRoutingStrategy, v: &Option<String>) -> (r: ProviderRoutingStrategy)
    ensures
        r == (match *v {
            Some(s) => or_keep(routing_strategy_spec(s@), cur),
            None => cur,
        }),
{
    match v {
        Some(s) => match parse_routing_strategy(s.as_str()) {
            Some(x) => x,
            None => cur,
        },
        None => cur,
    }
}

fn override_backend(cur: MemoryBackendKind, v: &Option<String>) -> (r: MemoryBackendKind)
    ensures
        r == (match *v {
            Some(s) => or_keep(memory_backend_spec(s@), cur),
            None => cur,
        }),
{
    match v {
        Some(s) => match parse_memory_backend(s.as_str()) {
            Some(x) => x,
            None => cur,
        },
        None => cur,
    }
}

fn override_flag(cur: bool, v: &Option<String>) -> (r: bool)
    ensures
        r == (match *v {
            Some(s) => or_keep(bool_env_spec(s@), cur),
            None => cur,
        }),
{
    match v {
        Some(s) => match parse_bool_env(s.as_str()) {
            Some(x) => x,
            None => cur,
        },
        None => cur,
    }
}

} // verus!
