//! Plugin manifest: a plugin's identity, declared capabilities, actions and
//! permissions, and the structural checks a host applies before loading it.

use vstd::prelude::*;
use crate::error::{SwarmError, SwarmResult};
use crate::identity::PluginId;
use crate::text::{
    chars_of, lower_spec, normalized, owned, parse_u64, parse_u64_spec, split_chars, split_spec,
    string_from_chars, strip_leading, strip_leading_spec, trim_spec, trim_str,
};

verus! {

/// The kind of capability a plugin provides.
#[derive(Debug, Clone, Copy, PartialEq, Eq, Structural)]
pub enum PluginCapabilityKind {
    /// Registers one or more agent types.
    AgentProvider,
    /// Adds callable actions.
    ActionProvider,
    /// Provides a storage backend.
    StorageBackend,
    /// Connects an external communication channel.
    CommunicationChannel,
    /// Contributes policy rules.
    PolicyProvider,
    /// Reacts to external events.
    TriggerProvider,
    /// Adapts an AI model provider.
    ProviderAdapter,
    /// Provides a memory backend.
    MemoryBackend,
    /// Contributes a learning strategy.
    LearningStrategy,
    /// Bundles personality profiles and overlays.
    PersonalityPack,
    /// Provides workflow templates.
    WorkflowProvider,
    /// Connects an enterprise system.
    EnterpriseConnector,
}

/// A named action exposed by a plugin.
#[derive(Debug)]
pub struct PluginAction {
    /// The action name used to invoke it.
    pub name: String,
    /// Human-readable description.
    pub description: String,
    /// JSON schema of the expected input.
    pub input_schema: Option<serde_json::Value>,
    /// JSON schema of the output.
    pub output_schema: Option<serde_json::Value>,
}

/// An OS-level sandbox permission that a WASM plugin expects to use.
#[derive(Debug, Clone, PartialEq, Eq)]
pub enum WasmPermission {
    /// Outbound network access to a host or CIDR.
    Network(String),
    /// Read access to an environment variable.
    EnvVar(String),
    /// Read access to a filesystem path.
    FileRead(String),
    /// Write access to a filesystem path.
    FileWrite(String),
    /// A named permission for custom sandbox enforcement.
    Custom(String),
}

/// The compact text of a sandbox permission: `kind:value`.
pub open spec fn compact_spec(p: WasmPermission) -> Seq<char> {
    match p {
        WasmPermission::Network(v) => "network:"@ + v@,
        WasmPermission::EnvVar(v) => "env_var:"@ + v@,
        WasmPermission::FileRead(v) => "file_read:"@ + v@,
        WasmPermission::FileWrite(v) => "file_write:"@ + v@,
        WasmPermission::Custom(v) => "custom:"@ + v@,
    }
}

impl WasmPermission {
    /// A compact text suitable for logging or audit, such as
    /// `network:api.example.com:443` or `env_var:MY_API_KEY`.
    pub fn compact_string(&self) -> (r: String)
        ensures
            r@ == compact_spec(*self),
    {
        let (mut out, v) = match self {
            WasmPermission::Network(v) => (owned("network:"), v),
            WasmPermission::EnvVar(v) => (owned("env_var:"), v),
            WasmPermission::FileRead(v) => (owned("file_read:"), v),
            WasmPermission::FileWrite(v) => (owned("file_write:"), v),
            WasmPermission::Custom(v) => (owned("custom:"), v),
        };
        out.append(v.as_str());
        proof {
            reveal_strlit("network:");
            reveal_strlit("env_var:");
            reveal_strlit("file_read:");
            reveal_strlit("file_write:");
            reveal_strlit("custom:");
        }
        out
    }
}

/// The static manifest every plugin provides.
#[derive(Debug)]
pub struct PluginManifest {
    /// Stable, unique plugin identifier.
    pub id: PluginId,
    /// Human-readable plugin name.
    pub name: String,
    /// Semantic version of the plugin.
    pub version: String,
    /// Plugin author or vendor.
    pub author: String,
    /// Short description.
    pub description: String,
    /// Minimum host framework version required.
    pub min_host_version: String,
    /// Capabilities this plugin provides.
    pub capabilities: Vec<PluginCapabilityKind>,
    /// Actions this plugin exposes.
    pub actions: Vec<PluginAction>,
    /// Framework permissions required, each `verb:resource`.
    pub required_permissions: Vec<String>,
    /// OS-level sandbox permissions required by a WASM plugin.
    pub wasm_permissions: Vec<WasmPermission>,
}

/// The three numbers of a semantic version text: surrounding whitespace and
/// any leading `v` removed, then exactly three dot-separated decimal `u64`s.
pub open spec fn semver_spec(s: Seq<char>) -> Option<(u64, u64, u64)> {
    let parts = split_spec(strip_leading_spec(trim_spec(s), 'v'), '.');
    if parts.len() == 3 && parse_u64_spec(parts[0]) is Some && parse_u64_spec(parts[1]) is Some
        && parse_u64_spec(parts[2]) is Some {
        Some(
            (
                parse_u64_spec(parts[0]).unwrap(),
                parse_u64_spec(parts[1]).unwrap(),
                parse_u64_spec(parts[2]).unwrap(),
            ),
        )
    } else {
        None
    }
}

/// Whether version triplet `a` is older than `b` (lexicographic order).
pub open spec fn triplet_older(a: (u64, u64, u64), b: (u64, u64, u64)) -> bool {
    ||| a.0 < b.0
    ||| a.0 == b.0 && a.1 < b.1
    ||| a.0 == b.0 && a.1 == b.1 && a.2 < b.2
}

/// The reason given for a text that is not a version triplet.
pub open spec fn invalid_semver_reason(value: Seq<char>) -> Seq<char> {
    "'"@ + value + "' is not a valid semantic version triplet"@
}

/// The error for a text that is not a version triplet.
pub fn invalid_semver(value: &str) -> (r: SwarmError)
    ensures
        r matches SwarmError::ConfigInvalid { key, reason } && key@ == "plugin.semver"@ && reason@
            == invalid_semver_reason(value@),
{
    let mut reason = owned("'");
    reason.append(value);
    reason.append("' is not a valid semantic version triplet");
    proof {
        reveal_strlit("'");
        reveal_strlit("' is not a valid semantic version triplet");
        reveal_strlit("plugin.semver");
    }
    SwarmError::ConfigInvalid { key: owned("plugin.semver"), reason }
}

/// Parse a semantic version triplet such as `1.2.3` or `v1.2.3`.
pub fn parse_semver_triplet(value: &str) -> (r: SwarmResult<(u64, u64, u64)>)
    ensures
        semver_spec(value@) matches Some(t) ==> r == Ok::<(u64, u64, u64), SwarmError>(t),
        semver_spec(value@) is None ==> (r matches Err(SwarmError::ConfigInvalid { key, reason })
            && key@ == "plugin.semver"@ && reason@ == invalid_semver_reason(value@)),
{
    let trimmed = trim_str(value);
    let cleaned = strip_leading(trimmed.as_slice(), 'v');
    let parts = split_chars(cleaned.as_slice(), '.');
    if parts.len() != 3 {
        return Err(invalid_semver(value));
    }
    let a = parse_u64(parts[0].as_slice());
    let b = parse_u64(parts[1].as_slice());
    let c = parse_u64(parts[2].as_slice());
    match (a, b, c) {
        (Some(x), Some(y), Some(z)) => Ok((x, y, z)),
        _ => Err(invalid_semver(value)),
    }
}

/// Check a semantic version field: it must not be blank and must parse.
pub fn validate_semver_field(value: &str, key: &str) -> (r: SwarmResult<()>)
    ensures
        trim_spec(value@).len() == 0 ==> (r matches Err(SwarmError::ConfigInvalid { key: k, reason })
            && k@ == key@ && reason@ == "must not be empty"@),
        trim_spec(value@).len() > 0 && semver_spec(value@) is None ==> (r matches Err(
            SwarmError::ConfigInvalid { key: k, reason },
        ) && k@ == "plugin.semver"@ && reason@ == invalid_semver_reason(value@)),
        trim_spec(value@).len() > 0 && semver_spec(value@) is Some ==> r is Ok,
{
    if crate::text::is_blank(value) {
        proof {
            reveal_strlit("must not be empty");
        }
        return Err(SwarmError::ConfigInvalid { key: owned(key), reason: owned("must not be empty") });
    }
    match parse_semver_triplet(value) {
        Ok(_) => Ok(()),
        Err(e) => Err(e),
    }
}

/// Whether a permission text has the `verb:resource` form: exactly one
/// colon, with a non-blank verb and a non-blank resource.
pub open spec fn valid_permission_spec(value: Seq<char>) -> bool {
    let parts = split_spec(value, ':');
    parts.len() == 2 && trim_spec(parts[0]).len() > 0 && trim_spec(parts[1]).len() > 0
}

/// Whether a permission text has the `verb:resource` form.
pub fn is_valid_permission(value: &str) -> (r: bool)
    ensures
        r == valid_permission_spec(value@),
{
    let cs = chars_of(value);
    let parts = split_chars(cs.as_slice(), ':');
    if parts.len() != 2 {
        return false;
    }
    let verb = string_from_chars(parts[0].as_slice());
    let resource = string_from_chars(parts[1].as_slice());
    !crate::text::is_blank(verb.as_str()) && !crate::text::is_blank(resource.as_str())
}

/// The problem with one action name at position `i` of `names`: a blank
/// name, or a name equal (ignoring ASCII case) to an earlier one.
pub open spec fn action_fault(names: Seq<Seq<char>>, i: int, plugin: Seq<char>) -> Option<(Seq<char>, Seq<char>)> {
    let key = "plugin."@ + plugin + ".actions"@;
    if trim_spec(names[i]).len() == 0 {
        Some((key, "plugin action names must not be empty"@))
    } else if exists|j: int| 0 <= j < i && lower_spec(#[trigger] names[j]) == lower_spec(names[i]) {
        Some((key, "duplicate action '"@ + names[i] + "' declared"@))
    } else {
        None
    }
}

/// The first action problem at or after position `i`.
pub open spec fn first_action_fault(names: Seq<Seq<char>>, i: int, plugin: Seq<char>) -> Option<(Seq<char>, Seq<char>)>
    decreases names.len() - i,
{
    if i < 0 || i >= names.len() {
        None
    } else {
        match action_fault(names, i, plugin) {
            Some(f) => Some(f),
            None => first_action_fault(names, i + 1, plugin),
        }
    }
}

/// The problem with one required permission at position `i`: not in
/// `verb:resource` form, or equal (ignoring ASCII case) to an earlier one.
pub open spec fn permission_fault(perms: Seq<Seq<char>>, i: int, plugin: Seq<char>) -> Option<(Seq<char>, Seq<char>)> {
    let key = "plugin."@ + plugin + ".required_permissions"@;
    if !valid_permission_spec(perms[i]) {
        Some((key, "permission '"@ + perms[i] + "' must use the 'verb:resource' format"@))
    } else if exists|j: int| 0 <= j < i && lower_spec(#[trigger] perms[j]) == lower_spec(perms[i]) {
        Some((key, "duplicate required permission '"@ + perms[i] + "' declared"@))
    } else {
        None
    }
}

/// The first permission problem at or after position `i`.
pub open spec fn first_permission_fault(perms: Seq<Seq<char>>, i: int, plugin: Seq<char>) -> Option<(Seq<char>, Seq<char>)>
    decreases perms.len() - i,
{
    if i < 0 || i >= perms.len() {
        None
    } else {
        match permission_fault(perms, i, plugin) {
            Some(f) => Some(f),
            None => first_permission_fault(perms, i + 1, plugin),
        }
    }
}

/// The names of a manifest's actions.
pub open spec fn action_names(a: Seq<PluginAction>) -> Seq<Seq<char>> {
    a.map_values(|x: PluginAction| x.name@)
}

/// The texts of a list of strings.
pub open spec fn string_texts(a: Seq<String>) -> Seq<Seq<char>> {
    a.map_values(|x: String| x@)
}

/// Whether the capabilities include `ActionProvider`.
pub open spec fn provides_actions(c: Seq<PluginCapabilityKind>) -> bool {
    exists|i: int| 0 <= i < c.len() && #[trigger] c[i] == PluginCapabilityKind::ActionProvider
}

/// What checking a manifest against a host version yields: `0` when the
/// manifest is acceptable; `1` with a key and a reason when a field is
/// invalid; `2` when the host is older than the manifest requires. The
/// checks run in this order: name, author, version, minimum host version,
/// host version, actions, capabilities, permissions.
pub open spec fn manifest_verdict(m: PluginManifest, host: Seq<char>) -> (int, Seq<char>, Seq<char>) {
    let n = m.name@;
    if trim_spec(n).len() == 0 {
        (1, "plugin.name"@, "plugin name must not be empty"@)
    } else if trim_spec(m.author@).len() == 0 {
        (1, "plugin."@ + n + ".author"@, "plugin author must not be empty"@)
    } else if trim_spec(m.version@).len() == 0 {
        (1, "plugin."@ + n + ".version"@, "must not be empty"@)
    } else if semver_spec(m.version@) is None {
        (1, "plugin.semver"@, invalid_semver_reason(m.version@))
    } else if trim_spec(m.min_host_version@).len() == 0 {
        (1, "plugin."@ + n + ".min_host_version"@, "must not be empty"@)
    } else if semver_spec(m.min_host_version@) is None {
        (1, "plugin.semver"@, invalid_semver_reason(m.min_host_version@))
    } else if semver_spec(host) is None {
        (1, "plugin.semver"@, invalid_semver_reason(host))
    } else if triplet_older(semver_spec(host).unwrap(), semver_spec(m.min_host_version@).unwrap()) {
        (2, Seq::empty(), Seq::empty())
    } else if first_action_fault(action_names(m.actions@), 0, n) is Some {
        (1, first_action_fault(action_names(m.actions@), 0, n).unwrap().0, first_action_fault(
            action_names(m.actions@),
            0,
            n,
        ).unwrap().1)
    } else if m.actions@.len() > 0 && !provides_actions(m.capabilities@) {
        (1, "plugin."@ + n + ".capabilities"@, "plugins declaring actions must include the ActionProvider capability"@)
    } else if m.actions@.len() == 0 && provides_actions(m.capabilities@) {
        (1, "plugin."@ + n + ".actions"@, "ActionProvider plugins must declare at least one action"@)
    } else if first_permission_fault(string_texts(m.required_permissions@), 0, n) is Some {
        (1, first_permission_fault(string_texts(m.required_permissions@), 0, n).unwrap().0,
        first_permission_fault(string_texts(m.required_permissions@), 0, n).unwrap().1)
    } else {
        (0, Seq::empty(), Seq::empty())
    }
}

/// `"plugin." + name + suffix`.
fn plugin_key(name: &str, suffix: &str) -> (r: String)
    ensures
        r@ == "plugin."@ + name@ + suffix@,
{
    let mut k = owned("plugin.");
    k.append(name);
    k.append(suffix);
    proof {
        reveal_strlit("plugin.");
    }
    k
}

/// `prefix + middle + suffix`.
fn quoted(prefix: &str, middle: &str, suffix: &str) -> (r: String)
    ensures
        r@ == prefix@ + middle@ + suffix@,
{
    let mut k = owned(prefix);
    k.append(middle);
    k.append(suffix);
    k
}

impl PluginManifest {
    /// A minimal manifest: a fresh identifier, minimum host version `0.1.0`,
    /// and no capabilities, actions or permissions.
    pub fn new(name: &str, version: &str, author: &str, description: &str) -> (r: Self)
        ensures
            r.name@ == name@,
            r.version@ == version@,
            r.author@ == author@,
            r.description@ == description@,
            r.min_host_version@ == "0.1.0"@,
            r.capabilities@.len() == 0,
            r.actions@.len() == 0,
            r.required_permissions@.len() == 0,
            r.wasm_permissions@.len() == 0,
    {
        proof {
            reveal_strlit("0.1.0");
        }
        PluginManifest {
            id: PluginId::new(),
            name: owned(name),
            version: owned(version),
            author: owned(author),
            description: owned(description),
            min_host_version: owned("0.1.0"),
            capabilities: Vec::new(),
            actions: Vec::new(),
            required_permissions: Vec::new(),
            wasm_permissions: Vec::new(),
        }
    }

    /// Check the manifest's structure and its compatibility with a host
    /// version; see `manifest_verdict` for what is checked and in which
    /// order.
    #[verifier::rlimit(50)]
    pub fn validate_for_host(&self, host_version: &str) -> (r: SwarmResult<()>)
        ensures
            manifest_verdict(*self, host_version@).0 == 0 <==> r is Ok,
            manifest_verdict(*self, host_version@).0 == 1 ==> (r matches Err(
                SwarmError::ConfigInvalid { key, reason },
            ) && key@ == manifest_verdict(*self, host_version@).1 && reason@ == manifest_verdict(
                *self,
                host_version@,
            ).2),
            manifest_verdict(*self, host_version@).0 == 2 ==> (r matches Err(
                SwarmError::PluginVersionMismatch { name, plugin_version, host_version: h },
            ) && name@ == self.name@ && plugin_version@ == self.min_host_version@ && h@
                == host_version@),
    {
        proof {
            reveal_strlit("plugin.name");
            reveal_strlit("plugin name must not be empty");
            reveal_strlit(".author");
            reveal_strlit("plugin author must not be empty");
            reveal_strlit(".version");
            reveal_strlit(".min_host_version");
            reveal_strlit(".actions");
            reveal_strlit(".capabilities");
            reveal_strlit(".required_permissions");
        }
        let name = self.name.as_str();
        if crate::text::is_blank(name) {
            return Err(
                SwarmError::ConfigInvalid {
                    key: owned("plugin.name"),
                    reason: owned("plugin name must not be empty"),
                },
            );
        }
        if crate::text::is_blank(self.author.as_str()) {
            return Err(
                SwarmError::ConfigInvalid {
                    key: plugin_key(name, ".author"),
                    reason: owned("plugin author must not be empty"),
                },
            );
        }
        let vkey = plugin_key(name, ".version");
        validate_semver_field(self.version.as_str(), vkey.as_str())?;
        let mkey = plugin_key(name, ".min_host_version");
        validate_semver_field(self.min_host_version.as_str(), mkey.as_str())?;
        let host = parse_semver_triplet(host_version)?;
        let min = parse_semver_triplet(self.min_host_version.as_str())?;
        let older = host.0 < min.0 || (host.0 == min.0 && host.1 < min.1) || (host.0 == min.0
            && host.1 == min.1 && host.2 < min.2);
        if older {
            return Err(
                SwarmError::PluginVersionMismatch {
                    name: self.name.clone(),
                    plugin_version: self.min_host_version.clone(),
                    host_version: owned(host_version),
                },
            );
        }
        match self.check_actions() {
            Some(e) => {
                return Err(e);
            },
            None => {},
        }
        let mut provides = false;
        let nc = self.capabilities.len();
        let mut c: usize = 0;
        while c < nc
            invariant
                c <= nc == self.capabilities@.len(),
                provides == exists|i: int| 0 <= i < c && #[trigger] self.capabilities@[i]
                    == PluginCapabilityKind::ActionProvider,
            decreases nc - c,
        {
            if matches!(self.capabilities[c], PluginCapabilityKind::ActionProvider) {
                provides = true;
            }
            c = c + 1;
        }
        if self.actions.len() > 0 && !provides {
            proof {
                reveal_strlit("plugins declaring actions must include the ActionProvider capability");
            }
            return Err(
                SwarmError::ConfigInvalid {
                    key: plugin_key(name, ".capabilities"),
                    reason: owned("plugins declaring actions must include the ActionProvider capability"),
                },
            );
        }
        if self.actions.len() == 0 && provides {
            proof {
                reveal_strlit("ActionProvider plugins must declare at least one action");
            }
            return Err(
                SwarmError::ConfigInvalid {
                    key: plugin_key(name, ".actions"),
                    reason: owned("ActionProvider plugins must declare at least one action"),
                },
            );
        }
        match self.check_permissions() {
            Some(e) => {
                return Err(e);
            },
            None => {},
        }
        Ok(())
    }

    /// The first problem among the action names, as an error.
    fn check_actions(&self) -> (r: Option<SwarmError>)
        ensures
            first_action_fault(action_names(self.actions@), 0, self.name@) is None <==> r is None,
            first_action_fault(action_names(self.actions@), 0, self.name@) matches Some(f) ==> (r matches Some(
                SwarmError::ConfigInvalid { key, reason },
            ) && key@ == f.0 && reason@ == f.1),
    {
        let ghost names = action_names(self.actions@);
        let mut seen: Vec<Vec<char>> = Vec::new();
        let n = self.actions.len();
        let mut i: usize = 0;
        while i < n
            invariant
                i <= n == self.actions@.len(),
                names == action_names(self.actions@),
                names.len() == n,
                seen@.len() == i,
                forall|j: int| 0 <= j < i ==> #[trigger] seen@[j]@ == lower_spec(names[j]),
                forall|j: int| 0 <= j < i ==> action_fault(names, j, self.name@) is None,
                first_action_fault(names, 0, self.name@) == first_action_fault(names, i as int, self.name@),
            decreases n - i,
        {
            let aname = self.actions[i].name.as_str();
            proof {
                assert(names[i as int] == aname@);
                reveal_strlit(".actions");
                reveal_strlit("plugin action names must not be empty");
                reveal_strlit("duplicate action '");
                reveal_strlit("' declared");
            }
            if crate::text::is_blank(aname) {
                return Some(
                    SwarmError::ConfigInvalid {
                        key: plugin_key(self.name.as_str(), ".actions"),
                        reason: owned("plugin action names must not be empty"),
                    },
                );
            }
            let lowered = crate::text::lower_chars(chars_of(aname).as_slice());
            let mut dup = false;
            let mut j: usize = 0;
            while j < i
                invariant
                    j <= i <= n,
                    seen@.len() == i,
                    dup == exists|k: int| 0 <= k < j && seen@[k]@ == lowered@,
                decreases i - j,
            {
                if crate::text::chars_eq(seen[j].as_slice(), lowered.as_slice()) {
                    dup = true;
                }
                j = j + 1;
            }
            if dup {
                proof {
                    let k = choose|k: int| 0 <= k < i && seen@[k]@ == lowered@;
                    assert(lower_spec(names[k]) == lower_spec(names[i as int]));
                }
                return Some(
                    SwarmError::ConfigInvalid {
                        key: plugin_key(self.name.as_str(), ".actions"),
                        reason: quoted("duplicate action '", aname, "' declared"),
                    },
                );
            }
            proof {
                assert(!(exists|k: int| 0 <= k < i && lower_spec(#[trigger] names[k]) == lower_spec(names[i as int]))) by {
                    if exists|k: int| 0 <= k < i && lower_spec(#[trigger] names[k]) == lower_spec(names[i as int]) {
                        let k = choose|k: int| 0 <= k < i && lower_spec(#[trigger] names[k]) == lower_spec(names[i as int]);
                        assert(seen@[k]@ == lowered@);
                    }
                }
                assert(action_fault(names, i as int, self.name@) is None);
            }
            seen.push(lowered);
            i = i + 1;
        }
        None
    }

    /// The first problem among the required permissions, as an error.
    fn check_permissions(&self) -> (r: Option<SwarmError>)
        ensures
            first_permission_fault(string_texts(self.required_permissions@), 0, self.name@) is None <==> r is None,
            first_permission_fault(string_texts(self.required_permissions@), 0, self.name@) matches Some(f) ==> (r matches Some(
                SwarmError::ConfigInvalid { key, reason },
            ) && key@ == f.0 && reason@ == f.1),
    {
        let ghost perms = string_texts(self.required_permissions@);
        let mut seen: Vec<Vec<char>> = Vec::new();
        let n = self.required_permissions.len();
        let mut i: usize = 0;
        while i < n
            invariant
                i <= n == self.required_permissions@.len(),
                perms == string_texts(self.required_permissions@),
                perms.len() == n,
                seen@.len() == i,
                forall|j: int| 0 <= j < i ==> #[trigger] seen@[j]@ == lower_spec(perms[j]),
                forall|j: int| 0 <= j < i ==> permission_fault(perms, j, self.name@) is None,
                first_permission_fault(perms, 0, self.name@) == first_permission_fault(perms, i as int, self.name@),
            decreases n - i,
        {
            let p = self.required_permissions[i].as_str();
            proof {
                assert(perms[i as int] == p@);
                reveal_strlit(".required_permissions");
                reveal_strlit("permission '");
                reveal_strlit("' must use the 'verb:resource' format");
                reveal_strlit("duplicate required permission '");
                reveal_strlit("' declared");
            }
            if !is_valid_permission(p) {
                return Some(
                    SwarmError::ConfigInvalid {
                        key: plugin_key(self.name.as_str(), ".required_permissions"),
                        reason: quoted("permission '", p, "' must use the 'verb:resource' format"),
                    },
                );
            }
            let lowered = crate::text::lower_chars(chars_of(p).as_slice());
            let mut dup = false;
            let mut j: usize = 0;
            while j < i
                invariant
                    j <= i <= n,
                    seen@.len() == i,
                    dup == exists|k: int| 0 <= k < j && seen@[k]@ == lowered@,
                decreases i - j,
            {
                if crate::text::chars_eq(seen[j].as_slice(), lowered.as_slice()) {
                    dup = true;
                }
                j = j + 1;
            }
            if dup {
                proof {
                    let k = choose|k: int| 0 <= k < i && seen@[k]@ == lowered@;
                    assert(lower_spec(perms[k]) == lower_spec(perms[i as int]));
                }
                return Some(
                    SwarmError::ConfigInvalid {
                        key: plugin_key(self.name.as_str(), ".required_permissions"),
                        reason: quoted("duplicate required permission '", p, "' declared"),
                    },
                );
            }
            proof {
                assert(!(exists|k: int| 0 <= k < i && lower_spec(#[trigger] perms[k]) == lower_spec(perms[i as int]))) by {
                    if exists|k: int| 0 <= k < i && lower_spec(#[trigger] perms[k]) == lower_spec(perms[i as int]) {
                        let k = choose|k: int| 0 <= k < i && lower_spec(#[trigger] perms[k]) == lower_spec(perms[i as int]);
                        assert(seen@[k]@ == lowered@);
                    }
                }
                assert(permission_fault(perms, i as int, self.name@) is None);
            }
            seen.push(lowered);
            i = i + 1;
        }
        None
    }
}

/// The value of a sandbox permission: its kind (0 network, 1 environment
/// variable, 2 file read, 3 file write, 4 custom) and its text.
pub open spec fn wasm_view(p: WasmPermission) -> (int, Seq<char>) {
    match p {
        WasmPermission::Network(v) => (0, v@),
        WasmPermission::EnvVar(v) => (1, v@),
        WasmPermission::FileRead(v) => (2, v@),
        WasmPermission::FileWrite(v) => (3, v@),
        WasmPermission::Custom(v) => (4, v@),
    }
}

/// The values of a list of sandbox permissions.
pub open spec fn wasm_views(s: Seq<WasmPermission>) -> Seq<(int, Seq<char>)> {
    s.map_values(|p: WasmPermission| wasm_view(p))
}

/// The value of an action: name, description and schemas.
pub open spec fn action_view(a: PluginAction) -> (Seq<char>, Seq<char>, Option<serde_json::Value>, Option<serde_json::Value>) {
    (a.name@, a.description@, a.input_schema, a.output_schema)
}

/// The values of a list of actions.
pub open spec fn action_views(s: Seq<PluginAction>) -> Seq<(Seq<char>, Seq<char>, Option<serde_json::Value>, Option<serde_json::Value>)> {
    s.map_values(|x: PluginAction| action_view(x))
}

/// Whether two manifests hold the same values.
pub open spec fn same_manifest(a: PluginManifest, b: PluginManifest) -> bool {
    &&& a.id == b.id
    &&& a.name@ == b.name@
    &&& a.version@ == b.version@
    &&& a.author@ == b.author@
    &&& a.description@ == b.description@
    &&& a.min_host_version@ == b.min_host_version@
    &&& a.capabilities@ == b.capabilities@
    &&& action_views(a.actions@) == action_views(b.actions@)
    &&& string_texts(a.required_permissions@) == string_texts(b.required_permissions@)
    &&& wasm_views(a.wasm_permissions@) == wasm_views(b.wasm_permissions@)
}

impl WasmPermission {
    /// A copy of this permission.
    pub fn duplicate(&self) -> (r: WasmPermission)
        ensures
            wasm_view(r) == wasm_view(*self),
    {
        match self {
            WasmPermission::Network(v) => WasmPermission::Network(v.clone()),
            WasmPermission::EnvVar(v) => WasmPermission::EnvVar(v.clone()),
            WasmPermission::FileRead(v) => WasmPermission::FileRead(v.clone()),
            WasmPermission::FileWrite(v) => WasmPermission::FileWrite(v.clone()),
            WasmPermission::Custom(v) => WasmPermission::Custom(v.clone()),
        }
    }

    /// Whether two permissions are the same value.
    pub fn same_as(&self, other: &WasmPermission) -> (r: bool)
        ensures
            r == (wasm_view(*self) == wasm_view(*other)),
    {
        match (self, other) {
            (WasmPermission::Network(a), WasmPermission::Network(b)) => *a == *b,
            (WasmPermission::EnvVar(a), WasmPermission::EnvVar(b)) => *a == *b,
            (WasmPermission::FileRead(a), WasmPermission::FileRead(b)) => *a == *b,
            (WasmPermission::FileWrite(a), WasmPermission::FileWrite(b)) => *a == *b,
            (WasmPermission::Custom(a), WasmPermission::Custom(b)) => *a == *b,
            _ => false,
        }
    }
}

impl PluginAction {
    /// A copy of this action.
    pub fn duplicate(&self) -> (r: PluginAction)
        ensures
            action_view(r) == action_view(*self),
    {
        let input_schema = match &self.input_schema {
            Some(v) => Some(v.clone()),
            None => None,
        };
        let output_schema = match &self.output_schema {
            Some(v) => Some(v.clone()),
            None => None,
        };
        PluginAction { name: self.name.clone(), description: self.description.clone(), input_schema, output_schema }
    }
}

impl PluginManifest {
    /// A copy of this manifest.
    pub fn duplicate(&self) -> (r: PluginManifest)
        ensures
            same_manifest(r, *self),
    {
        let mut caps: Vec<PluginCapabilityKind> = Vec::new();
        let mut i: usize = 0;
        while i < self.capabilities.len()
            invariant
                i <= self.capabilities@.len(),
                caps@ == self.capabilities@.take(i as int),
            decreases self.capabilities@.len() - i,
        {
            caps.push(self.capabilities[i]);
            i = i + 1;
            assert(caps@ =~= self.capabilities@.take(i as int));
        }
        assert(self.capabilities@.take(i as int) =~= self.capabilities@);
        let mut actions: Vec<PluginAction> = Vec::new();
        let mut j: usize = 0;
        while j < self.actions.len()
            invariant
                j <= self.actions@.len(),
                actions@.len() == j,
                forall|k: int| 0 <= k < j ==> action_view(#[trigger] actions@[k]) == action_view(self.actions@[k]),
            decreases self.actions@.len() - j,
        {
            actions.push(self.actions[j].duplicate());
            j = j + 1;
        }
        assert(action_views(actions@) =~= action_views(self.actions@));
        let mut perms: Vec<String> = Vec::new();
        let mut k: usize = 0;
        while k < self.required_permissions.len()
            invariant
                k <= self.required_permissions@.len(),
                perms@.len() == k,
                forall|q: int| 0 <= q < k ==> (#[trigger] perms@[q])@ == self.required_permissions@[q]@,
            decreases self.required_permissions@.len() - k,
        {
            perms.push(self.required_permissions[k].clone());
            k = k + 1;
        }
        assert(string_texts(perms@) =~= string_texts(self.required_permissions@));
        let mut wasm: Vec<WasmPermission> = Vec::new();
        let mut w: usize = 0;
        while w < self.wasm_permissions.len()
            invariant
                w <= self.wasm_permissions@.len(),
                wasm@.len() == w,
                forall|q: int| 0 <= q < w ==> wasm_view(#[trigger] wasm@[q]) == wasm_view(self.wasm_permissions@[q]),
            decreases self.wasm_permissions@.len() - w,
        {
            wasm.push(self.wasm_permissions[w].duplicate());
            w = w + 1;
        }
        assert(wasm_views(wasm@) =~= wasm_views(self.wasm_permissions@));
        PluginManifest {
            id: self.id,
            name: self.name.clone(),
            version: self.version.clone(),
            author: self.author.clone(),
            description: self.description.clone(),
            min_host_version: self.min_host_version.clone(),
            capabilities: caps,
            actions,
            required_permissions: perms,
            wasm_permissions: wasm,
        }
    }
}

/// Whether every name is non-blank and no two are equal ignoring ASCII case.
pub open spec fn names_valid_and_distinct(names: Seq<Seq<char>>) -> bool {
    &&& forall|i: int| 0 <= i < names.len() ==> trim_spec(#[trigger] names[i]).len() > 0
    &&& forall|i: int, j: int| 0 <= j < i < names.len() ==> lower_spec(#[trigger] names[j]) != lower_spec(
        #[trigger] names[i],
    )
}

/// Whether every permission has the `verb:resource` form and no two are
/// equal ignoring ASCII case.
pub open spec fn permissions_valid_and_distinct(perms: Seq<Seq<char>>) -> bool {
    &&& forall|i: int| 0 <= i < perms.len() ==> valid_permission_spec(#[trigger] perms[i])
    &&& forall|i: int, j: int| 0 <= j < i < perms.len() ==> lower_spec(#[trigger] perms[j]) != lower_spec(
        #[trigger] perms[i],
    )
}

proof fn lemma_no_action_fault(names: Seq<Seq<char>>, i: int, plugin: Seq<char>)
    requires
        0 <= i <= names.len(),
    ensures
        first_action_fault(names, i, plugin) is None <==> forall|k: int| i <= k < names.len() ==> #[trigger] action_fault(
            names,
            k,
            plugin,
        ) is None,
    decreases names.len() - i,
{
    if i < names.len() {
        lemma_no_action_fault(names, i + 1, plugin);
    }
}

proof fn lemma_no_permission_fault(perms: Seq<Seq<char>>, i: int, plugin: Seq<char>)
    requires
        0 <= i <= perms.len(),
    ensures
        first_permission_fault(perms, i, plugin) is None <==> forall|k: int| i <= k < perms.len()
            ==> #[trigger] permission_fault(perms, k, plugin) is None,
    decreases perms.len() - i,
{
    if i < perms.len() {
        lemma_no_permission_fault(perms, i + 1, plugin);
    }
}

/// A manifest passes the host check exactly when its name and author are
/// not blank; its version, its minimum host version and the host version
/// are `[v]major.minor.patch` triplets and the host is not older than the
/// minimum; its action names are non-blank and distinct ignoring ASCII case;
/// it declares actions exactly when it has the `ActionProvider` capability;
/// and its required permissions have the `verb:resource` form and are
/// distinct ignoring ASCII case.
pub proof fn lemma_manifest_accepted(m: PluginManifest, host: Seq<char>)
    ensures
        manifest_verdict(m, host).0 == 0 <==> {
            &&& trim_spec(m.name@).len() > 0
            &&& trim_spec(m.author@).len() > 0
            &&& trim_spec(m.version@).len() > 0
            &&& semver_spec(m.version@) is Some
            &&& trim_spec(m.min_host_version@).len() > 0
            &&& semver_spec(m.min_host_version@) is Some
            &&& semver_spec(host) is Some
            &&& !triplet_older(semver_spec(host).unwrap(), semver_spec(m.min_host_version@).unwrap())
            &&& names_valid_and_distinct(action_names(m.actions@))
            &&& (m.actions@.len() > 0 <==> provides_actions(m.capabilities@))
            &&& permissions_valid_and_distinct(string_texts(m.required_permissions@))
        },
{
    let names = action_names(m.actions@);
    let perms = string_texts(m.required_permissions@);
    let n = m.name@;
    lemma_no_action_fault(names, 0, n);
    lemma_no_permission_fault(perms, 0, n);
    assert(names_valid_and_distinct(names) <==> forall|k: int| 0 <= k < names.len() ==> #[trigger] action_fault(
        names,
        k,
        n,
    ) is None) by {
        if names_valid_and_distinct(names) {
            assert forall|k: int| 0 <= k < names.len() implies #[trigger] action_fault(names, k, n) is None by {
                assert(trim_spec(names[k]).len() > 0);
                assert(!exists|j: int| 0 <= j < k && lower_spec(#[trigger] names[j]) == lower_spec(names[k]));
            }
        }
        if forall|k: int| 0 <= k < names.len() ==> #[trigger] action_fault(names, k, n) is None {
            assert forall|i: int| 0 <= i < names.len() implies trim_spec(#[trigger] names[i]).len() > 0 by {
                assert(action_fault(names, i, n) is None);
            }
            assert forall|i: int, j: int| 0 <= j < i < names.len() implies lower_spec(#[trigger] names[j])
                != lower_spec(#[trigger] names[i]) by {
                assert(action_fault(names, i, n) is None);
            }
        }
    }
    assert(permissions_valid_and_distinct(perms) <==> forall|k: int| 0 <= k < perms.len()
        ==> #[trigger] permission_fault(perms, k, n) is None) by {
        if permissions_valid_and_distinct(perms) {
            assert forall|k: int| 0 <= k < perms.len() implies #[trigger] permission_fault(perms, k, n) is None by {
                assert(valid_permission_spec(perms[k]));
                assert(!exists|j: int| 0 <= j < k && lower_spec(#[trigger] perms[j]) == lower_spec(perms[k]));
            }
        }
        if forall|k: int| 0 <= k < perms.len() ==> #[trigger] permission_fault(perms, k, n) is None {
            assert forall|i: int| 0 <= i < perms.len() implies valid_permission_spec(#[trigger] perms[i]) by {
                assert(permission_fault(perms, i, n) is None);
            }
            assert forall|i: int, j: int| 0 <= j < i < perms.len() implies lower_spec(#[trigger] perms[j])
                != lower_spec(#[trigger] perms[i]) by {
                assert(permission_fault(perms, i, n) is None);
            }
        }
    }
}

} // verus!
