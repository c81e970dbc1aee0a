//! Plugin host: load-time permission checks, invocation-time permission
//! checks and the lifecycle steps of loading, invoking and unloading.
//!
//! The plugin instances themselves run in the runtime; the host keeps the
//! registry and the policies and decides each step: the runtime calls
//! `begin_load`, runs the plugin's `on_load`, then reports its outcome to
//! `finish_load`; an invocation first goes through `prepare_invoke`.

use vstd::prelude::*;
use crate::error::{SwarmError, SwarmResult};
use crate::identity::PluginId;
use crate::plugin::lifecycle::{state_label, PluginState};
use crate::plugin::manifest::{
    action_names, manifest_verdict, string_texts, wasm_view, wasm_views, PluginManifest,
    WasmPermission,
};
use crate::plugin::registry::{PluginRecord, PluginRegistry};
use crate::text::{chars_of, lower_chars, lower_spec, owned, position_of};

verus! {

/// Whether `list` holds the text `t`.
pub open spec fn holds_text(list: Seq<String>, t: Seq<char>) -> bool {
    exists|i: int| 0 <= i < list.len() && #[trigger] list[i]@ == t
}

/// Whether an optional allow-list admits `t`: no list admits everything.
pub open spec fn admits(list: Option<Vec<String>>, t: Seq<char>) -> bool {
    match list {
        None => true,
        Some(v) => holds_text(v@, t),
    }
}

/// Whether an optional allow-list of sandbox permissions admits `p`.
pub open spec fn admits_wasm(list: Option<Vec<WasmPermission>>, p: (int, Seq<char>)) -> bool {
    match list {
        None => true,
        Some(v) => exists|i: int| 0 <= i < v@.len() && #[trigger] wasm_view(v@[i]) == p,
    }
}

fn strings_of(items: &[&str]) -> (r: Vec<String>)
    ensures
        r@.len() == items@.len(),
        forall|i: int| 0 <= i < items@.len() ==> (#[trigger] r@[i])@ == items@[i]@,
{
    let mut out: Vec<String> = Vec::new();
    let mut i: usize = 0;
    while i < items.len()
        invariant
            i <= items@.len(),
            out@.len() == i,
            forall|k: int| 0 <= k < i ==> (#[trigger] out@[k])@ == items@[k]@,
        decreases items@.len() - i,
    {
        out.push(owned(items[i]));
        i = i + 1;
    }
    out
}

fn admits_exec(list: &Option<Vec<String>>, t: &str) -> (r: bool)
    ensures
        r == admits(*list, t@),
{
    match list {
        None => true,
        Some(v) => match position_of(v.as_slice(), t) {
            Some(_) => true,
            None => false,
        },
    }
}

/// Load-time permission guardrail. Without allow-lists every permission is
/// admitted; with one, a plugin requesting anything outside it is refused.
#[derive(Debug)]
pub struct PluginPermissionPolicy {
    /// The framework permissions a plugin may request, if restricted.
    pub allowed_framework_permissions: Option<Vec<String>>,
    /// The sandbox permissions a plugin may request, if restricted.
    pub allowed_wasm_permissions: Option<Vec<WasmPermission>>,
}

impl PluginPermissionPolicy {
    /// A permissive policy.
    pub fn new() -> (r: Self)
        ensures
            r.allowed_framework_permissions is None,
            r.allowed_wasm_permissions is None,
    {
        PluginPermissionPolicy { allowed_framework_permissions: None, allowed_wasm_permissions: None }
    }

    /// Restrict framework permissions to the given allow-list.
    pub fn with_allowed_framework_permissions(self, permissions: &[&str]) -> (r: Self)
        ensures
            r.allowed_framework_permissions matches Some(v) && v@.len() == permissions@.len() && (forall|i: int|
                0 <= i < permissions@.len() ==> (#[trigger] v@[i])@ == permissions@[i]@),
            r.allowed_wasm_permissions == self.allowed_wasm_permissions,
    {
        PluginPermissionPolicy { allowed_framework_permissions: Some(strings_of(permissions)), ..self }
    }

    /// Restrict sandbox permissions to the given allow-list.
    pub fn with_allowed_wasm_permissions(self, permissions: Vec<WasmPermission>) -> (r: Self)
        ensures
            r.allowed_wasm_permissions == Some(permissions),
            r.allowed_framework_permissions == self.allowed_framework_permissions,
    {
        PluginPermissionPolicy { allowed_wasm_permissions: Some(permissions), ..self }
    }

    /// Whether a framework permission is admitted.
    pub fn allows_framework_permission(&self, permission: &str) -> (r: bool)
        ensures
            r == admits(self.allowed_framework_permissions, permission@),
    {
        admits_exec(&self.allowed_framework_permissions, permission)
    }

    /// Whether a sandbox permission is admitted.
    pub fn allows_wasm_permission(&self, permission: &WasmPermission) -> (r: bool)
        ensures
            r == admits_wasm(self.allowed_wasm_permissions, wasm_view(*permission)),
    {
        match &self.allowed_wasm_permissions {
            None => true,
            Some(v) => {
                let mut i: usize = 0;
                while i < v.len()
                    invariant
                        i <= v@.len(),
                        self.allowed_wasm_permissions == Some(*v),
                        forall|k: int| 0 <= k < i ==> wasm_view(v@[k]) != wasm_view(*permission),
                    decreases v@.len() - i,
                {
                    if v[i].same_as(permission) {
                        proof {
                            assert(wasm_view(v@[i as int]) == wasm_view(*permission));
                            let w = self.allowed_wasm_permissions->Some_0;
                            assert(w@ == v@);
                            assert(wasm_view(w@[i as int]) == wasm_view(*permission));
                            assert(admits_wasm(self.allowed_wasm_permissions, wasm_view(*permission)));
                        }
                        return true;
                    }
                    i = i + 1;
                }
                false
            },
        }
    }
}

/// Invocation-time guardrail. Without a grant list every invocation is
/// admitted; with one, every framework permission the plugin requires must
/// be granted.
#[derive(Debug)]
pub struct PluginInvocationPolicy {
    /// The framework permissions granted to plugins, if restricted.
    pub granted_framework_permissions: Option<Vec<String>>,
}

/// The first of `required` not admitted by `granted`, if any.
pub open spec fn first_missing(required: Seq<Seq<char>>, granted: Option<Vec<String>>) -> Option<Seq<char>>
    decreases required.len(),
{
    if required.len() == 0 {
        None
    } else if !admits(granted, required[0]) {
        Some(required[0])
    } else {
        first_missing(required.drop_first(), granted)
    }
}

impl PluginInvocationPolicy {
    /// A permissive policy.
    pub fn new() -> (r: Self)
        ensures
            r.granted_framework_permissions is None,
    {
        PluginInvocationPolicy { granted_framework_permissions: None }
    }

    /// Grant the given framework permissions for invocation.
    pub fn with_granted_framework_permissions(self, permissions: &[&str]) -> (r: Self)
        ensures
            r.granted_framework_permissions matches Some(v) && v@.len() == permissions@.len() && (forall|i: int|
                0 <= i < permissions@.len() ==> (#[trigger] v@[i])@ == permissions@[i]@),
    {
        PluginInvocationPolicy { granted_framework_permissions: Some(strings_of(permissions)) }
    }

    /// Whether a framework permission is granted.
    pub fn allows_framework_permission(&self, permission: &str) -> (r: bool)
        ensures
            r == admits(self.granted_framework_permissions, permission@),
    {
        admits_exec(&self.granted_framework_permissions, permission)
    }

    /// The first permission the manifest requires that is not granted.
    pub fn missing_framework_permission(&self, manifest: &PluginManifest) -> (r: Option<String>)
        ensures
            first_missing(string_texts(manifest.required_permissions@), self.granted_framework_permissions)
                matches Some(t) ==> (r matches Some(s) && s@ == t),
            first_missing(string_texts(manifest.required_permissions@), self.granted_framework_permissions)
                is None ==> r is None,
    {
        first_not_admitted(&self.granted_framework_permissions, &manifest.required_permissions)
    }
}

/// The first of `perms` that `list` does not admit.
fn first_not_admitted(list: &Option<Vec<String>>, perms: &Vec<String>) -> (r: Option<String>)
    ensures
        first_missing(string_texts(perms@), *list) matches Some(t) ==> (r matches Some(s) && s@ == t),
        first_missing(string_texts(perms@), *list) is None ==> r is None,
{
    let ghost req = string_texts(perms@);
    let n = perms.len();
    let mut i: usize = 0;
    proof {
        assert(req.skip(0) =~= req);
    }
    while i < n
        invariant
            i <= n == perms@.len(),
            req == string_texts(perms@),
            first_missing(req, *list) == first_missing(req.skip(i as int), *list),
        decreases n - i,
    {
        let p = &perms[i];
        proof {
            assert(req.skip(i as int)[0] == p@);
            assert(req.skip(i as int).drop_first() =~= req.skip(i + 1));
        }
        if !admits_exec(list, p.as_str()) {
            return Some(p.clone());
        }
        i = i + 1;
    }
    proof {
        assert(req.skip(n as int).len() == 0);
    }
    None
}

/// The first framework permission of `m` that `policy` does not admit.
pub open spec fn first_refused_framework(m: PluginManifest, policy: PluginPermissionPolicy) -> Option<Seq<char>> {
    first_missing(string_texts(m.required_permissions@), policy.allowed_framework_permissions)
}

/// The first permission of a manifest that a load-time policy refuses: the
/// first refused framework permission, else the compact form of the first
/// refused sandbox permission.
pub open spec fn first_refused_permission(m: PluginManifest, policy: PluginPermissionPolicy) -> Option<Seq<char>> {
    match first_refused_framework(m, policy) {
        Some(p) => Some(p),
        None => match first_refused_wasm(wasm_views(m.wasm_permissions@), policy.allowed_wasm_permissions, 0) {
            Some(i) => Some(crate::plugin::manifest::compact_spec(m.wasm_permissions@[i])),
            None => None,
        },
    }
}

/// Whether a plugin may take the slot of `id`: none is registered there, or
/// the one that is has `Failed`.
pub open spec fn slot_free(plugins: Map<u128, PluginRecord>, id: u128) -> bool {
    !plugins.dom().contains(id) || plugins[id].state is Failed
}

/// Whether `begin_load` accepts a manifest: valid for the host, every
/// permission admitted, and its slot free.
pub open spec fn load_admitted(
    m: PluginManifest,
    host: Seq<char>,
    policy: PluginPermissionPolicy,
    plugins: Map<u128, PluginRecord>,
) -> bool {
    &&& manifest_verdict(m, host).0 == 0
    &&& first_refused_permission(m, policy) is None
    &&& slot_free(plugins, m.id@)
}

/// The position of the first sandbox permission of `s` that `list` does not
/// admit, at or after `i`.
pub open spec fn first_refused_wasm(s: Seq<(int, Seq<char>)>, list: Option<Vec<WasmPermission>>, i: int) -> Option<int>
    decreases s.len() - i,
{
    if i < 0 || i >= s.len() {
        None
    } else if !admits_wasm(list, s[i]) {
        Some(i)
    } else {
        first_refused_wasm(s, list, i + 1)
    }
}

/// Whether action name `declared` matches the requested `action`, ignoring
/// ASCII case.
pub open spec fn names_match(declared: Seq<char>, action: Seq<char>) -> bool {
    lower_spec(declared) == lower_spec(action)
}

/// The position of the first declared action matching `action`, if any.
pub open spec fn declared_position(names: Seq<Seq<char>>, action: Seq<char>) -> Option<int> {
    if exists|i: int| 0 <= i < names.len() && names_match(#[trigger] names[i], action) {
        Some(choose|i: int| 0 <= i < names.len() && names_match(#[trigger] names[i], action) && forall|j: int|
            0 <= j < i ==> !names_match(names[j], action))
    } else {
        None
    }
}

/// What `prepare_invoke` gives for a registered plugin and an action: the
/// undeclared action's error, else the first missing grant's denial on
/// `plugin.invoke:<declared name>`, else the error naming a state other than
/// `Active`, else the declared name.
pub open spec fn invoke_outcome(
    r: SwarmResult<String>,
    rec: PluginRecord,
    policy: PluginInvocationPolicy,
    action: Seq<char>,
) -> bool {
    let m = rec.manifest;
    let names = action_names(m.actions@);
    match declared_position(names, action) {
        None => r matches Err(SwarmError::PluginOperationFailed { name, reason }) && name@ == m.name@
            && reason@ == "action '"@ + action + "' is not declared by the plugin manifest"@,
        Some(i) => match first_missing(string_texts(m.required_permissions@), policy.granted_framework_permissions) {
            Some(p) => r matches Err(SwarmError::PermissionDenied { subject, permission, resource })
                && subject@ == m.name@ && permission@ == p && resource@ == "plugin.invoke:"@ + names[i],
            None => if rec.state is Active {
                r matches Ok(s) && s@ == names[i]
            } else {
                r matches Err(SwarmError::PluginOperationFailed { reason, .. }) && reason@ == "plugin is "@
                    + state_label(rec.state)
            },
        },
    }
}

/// A record marked `Failed` for `reason` at time `at`.
pub open spec fn marked_failed(rec: PluginRecord, reason: String, at: crate::types::Timestamp) -> PluginRecord {
    PluginRecord { state: PluginState::Failed { reason, failed_at: at }, ..rec }
}

/// The plugin host's state: the registry and the two policies.
pub struct PluginHost {
    registry: PluginRegistry,
    permission_policy: PluginPermissionPolicy,
    invocation_policy: PluginInvocationPolicy,
}

impl PluginHost {
    /// The registered plugins.
    pub closed spec fn plugins(&self) -> Map<u128, PluginRecord> {
        self.registry.records()
    }

    /// The load-time policy.
    pub closed spec fn load_policy(&self) -> PluginPermissionPolicy {
        self.permission_policy
    }

    /// The invocation-time policy.
    pub closed spec fn invoke_policy(&self) -> PluginInvocationPolicy {
        self.invocation_policy
    }

    /// A permissive host with no plugins.
    pub fn new() -> (r: Self)
        ensures
            r.plugins().dom() == Set::<u128>::empty(),
            r.load_policy().allowed_framework_permissions is None,
            r.load_policy().allowed_wasm_permissions is None,
            r.invoke_policy().granted_framework_permissions is None,
    {
        Self::with_policies(PluginPermissionPolicy::new(), PluginInvocationPolicy::new())
    }

    /// A host with a load-time policy and a permissive invocation policy.
    pub fn with_permission_policy(permission_policy: PluginPermissionPolicy) -> (r: Self)
        ensures
            r.plugins().dom() == Set::<u128>::empty(),
            r.load_policy() == permission_policy,
            r.invoke_policy().granted_framework_permissions is None,
    {
        Self::with_policies(permission_policy, PluginInvocationPolicy::new())
    }

    /// A host with an invocation policy and a permissive load-time policy.
    pub fn with_invocation_policy(invocation_policy: PluginInvocationPolicy) -> (r: Self)
        ensures
            r.plugins().dom() == Set::<u128>::empty(),
            r.load_policy().allowed_framework_permissions is None,
            r.load_policy().allowed_wasm_permissions is None,
            r.invoke_policy() == invocation_policy,
    {
        Self::with_policies(PluginPermissionPolicy::new(), invocation_policy)
    }

    /// A host with both policies.
    pub fn with_policies(permission_policy: PluginPermissionPolicy, invocation_policy: PluginInvocationPolicy) -> (r: Self)
        ensures
            r.plugins().dom() == Set::<u128>::empty(),
            r.load_policy() == permission_policy,
            r.invoke_policy() == invocation_policy,
    {
        PluginHost { registry: PluginRegistry::new(), permission_policy, invocation_policy }
    }

    /// The registry.
    pub fn registry(&self) -> (r: &PluginRegistry)
        ensures
            r.records() == self.plugins(),
    {
        &self.registry
    }

    /// Check a manifest against the load-time policy: every framework
    /// permission, then every sandbox permission, must be admitted; the
    /// first refused one is reported as `PermissionDenied` on
    /// `plugin_host.load`.
    pub fn validate_manifest_permissions(&self, manifest: &PluginManifest) -> (r: SwarmResult<()>)
        ensures
            first_refused_framework(*manifest, self.load_policy()) matches Some(p) ==> (r matches Err(
                SwarmError::PermissionDenied { subject, permission, resource },
            ) && subject@ == manifest.name@ && permission@ == p && resource@ == "plugin_host.load"@),
            first_refused_wasm(
                wasm_views(manifest.wasm_permissions@),
                self.load_policy().allowed_wasm_permissions,
                0,
            ) matches Some(i) ==> (first_refused_framework(*manifest, self.load_policy()) is None ==> (r matches Err(SwarmError::PermissionDenied { subject, permission, resource })
                && subject@ == manifest.name@ && permission@ == crate::plugin::manifest::compact_spec(
                manifest.wasm_permissions@[i],
            ) && resource@ == "plugin_host.load"@)),
            r is Ok <==> first_refused_framework(*manifest, self.load_policy()) is None
                && first_refused_wasm(
                wasm_views(manifest.wasm_permissions@),
                self.load_policy().allowed_wasm_permissions,
                0,
            ) is None,
    {
        proof {
            reveal_strlit("plugin_host.load");
        }
        match first_not_admitted(&self.permission_policy.allowed_framework_permissions, &manifest.required_permissions) {
            Some(p) => {
                return Err(
                    SwarmError::PermissionDenied {
                        subject: manifest.name.clone(),
                        permission: p,
                        resource: owned("plugin_host.load"),
                    },
                );
            },
            None => {},
        }
        let ghost ws = wasm_views(manifest.wasm_permissions@);
        let n = manifest.wasm_permissions.len();
        let mut i: usize = 0;
        while i < n
            invariant
                i <= n == manifest.wasm_permissions@.len(),
                ws == wasm_views(manifest.wasm_permissions@),
                first_refused_framework(*manifest, self.load_policy()) is None,
                first_refused_wasm(ws, self.permission_policy.allowed_wasm_permissions, 0)
                    == first_refused_wasm(ws, self.permission_policy.allowed_wasm_permissions, i as int),
            decreases n - i,
        {
            proof {
                assert(ws[i as int] == wasm_view(manifest.wasm_permissions@[i as int]));
            }
            if !self.permission_policy.allows_wasm_permission(&manifest.wasm_permissions[i]) {
                return Err(
                    SwarmError::PermissionDenied {
                        subject: manifest.name.clone(),
                        permission: manifest.wasm_permissions[i].compact_string(),
                        resource: owned("plugin_host.load"),
                    },
                );
            }
            i = i + 1;
        }
        Ok(())
    }

    /// The declared name of the first action matching `action` ignoring
    /// ASCII case; an undeclared action is `PluginOperationFailed`.
    pub fn resolve_declared_action(&self, manifest: &PluginManifest, action: &str) -> (r: SwarmResult<String>)
        ensures
            declared_position(action_names(manifest.actions@), action@) matches Some(i) ==> (r matches Ok(s)
                && s@ == action_names(manifest.actions@)[i]),
            declared_position(action_names(manifest.actions@), action@) is None ==> (r matches Err(
                SwarmError::PluginOperationFailed { name, reason },
            ) && name@ == manifest.name@ && reason@ == "action '"@ + action@
                + "' is not declared by the plugin manifest"@),
    {
        let ghost names = action_names(manifest.actions@);
        let wanted = lower_chars(chars_of(action).as_slice());
        let n = manifest.actions.len();
        let mut i: usize = 0;
        while i < n
            invariant
                i <= n == manifest.actions@.len(),
                names == action_names(manifest.actions@),
                wanted@ == lower_spec(action@),
                forall|j: int| 0 <= j < i ==> !names_match(#[trigger] names[j], action@),
            decreases n - i,
        {
            let cand = lower_chars(chars_of(manifest.actions[i].name.as_str()).as_slice());
            if crate::text::chars_eq(cand.as_slice(), wanted.as_slice()) {
                proof {
                    assert(names[i as int] == manifest.actions@[i as int].name@);
                    assert(names_match(names[i as int], action@));
                    let p = declared_position(names, action@).unwrap();
                    assert(p == i) by {
                        if p < i {
                            assert(!names_match(names[p], action@));
                        }
                        if p > i {
                            assert(!names_match(names[i as int], action@));
                        }
                    }
                }
                return Ok(manifest.actions[i].name.clone());
            }
            proof {
                assert(names[i as int] == manifest.actions@[i as int].name@);
            }
            i = i + 1;
        }
        let mut reason = owned("action '");
        reason.append(action);
        reason.append("' is not declared by the plugin manifest");
        proof {
            reveal_strlit("action '");
            reveal_strlit("' is not declared by the plugin manifest");
        }
        Err(SwarmError::PluginOperationFailed { name: manifest.name.clone(), reason })
    }

    /// Check that every framework permission the manifest requires is
    /// granted; the first missing one is `PermissionDenied` on
    /// `plugin.invoke:<action>`.
    pub fn validate_invocation_permissions(&self, manifest: &PluginManifest, action: &str) -> (r: SwarmResult<()>)
        ensures
            first_missing(string_texts(manifest.required_permissions@), self.invoke_policy().granted_framework_permissions)
                matches Some(p) ==> (r matches Err(SwarmError::PermissionDenied { subject, permission, resource })
                && subject@ == manifest.name@ && permission@ == p && resource@ == "plugin.invoke:"@ + action@),
            first_missing(string_texts(manifest.required_permissions@), self.invoke_policy().granted_framework_permissions)
                is None ==> r is Ok,
    {
        match self.invocation_policy.missing_framework_permission(manifest) {
            Some(permission) => {
                let mut resource = owned("plugin.invoke:");
                resource.append(action);
                proof {
                    reveal_strlit("plugin.invoke:");
                }
                Err(SwarmError::PermissionDenied { subject: manifest.name.clone(), permission, resource })
            },
            None => Ok(()),
        }
    }

    /// Make room for a plugin: a registered plugin that `Failed` is removed;
    /// any other registered plugin is refused (`Internal`).
    pub fn prepare_registry_slot(&mut self, id: &PluginId) -> (r: SwarmResult<()>)
        ensures
            !old(self).plugins().dom().contains(id@) ==> r is Ok && final(self).plugins() == old(self).plugins(),
            old(self).plugins().dom().contains(id@) && old(self).plugins()[id@].state is Failed ==> r is Ok
                && final(self).plugins() == old(self).plugins().remove(id@),
            old(self).plugins().dom().contains(id@) && !(old(self).plugins()[id@].state is Failed) ==> (r matches Err(
                SwarmError::Internal { .. },
            )) && final(self).plugins() == old(self).plugins(),
            final(self).load_policy() == old(self).load_policy(),
            final(self).invoke_policy() == old(self).invoke_policy(),
    {
        match self.registry.get(id) {
            Some(existing) => match existing.state {
                PluginState::Failed { .. } => self.registry.deregister(id),
                _ => Err(SwarmError::Internal { reason: owned("plugin is already registered") }),
            },
            None => Ok(()),
        }
    }

    /// The first loading step: check the manifest against the host version
    /// and the load-time policy, make room for it, register it and mark it
    /// `Loading`. It succeeds exactly when the manifest is valid for the host,
    /// every permission it asks for is admitted and its slot is free; any
    /// failure leaves the registry as it was.
    pub fn begin_load(&mut self, manifest: PluginManifest, host_version: &str) -> (r: SwarmResult<PluginId>)
        ensures
            manifest_verdict(manifest, host_version@).0 != 0 ==> r is Err && final(self).plugins() == old(self).plugins(),
            first_refused_framework(manifest, old(self).load_policy()) is Some ==> r is Err
                && final(self).plugins() == old(self).plugins(),
            r is Ok <==> load_admitted(manifest, host_version@, old(self).load_policy(), old(self).plugins()),
            r is Ok ==> r == Ok::<PluginId, SwarmError>(manifest.id) && final(self).plugins() == old(
                self,
            ).plugins().insert(manifest.id@, PluginRecord { manifest, state: PluginState::Loading }),
            r is Err ==> final(self).plugins() == old(self).plugins(),
            manifest_verdict(manifest, host_version@).0 == 1 ==> (r matches Err(SwarmError::ConfigInvalid { key, reason })
                && key@ == manifest_verdict(manifest, host_version@).1 && reason@ == manifest_verdict(
                manifest,
                host_version@,
            ).2),
            manifest_verdict(manifest, host_version@).0 == 2 ==> (r matches Err(
                SwarmError::PluginVersionMismatch { name, plugin_version, host_version: h },
            ) && name@ == manifest.name@ && plugin_version@ == manifest.min_host_version@ && h@ == host_version@),
            manifest_verdict(manifest, host_version@).0 == 0 ==> (first_refused_permission(manifest, old(self).load_policy())
                matches Some(p) ==> (r matches Err(SwarmError::PermissionDenied { subject, permission, resource })
                && subject@ == manifest.name@ && permission@ == p && resource@ == "plugin_host.load"@)),
            manifest_verdict(manifest, host_version@).0 == 0 && first_refused_permission(manifest, old(self).load_policy())
                is None && !slot_free(old(self).plugins(), manifest.id@) ==> (r matches Err(SwarmError::Internal { .. })),
            final(self).load_policy() == old(self).load_policy(),
            final(self).invoke_policy() == old(self).invoke_policy(),
    {
        match manifest.validate_for_host(host_version) {
            Ok(()) => {},
            Err(e) => {
                return Err(e);
            },
        }
        match self.validate_manifest_permissions(&manifest) {
            Ok(()) => {},
            Err(e) => {
                return Err(e);
            },
        }
        let id = manifest.id;
        let ghost before = self.plugins();
        match self.prepare_registry_slot(&id) {
            Ok(()) => {},
            Err(e) => {
                return Err(e);
            },
        }
        let ghost cleared = self.plugins();
        let ghost m = manifest;
        match self.registry.register(manifest) {
            Ok(_) => {},
            Err(e) => {
                return Err(e);
            },
        }
        match self.registry.update_state(&id, PluginState::Loading) {
            Ok(()) => {},
            Err(e) => {
                return Err(e);
            },
        }
        proof {
            assert(self.plugins() =~= before.insert(id@, PluginRecord { manifest: m, state: PluginState::Loading }));
        }
        Ok(id)
    }

    /// The last loading step, after the plugin's own initialization: on
    /// success the plugin becomes `Active`; on failure it becomes `Failed`
    /// with the reason and the error is `PluginInitFailed`.
    pub fn finish_load(&mut self, id: &PluginId, outcome: Result<(), String>) -> (r: SwarmResult<PluginId>)
        ensures
            !old(self).plugins().dom().contains(id@) ==> r is Err,
            old(self).plugins().dom().contains(id@) && outcome is Ok ==> r == Ok::<PluginId, SwarmError>(*id)
                && final(self).plugins() == old(self).plugins().insert(
                id@,
                PluginRecord { state: PluginState::Active, ..old(self).plugins()[id@] },
            ),
            old(self).plugins().dom().contains(id@) && outcome is Err ==> exists|at: crate::types::Timestamp|
                final(self).plugins() == old(self).plugins().insert(
                    id@,
                    #[trigger] marked_failed(old(self).plugins()[id@], outcome->Err_0, at),
                ),
            !old(self).plugins().dom().contains(id@) ==> final(self).plugins() == old(self).plugins(),
            old(self).plugins().dom().contains(id@) && outcome is Err ==> (r matches Err(
                SwarmError::PluginInitFailed { name, reason },
            ) && name@ == old(self).plugins()[id@].manifest.name@ && reason@ == outcome->Err_0@)
                && final(self).plugins()[id@].state is Failed
                && final(self).plugins()[id@].state->Failed_reason@ == outcome->Err_0@,
            final(self).load_policy() == old(self).load_policy(),
            final(self).invoke_policy() == old(self).invoke_policy(),
    {
        let name = match self.registry.get(id) {
            Some(rec) => rec.manifest.name,
            None => {
                return Err(SwarmError::Internal { reason: owned("plugin not found in registry") });
            },
        };
        match outcome {
            Ok(()) => {
                self.registry.update_state(id, PluginState::Active)?;
                Ok(*id)
            },
            Err(reason) => {
                let at = crate::types::now();
                let ghost before = self.plugins();
                self.registry.update_state(id, PluginState::Failed { reason: reason.clone(), failed_at: at })?;
                proof {
                    assert(self.plugins() == before.insert(id@, marked_failed(before[id@], reason, at)));
                }
                Err(SwarmError::PluginInitFailed { name, reason })
            },
        }
    }

    /// The checks before an invocation: the plugin must be registered, the
    /// action declared (ignoring ASCII case), every required permission
    /// granted, and the plugin `Active`, checked in that order; the first
    /// that fails gives the error. Returns the declared action name.
    pub fn prepare_invoke(&self, plugin_id: &PluginId, action: &str) -> (r: SwarmResult<String>)
        ensures
            !self.plugins().dom().contains(plugin_id@) ==> (r matches Err(
                SwarmError::PluginOperationFailed { reason, .. },
            ) && reason@ == "plugin not loaded"@),
            self.plugins().dom().contains(plugin_id@) ==> invoke_outcome(
                r,
                self.plugins()[plugin_id@],
                self.invoke_policy(),
                action@,
            ),
            r matches Ok(s) ==> (self.plugins().dom().contains(plugin_id@) && {
                let m = self.plugins()[plugin_id@].manifest;
                &&& declared_position(action_names(m.actions@), action@) matches Some(i) && s@ == action_names(
                    m.actions@,
                )[i]
                &&& first_missing(string_texts(m.required_permissions@), self.invoke_policy().granted_framework_permissions)
                    is None
                &&& self.plugins()[plugin_id@].state is Active
            }),
    {
        let record = match self.registry.get(plugin_id) {
            Some(rec) => rec,
            None => {
                proof {
                    reveal_strlit("plugin not loaded");
                }
                return Err(
                    SwarmError::PluginOperationFailed {
                        name: plugin_id.to_text(),
                        reason: owned("plugin not loaded"),
                    },
                );
            },
        };
        proof {
            let m = self.plugins()[plugin_id@].manifest;
            let av = crate::plugin::manifest::action_views(record.manifest.actions@);
            let bv = crate::plugin::manifest::action_views(m.actions@);
            assert(av.len() == bv.len());
            assert forall|k: int| 0 <= k < m.actions@.len() implies action_names(record.manifest.actions@)[k]
                == action_names(m.actions@)[k] by {
                assert(av[k] == bv[k]);
            }
            assert(action_names(record.manifest.actions@) =~= action_names(m.actions@));
            assert(string_texts(record.manifest.required_permissions@) == string_texts(m.required_permissions@));
        }
        let declared = match self.resolve_declared_action(&record.manifest, action) {
            Ok(d) => d,
            Err(e) => {
                return Err(e);
            },
        };
        match self.validate_invocation_permissions(&record.manifest, declared.as_str()) {
            Ok(()) => {},
            Err(e) => {
                return Err(e);
            },
        }
        match self.confirm_active(plugin_id, &record.state) {
            Ok(()) => {},
            Err(e) => {
                proof {
                    assert(state_label(record.state) == state_label(self.plugins()[plugin_id@].state));
                }
                return Err(e);
            },
        }
        Ok(declared)
    }

    /// An invocation may proceed only on an `Active` plugin; otherwise the
    /// error names the state.
    pub fn confirm_active(&self, plugin_id: &PluginId, state: &PluginState) -> (r: SwarmResult<()>)
        ensures
            *state is Active ==> r is Ok,
            !(*state is Active) ==> (r matches Err(SwarmError::PluginOperationFailed { reason, .. })
                && reason@ == "plugin is "@ + state_label(*state)),
    {
        if state.is_active() {
            Ok(())
        } else {
            let mut reason = owned("plugin is ");
            reason.append(state.label());
            proof {
                reveal_strlit("plugin is ");
            }
            Err(SwarmError::PluginOperationFailed { name: plugin_id.to_text(), reason })
        }
    }

    /// The first unloading step: mark the plugin `Unloading`.
    pub fn begin_unload(&mut self, plugin_id: &PluginId) -> (r: SwarmResult<()>)
        ensures
            !old(self).plugins().dom().contains(plugin_id@) ==> r is Err && final(self).plugins() == old(self).plugins(),
            old(self).plugins().dom().contains(plugin_id@) ==> r is Ok
                && final(self).plugins()[plugin_id@].state == PluginState::Unloading,
    {
        self.registry.update_state(plugin_id, PluginState::Unloading)
    }

    /// The last unloading step, whatever the plugin's own shutdown reported:
    /// the plugin is `Unloaded`.
    pub fn finish_unload(&mut self, plugin_id: &PluginId) -> (r: SwarmResult<()>)
        ensures
            !old(self).plugins().dom().contains(plugin_id@) ==> r is Err && final(self).plugins() == old(self).plugins(),
            old(self).plugins().dom().contains(plugin_id@) ==> r is Ok
                && final(self).plugins()[plugin_id@].state == PluginState::Unloaded,
    {
        self.registry.update_state(plugin_id, PluginState::Unloaded)
    }
}

/// A plugin whose manifest requests a framework permission outside the
/// host's allow-list is never registered: loading it fails and leaves the
/// registry as it was.
pub proof fn lemma_refused_permission_blocks_load(m: PluginManifest, policy: PluginPermissionPolicy, p: Seq<char>)
    requires
        policy.allowed_framework_permissions is Some,
        string_texts(m.required_permissions@).contains(p),
        !admits(policy.allowed_framework_permissions, p),
    ensures
        first_refused_framework(m, policy) is Some,
    decreases m.required_permissions@.len(),
{
    lemma_first_missing_found(string_texts(m.required_permissions@), policy.allowed_framework_permissions, p);
}

proof fn lemma_first_missing_found(req: Seq<Seq<char>>, granted: Option<Vec<String>>, p: Seq<char>)
    requires
        req.contains(p),
        !admits(granted, p),
    ensures
        first_missing(req, granted) is Some,
    decreases req.len(),
{
    if admits(granted, req[0]) {
        let k = choose|k: int| 0 <= k < req.len() && req[k] == p;
        assert(k != 0);
        assert(req.drop_first()[k - 1] == p);
        lemma_first_missing_found(req.drop_first(), granted, p);
    }
}

/// The first missing grant is the first required permission that the grant
/// list does not admit: there is none exactly when every required permission
/// is admitted, and one that is reported is required, not admitted, and
/// preceded only by admitted ones.
pub proof fn lemma_first_missing_grant(required: Seq<Seq<char>>, granted: Option<Vec<String>>)
    ensures
        first_missing(required, granted) is None <==> forall|k: int| 0 <= k < required.len() ==> admits(
            granted,
            #[trigger] required[k],
        ),
        first_missing(required, granted) matches Some(p) ==> exists|k: int|
            0 <= k < required.len() && #[trigger] required[k] == p && !admits(granted, p) && forall|j: int|
                0 <= j < k ==> admits(granted, #[trigger] required[j]),
    decreases required.len(),
{
    if required.len() > 0 {
        let rest = required.drop_first();
        lemma_first_missing_grant(rest, granted);
        if admits(granted, required[0]) {
            assert forall|k: int| 1 <= k < required.len() implies required[k] == rest[k - 1] by {}
            if first_missing(rest, granted) is None {
                assert forall|k: int| 0 <= k < required.len() implies admits(granted, #[trigger] required[k]) by {
                    if k > 0 {
                        assert(required[k] == rest[k - 1]);
                    }
                }
            } else {
                let p = first_missing(rest, granted).unwrap();
                let k = choose|k: int| 0 <= k < rest.len() && #[trigger] rest[k] == p && !admits(granted, p)
                    && forall|j: int| 0 <= j < k ==> admits(granted, #[trigger] rest[j]);
                assert(required[k + 1] == p);
                assert forall|j: int| 0 <= j < k + 1 implies admits(granted, #[trigger] required[j]) by {
                    if j > 0 {
                        assert(required[j] == rest[j - 1]);
                    }
                }
                assert(!admits(granted, required[k + 1]));
            }
        }
    }
}

/// A host without allow-lists admits every manifest that is valid for the
/// host version into a free slot.
pub proof fn lemma_permissive_host_admits(
    m: PluginManifest,
    host: Seq<char>,
    policy: PluginPermissionPolicy,
    plugins: Map<u128, PluginRecord>,
)
    requires
        policy.allowed_framework_permissions is None,
        policy.allowed_wasm_permissions is None,
        manifest_verdict(m, host).0 == 0,
        slot_free(plugins, m.id@),
    ensures
        load_admitted(m, host, policy, plugins),
{
    lemma_first_missing_grant(string_texts(m.required_permissions@), policy.allowed_framework_permissions);
    lemma_nothing_refused_wasm(wasm_views(m.wasm_permissions@), 0);
}

proof fn lemma_nothing_refused_wasm(s: Seq<(int, Seq<char>)>, i: int)
    ensures
        first_refused_wasm(s, None, i) is None,
    decreases s.len() - i,
{
    if 0 <= i < s.len() {
        lemma_nothing_refused_wasm(s, i + 1);
    }
}

/// A plugin whose load failed leaves its slot free: the same manifest, still
/// valid and admitted by the policy, can be loaded again under the same
/// identifier.
pub proof fn lemma_failed_plugin_can_reload(
    m: PluginManifest,
    host: Seq<char>,
    policy: PluginPermissionPolicy,
    plugins: Map<u128, PluginRecord>,
)
    requires
        manifest_verdict(m, host).0 == 0,
        first_refused_permission(m, policy) is None,
        plugins.dom().contains(m.id@),
        plugins[m.id@].state is Failed,
    ensures
        load_admitted(m, host, policy, plugins),
{
}

/// A load that fails can be followed by a load that succeeds: from a host
/// that admits a manifest, `begin_load` registers it `Loading`, a failed
/// `finish_load` marks it `Failed` and frees its slot, so `begin_load` of the
/// same manifest is admitted again, and a successful `finish_load` then
/// leaves that manifest `Active` under the same identifier.
pub proof fn lemma_failed_load_then_reload(
    m: PluginManifest,
    host: Seq<char>,
    policy: PluginPermissionPolicy,
    plugins: Map<u128, PluginRecord>,
    reason: String,
    at: crate::types::Timestamp,
)
    requires
        load_admitted(m, host, policy, plugins),
    ensures
        ({
            let loading = plugins.insert(m.id@, PluginRecord { manifest: m, state: PluginState::Loading });
            let failed = loading.insert(m.id@, marked_failed(loading[m.id@], reason, at));
            let reloading = failed.insert(m.id@, PluginRecord { manifest: m, state: PluginState::Loading });
            let active = reloading.insert(m.id@, PluginRecord { state: PluginState::Active, ..reloading[m.id@] });
            &&& failed[m.id@].state is Failed
            &&& failed[m.id@].manifest == m
            &&& load_admitted(m, host, policy, failed)
            &&& active[m.id@] == (PluginRecord { manifest: m, state: PluginState::Active })
        }),
{
}

} // verus!
